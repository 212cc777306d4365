pub mod ping;
pub mod points;
pub mod gamble;
pub mod shapes;
pub mod afk;
pub mod rpg;
