pub mod text;
pub mod message;
pub mod parser;
pub mod rpg;
pub mod world;
pub mod middleware;
pub mod modules;
