use vstd::prelude::*;

verus! {

/// Appends one character to a `String` (std `String::push`).
/// Trusted: the string afterwards is the old one with `c` at its end.
#[verifier::external_body]
pub(crate) fn push_char(s: &mut String, c: char)
    ensures
        final(s)@ == old(s)@.push(c),
{
    s.push(c);
}

/// The characters of `s`, in order.
pub fn str_chars(s: &str) -> (v: Vec<char>)
    ensures
        v@ == s@,
{
    let mut v: Vec<char> = Vec::new();
    for c in it: s.chars()
        invariant
            v@ == it.seq().take(it.index() as int),
    {
        v.push(c);
    }
    v
}

/// Appends the characters `v[from..to]` to `s`.
pub fn push_slice(s: &mut String, v: &Vec<char>, from: usize, to: usize)
    requires
        from <= to <= v@.len(),
    ensures
        final(s)@ == old(s)@ + v@.subrange(from as int, to as int),
{
    let mut i = from;
    while i < to
        invariant
            from <= i <= to <= v@.len(),
            s@ == old(s)@ + v@.subrange(from as int, i as int),
        decreases to - i,
    {
        push_char(s, v[i]);
        assert(v@.subrange(from as int, (i + 1) as int) == v@.subrange(from as int, i as int).push(v@[i as int]));
        i = i + 1;
    }
}

/// A new vector holding `v[from..to]`.
pub fn sub_vec(v: &Vec<char>, from: usize, to: usize) -> (r: Vec<char>)
    requires
        from <= to <= v@.len(),
    ensures
        r@ == v@.subrange(from as int, to as int),
{
    let mut r: Vec<char> = Vec::new();
    let mut i = from;
    while i < to
        invariant
            from <= i <= to <= v@.len(),
            r@ == v@.subrange(from as int, i as int),
        decreases to - i,
    {
        r.push(v[i]);
        i = i + 1;
    }
    r
}

/// A new `String` holding `v[from..to]`.
pub fn string_of(v: &Vec<char>, from: usize, to: usize) -> (s: String)
    requires
        from <= to <= v@.len(),
    ensures
        s@ == v@.subrange(from as int, to as int),
{
    let mut s = String::new();
    push_slice(&mut s, v, from, to);
    s
}

/// Appends the characters of `t` to `s`.
pub fn push_str(s: &mut String, t: &str)
    ensures
        final(s)@ == old(s)@ + t@,
{
    let v = str_chars(t);
    push_slice(s, &v, 0, v.len());
    assert(v@.subrange(0, v@.len() as int) == v@);
}

/// Whether two strings hold the same characters.
pub fn str_eq(a: &str, b: &str) -> (r: bool)
    ensures
        r == (a@ == b@),
{
    let va = str_chars(a);
    let vb = str_chars(b);
    if va.len() != vb.len() {
        return false;
    }
    let mut i: usize = 0;
    while i < va.len()
        invariant
            va@ == a@,
            vb@ == b@,
            va@.len() == vb@.len(),
            i <= va@.len(),
            forall|j: int| 0 <= j < i ==> va@[j] == vb@[j],
        decreases va.len() - i,
    {
        if va[i] != vb[i] {
            return false;
        }
        i = i + 1;
    }
    assert(va@ == vb@);
    true
}

} // verus!

verus! {

/// The ASCII digit for `d` (which is expected to be below 10).
pub open spec fn digit_char(d: nat) -> char {
    ((48 + d) as u8) as char
}

/// Decimal digits of a natural number, most significant first, no leading zeros.
pub open spec fn nat_digits(n: nat) -> Seq<char>
    decreases n,
{
    if n < 10 {
        seq![digit_char(n)]
    } else {
        nat_digits(n / 10).push(digit_char(n % 10))
    }
}

/// Decimal representation of an integer as Rust's `Display` writes it: a `-` for
/// negative values, then the digits of the magnitude.
pub open spec fn decimal(n: int) -> Seq<char> {
    if n < 0 {
        seq!['-'] + nat_digits((-n) as nat)
    } else {
        nat_digits(n as nat)
    }
}

fn push_digits(s: &mut String, m: u64)
    ensures
        final(s)@ == old(s)@ + nat_digits(m as nat),
    decreases m,
{
    if m >= 10 {
        push_digits(s, m / 10);
    }
    let d: u8 = (m % 10) as u8;
    let c: char = (48u8 + d) as char;
    assert(c == digit_char((m % 10) as nat));
    push_char(s, c);
}

/// Appends the decimal form of `n` to `s`.
pub fn push_i64(s: &mut String, n: i64)
    ensures
        final(s)@ == old(s)@ + decimal(n as int),
{
    if n < 0 {
        push_char(s, '-');
        let m: u64 = if n == i64::MIN { 9223372036854775808u64 } else { (-n) as u64 };
        push_digits(s, m);
    } else {
        push_digits(s, n as u64);
    }
}

/// Appends the decimal form of `n` to `s`, for `n` within 64 bits of magnitude.
pub fn push_i128(s: &mut String, n: i128)
    requires
        -0x1_0000_0000_0000_0000 < n < 0x1_0000_0000_0000_0000,
    ensures
        final(s)@ == old(s)@ + decimal(n as int),
{
    if n < 0 {
        push_char(s, '-');
        push_digits(s, (-n) as u64);
    } else {
        push_digits(s, n as u64);
    }
}

/// The decimal form of `n` (what `n.to_string()` gives for an `i32`).
pub fn i32_to_string(n: i32) -> (s: String)
    ensures
        s@ == decimal(n as int),
{
    let mut s = String::new();
    push_i64(&mut s, n as i64);
    s
}

} // verus!

verus! {

pub open spec fn is_digit(c: char) -> bool {
    '0' <= c && c <= '9'
}

pub open spec fn all_digits(s: Seq<char>) -> bool {
    forall|i: int| 0 <= i < s.len() ==> is_digit(#[trigger] s[i])
}

/// The value of a string of decimal digits.
pub open spec fn digits_value(s: Seq<char>) -> nat
    decreases s.len(),
{
    if s.len() == 0 {
        0
    } else {
        digits_value(s.drop_last()) * 10 + ((s.last() as int) - ('0' as int)) as nat
    }
}

/// What `str::parse::<i32>` accepts and yields: an optional `+` or `-`, then at
/// least one ASCII digit and nothing else, with the value in the range of `i32`.
pub open spec fn parse_i32_spec(s: Seq<char>) -> Option<i32> {
    let negative = s.len() > 0 && s[0] == '-';
    let signed = s.len() > 0 && (s[0] == '-' || s[0] == '+');
    let ds = if signed { s.drop_first() } else { s };
    if ds.len() == 0 || !all_digits(ds) {
        None
    } else {
        let v: int = if negative { -(digits_value(ds) as int) } else { digits_value(ds) as int };
        if i32::MIN <= v && v <= i32::MAX {
            Some(v as i32)
        } else {
            None
        }
    }
}

proof fn lemma_digits_step(s: Seq<char>, i: int)
    requires
        0 <= i < s.len(),
        is_digit(s[i]),
    ensures
        digits_value(s.take(i + 1)) == digits_value(s.take(i)) * 10 + ((s[i] as int) - ('0' as int)),
{
    assert(s.take(i + 1).drop_last() == s.take(i));
}

/// Parses a decimal `i32` as `str::parse::<i32>` does; `None` where it fails.
pub fn parse_i32(s: &str) -> (r: Option<i32>)
    ensures
        r == parse_i32_spec(s@),
{
    let v = str_chars(s);
    let n = v.len();
    let negative = n > 0 && v[0] == '-';
    let signed = n > 0 && (v[0] == '-' || v[0] == '+');
    let start: usize = if signed { 1 } else { 0 };
    let ghost ds = if signed { s@.drop_first() } else { s@ };
    assert(ds == v@.subrange(start as int, n as int));
    if start == n {
        return None;
    }
    // The accumulated value, capped at CAP so that it stays small.
    let cap: i64 = 2147483649;
    let mut acc: i64 = 0;
    let mut i: usize = start;
    while i < n
        invariant
            v@ == s@,
            n == v@.len(),
            start <= i <= n,
            ds == v@.subrange(start as int, n as int),
            signed == (s@.len() > 0 && (s@[0] == '-' || s@[0] == '+')),
            ds == (if signed { s@.drop_first() } else { s@ }),
            all_digits(ds.take(i - start)),
            0 <= acc <= cap,
            cap == 2147483649,
            acc == (if digits_value(ds.take(i - start)) < cap { digits_value(ds.take(i - start)) as int } else { cap as int }),
        decreases n - i,
    {
        let c = v[i];
        if !('0' <= c && c <= '9') {
            assert(ds[i - start] == v@[i as int]);
            assert(!is_digit(ds[i - start]));
            assert(!all_digits(ds));
            return None;
        }
        let d: i64 = (c as u32 - 48u32) as i64;
        proof {
            lemma_digits_step(ds, i - start);
            assert(ds.take(i + 1 - start) == ds.take(i - start).push(c));
            assert forall|j: int| 0 <= j < ds.take(i + 1 - start).len() implies is_digit(#[trigger] ds.take(i + 1 - start)[j]) by {
                if j < i - start {
                    assert(ds.take(i + 1 - start)[j] == ds.take(i - start)[j]);
                }
            }
        }
        let next = acc * 10 + d;
        acc = if next < cap { next } else { cap };
        i = i + 1;
    }
    assert(ds.take(n - start) == ds);
    let value: i64 = if negative { -acc } else { acc };
    if -2147483648 <= value && value <= 2147483647 {
        Some(value as i32)
    } else {
        None
    }
}

} // verus!

verus! {

/// What `str::to_lowercase` gives for a string: Unicode lowercase mapping.
pub uninterp spec fn lowercase(s: Seq<char>) -> Seq<char>;

/// The ASCII lowercase of a character: `A`..`Z` become `a`..`z`, every other
/// character stays.
pub open spec fn ascii_lower(c: char) -> char {
    if 'A' <= c <= 'Z' {
        ((c as u32) + 32) as char
    } else {
        c
    }
}

/// Every character of `s` is ASCII.
pub open spec fn is_ascii_text(s: Seq<char>) -> bool {
    forall|i: int| 0 <= i < s.len() ==> (s[i] as u32) < 128
}

/// std `str::to_lowercase`. Trusted: the result is `lowercase` of the argument,
/// a function of the characters alone; for an ASCII string it is the string with
/// each upper-case letter made lower-case, as std documents. The rest of the
/// mapping (Unicode's tables) is not stated here.
#[verifier::external_body]
pub(crate) fn to_lowercase(s: &str) -> (r: String)
    ensures
        r@ == lowercase(s@),
        is_ascii_text(s@) ==> r@ == s@.map_values(|c: char| ascii_lower(c)),
{
    s.to_lowercase()
}

/// `needle` occurs in `hay` as a contiguous run (the empty string occurs everywhere).
pub open spec fn contains_seq(hay: Seq<char>, needle: Seq<char>) -> bool {
    exists|i: int| 0 <= i && i + needle.len() <= hay.len() && #[trigger] hay.subrange(i, i + needle.len()) == needle
}

/// `s` begins with `p`.
pub open spec fn starts_with(s: Seq<char>, p: Seq<char>) -> bool {
    p.len() <= s.len() && s.take(p.len() as int) == p
}

/// `s` ends with `p`.
pub open spec fn ends_with(s: Seq<char>, p: Seq<char>) -> bool {
    p.len() <= s.len() && s.skip(s.len() - p.len()) == p
}

fn matches_at(h: &Vec<char>, n: &Vec<char>, i: usize) -> (r: bool)
    requires
        i + n@.len() <= h@.len(),
    ensures
        r == (h@.subrange(i as int, i + n@.len()) == n@),
{
    let mut j: usize = 0;
    let mut k: usize = i;
    let hl = h.len();
    while j < n.len()
        invariant
            hl == h@.len(),
            i + n@.len() <= h@.len(),
            j <= n@.len(),
            k == i + j,
            forall|k: int| 0 <= k < j ==> h@[i + k] == n@[k],
        decreases n.len() - j,
    {
        if h[k] != n[j] {
            assert(h@.subrange(i as int, i + n@.len())[j as int] != n@[j as int]);
            return false;
        }
        j = j + 1;
        k = k + 1;
    }
    assert(h@.subrange(i as int, i + n@.len()) == n@);
    true
}

/// Whether `needle` occurs in `hay` (std `str::contains` with a string pattern).
pub fn contains(hay: &str, needle: &str) -> (r: bool)
    ensures
        r == contains_seq(hay@, needle@),
{
    let h = str_chars(hay);
    let n = str_chars(needle);
    if n.len() > h.len() {
        return false;
    }
    let mut i: usize = 0;
    let last: usize = h.len() - n.len();
    while i <= last
        invariant
            last == h@.len() - n@.len(),
            h@ == hay@,
            n@ == needle@,
            n@.len() <= h@.len(),
            i <= last + 1,
            forall|k: int| 0 <= k < i ==> #[trigger] h@.subrange(k, k + n@.len()) != n@,
        decreases last + 1 - i,
    {
        if matches_at(&h, &n, i) {
            return true;
        }
        if i == last {
            return false;
        }
        i = i + 1;
    }
    false
}

/// Whether `s` begins with `p` (std `str::starts_with` with a string pattern).
pub fn has_prefix(s: &Vec<char>, p: &Vec<char>) -> (r: bool)
    ensures
        r == starts_with(s@, p@),
{
    if p.len() > s.len() {
        return false;
    }
    let r = matches_at(s, p, 0);
    assert(s@.subrange(0, p@.len() as int) == s@.take(p@.len() as int));
    r
}

/// `s` with every leading occurrence of `p` removed, one after another, as
/// `str::trim_start_matches` does with a string pattern; an empty `p` removes nothing.
pub open spec fn trim_start(s: Seq<char>, p: Seq<char>) -> Seq<char>
    decreases s.len(),
{
    if p.len() > 0 && starts_with(s, p) {
        trim_start(s.skip(p.len() as int), p)
    } else {
        s
    }
}

/// `s` with every trailing occurrence of `p` removed, as `str::trim_end_matches` does.
pub open spec fn trim_end(s: Seq<char>, p: Seq<char>) -> Seq<char>
    decreases s.len(),
{
    if p.len() > 0 && ends_with(s, p) {
        trim_end(s.take(s.len() - p.len()), p)
    } else {
        s
    }
}

/// The position in `s` where `trim_start(s, p)` begins.
pub fn trim_start_pos(s: &Vec<char>, p: &Vec<char>) -> (pos: usize)
    ensures
        pos <= s@.len(),
        trim_start(s@, p@) == s@.skip(pos as int),
{
    let mut pos: usize = 0;
    if p.len() == 0 {
        assert(s@.skip(0) == s@);
        return 0;
    }
    assert(s@.skip(0) == s@);
    while p.len() <= s.len() - pos && matches_at(s, p, pos)
        invariant
            p@.len() > 0,
            pos <= s@.len(),
            trim_start(s@, p@) == trim_start(s@.skip(pos as int), p@),
        decreases s.len() - pos,
    {
        assert(s@.skip(pos as int).take(p@.len() as int) == s@.subrange(pos as int, pos + p@.len()));
        assert(s@.skip(pos as int).skip(p@.len() as int) == s@.skip(pos + p@.len()));
        pos = pos + p.len();
    }
    proof {
        if pos + p@.len() <= s@.len() {
            assert(s@.skip(pos as int).take(p@.len() as int) == s@.subrange(pos as int, pos + p@.len()));
        }
    }
    pos
}

/// The position in `s` where `trim_end(s, p)` ends.
pub fn trim_end_pos(s: &Vec<char>, p: &Vec<char>) -> (end: usize)
    ensures
        end <= s@.len(),
        trim_end(s@, p@) == s@.take(end as int),
{
    let mut end: usize = s.len();
    assert(s@.take(s@.len() as int) == s@);
    if p.len() == 0 {
        return end;
    }
    while p.len() <= end && matches_at(s, p, end - p.len())
        invariant
            p@.len() > 0,
            end <= s@.len(),
            trim_end(s@, p@) == trim_end(s@.take(end as int), p@),
        decreases end,
    {
        assert(s@.take(end as int).skip(end - p@.len()) == s@.subrange(end - p@.len(), end as int));
        assert(s@.take(end as int).take(end - p@.len()) == s@.take(end - p@.len()));
        end = end - p.len();
    }
    proof {
        if p@.len() <= end {
            assert(s@.take(end as int).skip(end - p@.len()) == s@.subrange(end - p@.len(), end as int));
        }
    }
    end
}

/// The pieces of `s` between occurrences of `c`, as `str::split` with a char
/// pattern yields them (adjacent separators give empty pieces; there is always
/// at least one piece).
pub open spec fn split_char(s: Seq<char>, c: char) -> Seq<Seq<char>>
    decreases s.len(),
{
    if s.len() == 0 {
        seq![Seq::<char>::empty()]
    } else {
        let r = split_char(s.drop_last(), c);
        if s.last() == c {
            r.push(Seq::<char>::empty())
        } else {
            r.update(r.len() - 1, r.last().push(s.last()))
        }
    }
}

pub proof fn lemma_split_char_nonempty(s: Seq<char>, c: char)
    ensures
        split_char(s, c).len() >= 1,
    decreases s.len(),
{
    if s.len() > 0 {
        lemma_split_char_nonempty(s.drop_last(), c);
    }
}

/// The views of a vector of strings.
pub open spec fn views(v: Seq<String>) -> Seq<Seq<char>> {
    v.map_values(|x: String| x@)
}

/// Splits `s[from..to]` at every `c` (std `str::split` with a char pattern).
pub fn split_range(s: &Vec<char>, from: usize, to: usize, c: char) -> (r: Vec<String>)
    requires
        from <= to <= s@.len(),
    ensures
        views(r@) == split_char(s@.subrange(from as int, to as int), c),
{
    let ghost t = s@.subrange(from as int, to as int);
    let mut pieces: Vec<String> = Vec::new();
    let mut start: usize = from;
    let mut i: usize = from;
    assert(t.take(0) == Seq::<char>::empty());
    assert(s@.subrange(from as int, from as int) == Seq::<char>::empty());
    while i < to
        invariant
            from <= start <= i <= to <= s@.len(),
            t == s@.subrange(from as int, to as int),
            split_char(t.take(i - from), c).len() == pieces@.len() + 1,
            forall|j: int| 0 <= j < pieces@.len() ==> #[trigger] pieces@[j]@ == split_char(t.take(i - from), c)[j],
            split_char(t.take(i - from), c).last() == s@.subrange(start as int, i as int),
        decreases to - i,
    {
        assert(t.take(i + 1 - from).drop_last() == t.take(i - from));
        assert(t.take(i + 1 - from).last() == s@[i as int]);
        if s[i] == c {
            let piece = string_of(s, start, i);
            pieces.push(piece);
            start = i + 1;
            assert(s@.subrange(start as int, (i + 1) as int) == Seq::<char>::empty());
        } else {
            assert(s@.subrange(start as int, (i + 1) as int) == s@.subrange(start as int, i as int).push(s@[i as int]));
        }
        i = i + 1;
    }
    assert(t.take(to - from) == t);
    let last = string_of(s, start, to);
    pieces.push(last);
    proof {
        lemma_split_char_nonempty(t, c);
        assert(views(pieces@) == split_char(t, c));
    }
    pieces
}

} // verus!

verus! {

proof fn lemma_digit_char(d: nat)
    requires
        d < 10,
    ensures
        digit_char(d) as int == 48 + d,
        is_digit(digit_char(d)),
{
    assert((((48 + d) as u8) as char) as int == 48 + d);
}

proof fn lemma_nat_digits(m: nat)
    ensures
        nat_digits(m).len() >= 1,
        all_digits(nat_digits(m)),
        digits_value(nat_digits(m)) == m,
    decreases m,
{
    let s = nat_digits(m);
    if m < 10 {
        lemma_digit_char(m);
        assert(s.drop_last() =~= Seq::<char>::empty());
        assert(digits_value(s.drop_last()) == 0);
        assert(s.last() == digit_char(m));
    } else {
        lemma_nat_digits(m / 10);
        lemma_digit_char(m % 10);
        assert(s.drop_last() == nat_digits(m / 10));
        assert(s.last() == digit_char(m % 10));
        vstd::arithmetic::div_mod::lemma_fundamental_div_mod(m as int, 10);
        assert(digits_value(s) == (m / 10) * 10 + m % 10);
        assert forall|i: int| 0 <= i < s.len() implies is_digit(#[trigger] s[i]) by {
            if i < s.len() - 1 {
                assert(s[i] == nat_digits(m / 10)[i]);
            }
        }
    }
}

/// Writing an `i32` in decimal and parsing it back gives the number again.
pub proof fn law_parse_decimal(n: i32)
    ensures
        parse_i32_spec(decimal(n as int)) == Some(n),
{
    if n < 0 {
        let m = (-n) as nat;
        lemma_nat_digits(m);
        let s = decimal(n as int);
        assert(s.drop_first() =~= nat_digits(m));
    } else {
        lemma_nat_digits(n as nat);
        let s = nat_digits(n as nat);
        assert(is_digit(s[0]));
    }
}

/// Splitting at a separator splits the two sides independently.
pub proof fn lemma_split_char_concat(a: Seq<char>, b: Seq<char>, c: char)
    ensures
        split_char(a + seq![c] + b, c) == split_char(a, c) + split_char(b, c),
    decreases b.len(),
{
    let whole = a + seq![c] + b;
    if b.len() == 0 {
        assert(whole.drop_last() =~= a);
        assert(split_char(a, c) + split_char(b, c) =~= split_char(a, c).push(Seq::<char>::empty()));
    } else {
        let b2 = b.drop_last();
        lemma_split_char_concat(a, b2, c);
        lemma_split_char_nonempty(b2, c);
        lemma_split_char_nonempty(a, c);
        assert(whole.drop_last() =~= a + seq![c] + b2);
        assert(whole.last() == b.last());
        if b.last() == c {
            assert(split_char(whole, c) =~= split_char(a, c) + split_char(b, c));
        } else {
            assert(split_char(whole, c) =~= split_char(a, c) + split_char(b, c));
        }
    }
}

/// A string without the separator is a single piece.
pub proof fn lemma_split_char_none(t: Seq<char>, c: char)
    requires
        forall|i: int| 0 <= i < t.len() ==> t[i] != c,
    ensures
        split_char(t, c) == seq![t],
    decreases t.len(),
{
    if t.len() > 0 {
        lemma_split_char_none(t.drop_last(), c);
        assert(t.drop_last().push(t.last()) =~= t);
    } else {
        assert(t =~= Seq::<char>::empty());
    }
}

} // verus!
