use vstd::prelude::*;

verus! {

/// Appends one character to a `String` (std's `String::push`).
/// Trusted: the result's characters are the old ones followed by `c`.
#[verifier::external_body]
pub(crate) fn push_char(s: &mut String, c: char)
    ensures
        final(s)@ == old(s)@.push(c),
{
    s.push(c)
}

/// Copies a string slice into a new `String`.
pub fn owned(s: &str) -> (r: String)
    ensures
        r@ == s@,
{
    s.to_owned()
}

/// Appends a string slice to a `String`.
pub fn push_str(s: &mut String, t: &str)
    ensures
        final(s)@ == old(s)@ + t@,
{
    s.append(t)
}

/// Whether two strings hold the same characters.
pub fn same_text(a: &String, b: &str) -> (r: bool)
    ensures
        r == (a@ == b@),
{
    let b = b.to_owned();
    *a == b
}

/// The characters of a string, in order.
pub fn chars_of(s: &str) -> (v: Vec<char>)
    ensures
        v@ == s@,
{
    let mut v: Vec<char> = Vec::new();
    for c in it: s.chars()
        invariant
            it.seq() == s@,
            v@ == it.seq().take(it.index() as int),
    {
        v.push(c);
    }
    v
}

/// A `String` holding the given characters.
pub fn string_of(v: &Vec<char>) -> (s: String)
    ensures
        s@ == v@,
{
    let mut s = String::new();
    let mut i: usize = 0;
    while i < v.len()
        invariant
            i <= v.len(),
            s@ == v@.take(i as int),
        decreases v.len() - i,
    {
        push_char(&mut s, v[i]);
        assert(v@.take(i + 1) == v@.take(i as int).push(v@[i as int]));
        i = i + 1;
    }
    assert(v@.take(v.len() as int) == v@);
    s
}

/// A `String` holding the characters `v[start..end]`.
pub fn string_of_range(v: &Vec<char>, start: usize, end: usize) -> (s: String)
    requires
        start <= end <= v.len(),
    ensures
        s@ == v@.subrange(start as int, end as int),
{
    let mut s = String::new();
    let mut i: usize = start;
    while i < end
        invariant
            start <= i <= end <= v.len(),
            s@ == v@.subrange(start as int, i as int),
        decreases end - i,
    {
        push_char(&mut s, v[i]);
        assert(v@.subrange(start as int, i + 1) == v@.subrange(start as int, i as int).push(v@[i as int]));
        i = i + 1;
    }
    s
}

/// The decimal digit character for `d < 10`.
pub open spec fn digit_char(d: nat) -> char {
    if d == 0 { '0' }
    else if d == 1 { '1' }
    else if d == 2 { '2' }
    else if d == 3 { '3' }
    else if d == 4 { '4' }
    else if d == 5 { '5' }
    else if d == 6 { '6' }
    else if d == 7 { '7' }
    else if d == 8 { '8' }
    else { '9' }
}

/// The decimal digits of a natural number, most significant first.
pub open spec fn nat_text(n: nat) -> Seq<char>
    decreases n,
{
    if n < 10 {
        seq![digit_char(n)]
    } else {
        nat_text(n / 10).push(digit_char(n % 10))
    }
}

/// The decimal text of an integer, with a leading `-` when negative.
pub open spec fn int_text(i: int) -> Seq<char> {
    if i < 0 {
        seq!['-'] + nat_text((-i) as nat)
    } else {
        nat_text(i as nat)
    }
}

fn digit(d: u64) -> (c: char)
    requires
        d < 10,
    ensures
        c == digit_char(d as nat),
{
    if d == 0 { '0' }
    else if d == 1 { '1' }
    else if d == 2 { '2' }
    else if d == 3 { '3' }
    else if d == 4 { '4' }
    else if d == 5 { '5' }
    else if d == 6 { '6' }
    else if d == 7 { '7' }
    else if d == 8 { '8' }
    else { '9' }
}

fn push_digits(s: &mut String, n: u64)
    ensures
        final(s)@ == old(s)@ + nat_text(n as nat),
    decreases n,
{
    if n >= 10 {
        push_digits(s, n / 10);
    }
    push_char(s, digit(n % 10));
}

/// The decimal text of an `i64`, as `i64::to_string` writes it.
pub fn i64_text(v: i64) -> (s: String)
    ensures
        s@ == int_text(v as int),
{
    let mut s = String::new();
    if v < 0 {
        push_char(&mut s, '-');
        let m: u64 = ((-(v + 1)) as u64) + 1;
        push_digits(&mut s, m);
    } else {
        push_digits(&mut s, v as u64);
    }
    s
}

/// The decimal text of a `usize`.
pub fn usize_text(v: usize) -> (s: String)
    ensures
        s@ == nat_text(v as nat),
{
    let mut s = String::new();
    push_digits(&mut s, v as u64);
    s
}


/// Why a text is not an `i64`, as `str::parse::<i64>` reports it.
pub enum IntErrorKind {
    Empty,
    InvalidDigit,
    PosOverflow,
    NegOverflow,
}

/// The message of a failed integer parse (the `Display` text of `ParseIntError`).
pub open spec fn int_error_text(k: IntErrorKind) -> Seq<char> {
    match k {
        IntErrorKind::Empty => "cannot parse integer from empty string"@,
        IntErrorKind::InvalidDigit => "invalid digit found in string"@,
        IntErrorKind::PosOverflow => "number too large to fit in target type"@,
        IntErrorKind::NegOverflow => "number too small to fit in target type"@,
    }
}

/// Reads the digits of `s` from index `i` onto `acc`, left to right, stopping at the first
/// character that is not a digit or at the first digit that takes the value out of `i64`.
pub open spec fn read_digits(s: Seq<char>, i: nat, acc: int, neg: bool) -> Result<int, IntErrorKind>
    decreases s.len() - i,
{
    if i >= s.len() {
        Ok(acc)
    } else {
        let c = s[i as int];
        if !('0' as u32 <= c as u32 <= '9' as u32) {
            Err(IntErrorKind::InvalidDigit)
        } else {
            let d = (c as u32 - '0' as u32) as int;
            if neg {
                let v = acc * 10 - d;
                if v < i64::MIN {
                    Err(IntErrorKind::NegOverflow)
                } else {
                    read_digits(s, i + 1, v, neg)
                }
            } else {
                let v = acc * 10 + d;
                if v > i64::MAX {
                    Err(IntErrorKind::PosOverflow)
                } else {
                    read_digits(s, i + 1, v, neg)
                }
            }
        }
    }
}

/// The `i64` that a text spells, as `str::parse::<i64>` reads it: an optional sign, then
/// decimal digits.
pub open spec fn parse_int(s: Seq<char>) -> Result<int, IntErrorKind> {
    if s.len() == 0 {
        Err(IntErrorKind::Empty)
    } else if s[0] == '+' || s[0] == '-' {
        if s.len() == 1 {
            Err(IntErrorKind::InvalidDigit)
        } else {
            read_digits(s, 1, 0, s[0] == '-')
        }
    } else {
        read_digits(s, 0, 0, false)
    }
}

/// Reads an `i64` from a text as `str::parse::<i64>` does; on failure, the kind of failure.
pub fn parse_i64(s: &Vec<char>) -> (r: Result<i64, IntErrorKind>)
    ensures
        match (r, parse_int(s@)) {
            (Ok(v), Ok(w)) => v as int == w,
            (Err(k), Err(j)) => k == j,
            _ => false,
        },
{
    if s.len() == 0 {
        return Err(IntErrorKind::Empty);
    }
    let neg = s[0] == '-';
    let mut i: usize = 0;
    if s[0] == '+' || s[0] == '-' {
        if s.len() == 1 {
            return Err(IntErrorKind::InvalidDigit);
        }
        i = 1;
    }
    let start = i;
    let mut acc: i64 = 0;
    while i < s.len()
        invariant
            start <= i <= s.len(),
            start == (if s@[0] == '+' || s@[0] == '-' { 1nat } else { 0nat }),
            neg == (s@[0] == '-'),
            s.len() > 0,
            (neg && start == 1) ==> acc <= 0,
            !(neg && start == 1) ==> acc >= 0,
            read_digits(s@, start as nat, 0, neg && start == 1) == read_digits(s@, i as nat, acc as int, neg && start == 1),
        decreases s.len() - i,
    {
        let c = s[i];
        if !('0' as u32 <= c as u32 && c as u32 <= '9' as u32) {
            return Err(IntErrorKind::InvalidDigit);
        }
        let d = (c as u32 - '0' as u32) as i64;
        let ghost n = neg && start == 1;
        assert(d == (c as u32 - '0' as u32) as int);
        if neg && start == 1 {
            let v: i128 = (acc as i128) * 10 - (d as i128);
            if v < i64::MIN as i128 {
                return Err(IntErrorKind::NegOverflow);
            }
            assert(read_digits(s@, i as nat, acc as int, n) == read_digits(s@, (i + 1) as nat, v as int, n));
            acc = v as i64;
        } else {
            let v: i128 = (acc as i128) * 10 + (d as i128);
            if v > i64::MAX as i128 {
                return Err(IntErrorKind::PosOverflow);
            }
            assert(read_digits(s@, i as nat, acc as int, n) == read_digits(s@, (i + 1) as nat, v as int, n));
            acc = v as i64;
        }
        i = i + 1;
    }
    Ok(acc)
}

} // verus!
