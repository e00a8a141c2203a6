//! Fixed-width lower-case hexadecimal rendering of 64-bit values.
use vstd::prelude::*;

verus! {

/// The sixteen lower-case hexadecimal digits, in value order.
pub open spec fn hex_alphabet() -> Seq<char> {
    seq!['0', '1', '2', '3', '4', '5', '6', '7', '8', '9', 'a', 'b', 'c', 'd', 'e', 'f']
}

/// The 4-bit group of `v` that is printed at position `i` (0 = most significant).
pub open spec fn nibble(v: u64, i: int) -> u64 {
    (v >> ((60 - 4 * i) as u64)) & 0xf
}

/// `v` printed as exactly 16 lower-case hexadecimal digits, most significant first
/// (what `format!("{:016x}", v)` prints).
pub open spec fn hex16(v: u64) -> Seq<char> {
    Seq::new(16, |i: int| hex_alphabet()[nibble(v, i) as int])
}

/// The digit for a value below 16.
pub fn hex_digit(d: u64) -> (c: char)
    requires
        d < 16,
    ensures
        c == hex_alphabet()[d as int],
{
    match d {
        0 => '0',
        1 => '1',
        2 => '2',
        3 => '3',
        4 => '4',
        5 => '5',
        6 => '6',
        7 => '7',
        8 => '8',
        9 => '9',
        10 => 'a',
        11 => 'b',
        12 => 'c',
        13 => 'd',
        14 => 'e',
        _ => 'f',
    }
}

/// Renders `v` as 16 lower-case hexadecimal digits.
pub fn to_hex16(v: u64) -> (s: String)
    ensures
        s@ == hex16(v),
{
    let mut s = String::new();
    let mut i: u64 = 0;
    while i < 16
        invariant
            i <= 16,
            s@ == hex16(v).take(i as int),
        decreases 16 - i,
    {
        let shift: u64 = 60 - 4 * i;
        let d: u64 = (v >> shift) & 0xf;
        assert(d < 16) by (bit_vector)
            requires
                d == (v >> shift) & 0xf,
        ;
        assert(d == nibble(v, i as int));
        s.push(hex_digit(d));
        assert(hex16(v).take(i as int).push(hex16(v)[i as int]) == hex16(v).take(i + 1));
        i += 1;
    }
    assert(hex16(v).take(16) == hex16(v));
    s
}

/// `n` in decimal, without leading zeros.
pub open spec fn decimal(n: nat) -> Seq<char>
    decreases n,
{
    if n < 10 {
        seq![hex_alphabet()[n as int]]
    } else {
        decimal(n / 10).push(hex_alphabet()[(n % 10) as int])
    }
}

/// Renders `n` in decimal
pub fn to_decimal(n: u64) -> (s: String)
    ensures
        s@ == decimal(n as nat),
    decreases n,
{
    if n < 10 {
        let mut s = String::new();
        s.push(hex_digit(n));
        s
    } else {
        let mut s = to_decimal(n / 10);
        s.push(hex_digit(n % 10));
        s
    }
}

} // verus!
