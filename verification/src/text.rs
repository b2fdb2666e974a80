//! Decimal numbers in text, and little-endian bytes of integers.
use vstd::prelude::*;

verus! {

/// Whether every character is an ASCII decimal digit.
pub open spec fn all_digits(s: Seq<char>) -> bool {
    forall|i: int| 0 <= i < s.len() ==> '0' <= #[trigger] s[i] <= '9'
}

/// The number that a string of decimal digits spells.
pub open spec fn digits_value(s: Seq<char>) -> int
    decreases s.len(),
{
    if s.len() == 0 {
        0
    } else {
        digits_value(s.drop_last()) * 10 + (s.last() as int - 48)
    }
}

/// How Rust reads an unsigned integer no larger than `max`: an optional `+` followed by
/// one or more decimal digits whose value does not exceed `max`; anything else is an error.
pub open spec fn parse_unsigned(s: Seq<char>, max: int) -> Option<int> {
    let d = if s.len() > 0 && s[0] == '+' {
        s.drop_first()
    } else {
        s
    };
    if d.len() > 0 && all_digits(d) && digits_value(d) <= max {
        Some(digits_value(d))
    } else {
        None
    }
}

/// The decimal digit character of `d`.
pub open spec fn digit_char(d: nat) -> char
    recommends
        d < 10,
{
    (48 + d) as char
}

/// Decimal text of a number, without leading zeros.
pub open spec fn decimal(n: nat) -> Seq<char>
    decreases n,
{
    if n < 10 {
        seq![digit_char(n)]
    } else {
        decimal(n / 10) + seq![digit_char(n % 10)]
    }
}

/// `str::parse::<u64>`, as `Option`.
#[verifier::external_body]
pub(crate) fn parse_u64(s: &str) -> (r: Option<u64>)
    ensures
        match r {
            Some(v) => parse_unsigned(s@, u64::MAX as int) == Some(v as int),
            None => parse_unsigned(s@, u64::MAX as int) is None,
        },
{
    s.parse::<u64>().ok()
}

/// `str::parse::<u16>`, as `Option`.
#[verifier::external_body]
pub(crate) fn parse_u16(s: &str) -> (r: Option<u16>)
    ensures
        match r {
            Some(v) => parse_unsigned(s@, u16::MAX as int) == Some(v as int),
            None => parse_unsigned(s@, u16::MAX as int) is None,
        },
{
    s.parse::<u16>().ok()
}

/// `u64::to_string`: the decimal text of the number.
#[verifier::external_body]
pub(crate) fn u64_to_string(n: u64) -> (s: String)
    ensures
        s@ == decimal(n as nat),
{
    n.to_string()
}

/// The eight bytes of `n`, least significant first.
pub open spec fn u64_le_bytes(n: u64) -> Seq<u8> {
    Seq::new(8, |i: int| ((n as int / pow256(i)) % 256) as u8)
}

/// 256 to the power `i`.
pub open spec fn pow256(i: int) -> int
    decreases i,
{
    if i <= 0 {
        1
    } else {
        256 * pow256(i - 1)
    }
}

/// `u64::to_le_bytes`, computed byte by byte.
pub fn u64_to_le_bytes(n: u64) -> (b: [u8; 8])
    ensures
        b@ == u64_le_bytes(n),
{
    let mut b: [u8; 8] = [0u8; 8];
    let mut rest: u64 = n;
    let mut i: usize = 0;
    while i < 8
        invariant
            0 <= i <= 8,
            b@.len() == 8,
            rest as int == n as int / pow256(i as int),
            forall|j: int| 0 <= j < i ==> b@[j] == u64_le_bytes(n)[j],
        decreases 8 - i,
    {
        proof {
            lemma_pow256_pos(i as int);
            lemma_div_div(n as int, pow256(i as int), 256);
        }
        b.set(i, (rest % 256) as u8);
        rest = rest / 256;
        i = i + 1;
    }
    assert(b@ =~= u64_le_bytes(n));
    b
}

proof fn lemma_pow256_pos(i: int)
    ensures
        pow256(i) > 0,
    decreases i,
{
    if i > 0 {
        lemma_pow256_pos(i - 1);
    }
}

proof fn lemma_div_div(x: int, a: int, b: int)
    requires
        x >= 0,
        a > 0,
        b > 0,
    ensures
        x / a / b == x / (a * b),
{
    vstd::arithmetic::div_mod::lemma_div_denominator(x, a, b);
}

} // verus!
