//! Small string helpers: trusted views of two std operations and verified
//! digit formatting used by the date, partition-key and JSON modules.
use vstd::prelude::*;

verus! {

/// Relies on std's `String::push`: appends exactly the given character.
#[verifier::external_body]
pub fn push_char(s: &mut String, c: char)
    ensures
        final(s)@ == old(s)@ + seq![c],
{
    s.push(c)
}

/// Relies on std's `str::chars`: yields the characters of the string in
/// order, which is exactly the string's view.
#[verifier::external_body]
pub fn chars_vec(s: &str) -> (r: Vec<char>)
    ensures
        r@ == s@,
{
    s.chars().collect()
}

/// Relies on std's `str` equality: string slices are equal exactly when
/// their character sequences are.
#[verifier::external_body]
pub fn str_eq(a: &str, b: &str) -> (r: bool)
    ensures
        r == (a@ == b@),
{
    a == b
}

/// The character for a single decimal digit.
pub open spec fn digit_char(d: int) -> char {
    ((48 + d) as u8) as char
}

/// Decimal rendering of `n` zero-padded to two digits.
pub open spec fn two_digits(n: int) -> Seq<char> {
    seq![digit_char(n / 10), digit_char(n % 10)]
}

/// Decimal rendering of `n` zero-padded to three digits.
pub open spec fn three_digits(n: int) -> Seq<char> {
    seq![digit_char(n / 100), digit_char((n / 10) % 10), digit_char(n % 10)]
}

/// Decimal rendering of `n` zero-padded to four digits.
pub open spec fn four_digits(n: int) -> Seq<char> {
    seq![
        digit_char(n / 1000),
        digit_char((n / 100) % 10),
        digit_char((n / 10) % 10),
        digit_char(n % 10),
    ]
}

/// Appends the character for one decimal digit.
pub fn push_digit(s: &mut String, d: u32)
    requires
        d < 10,
    ensures
        final(s)@ == old(s)@ + seq![digit_char(d as int)],
{
    let c: u8 = 48 + (d as u8);
    push_char(s, c as char);
}

/// Appends `n` zero-padded to two decimal digits.
pub fn push_two_digits(s: &mut String, n: u32)
    requires
        n < 100,
    ensures
        final(s)@ == old(s)@ + two_digits(n as int),
{
    push_digit(s, n / 10);
    push_digit(s, n % 10);
    proof {
        assert(final(s)@ =~= old(s)@ + two_digits(n as int));
    }
}

/// Appends `n` zero-padded to three decimal digits.
pub fn push_three_digits(s: &mut String, n: u32)
    requires
        n < 1000,
    ensures
        final(s)@ == old(s)@ + three_digits(n as int),
{
    push_digit(s, n / 100);
    push_digit(s, (n / 10) % 10);
    push_digit(s, n % 10);
    proof {
        assert(final(s)@ =~= old(s)@ + three_digits(n as int));
    }
}

/// Appends `n` zero-padded to four decimal digits.
pub fn push_four_digits(s: &mut String, n: u32)
    requires
        n < 10000,
    ensures
        final(s)@ == old(s)@ + four_digits(n as int),
{
    push_digit(s, n / 1000);
    push_digit(s, (n / 100) % 10);
    push_digit(s, (n / 10) % 10);
    push_digit(s, n % 10);
    proof {
        assert(final(s)@ =~= old(s)@ + four_digits(n as int));
    }
}

} // verus!
