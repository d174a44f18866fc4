//! Character-level helpers shared by the autostart and credential modules.

use vstd::prelude::*;
use vstd::string::*;

verus! {

/// Whether the text holds the character `c` anywhere.
pub fn contains_char(s: &str, c: char) -> (found: bool)
    ensures
        found == s@.contains(c),
{
    let mut found = false;
    for x in it: s.chars()
        invariant
            it.seq() == s@,
            found == s@.take(it.index() as int).contains(c),
    {
        let ghost before = s@.take(it.index() as int);
        assert(x == s@[it.index() as int]);
        assert(s@.take(it.index() + 1) == before.push(x));
        if x == c {
            found = true;
            assert(before.push(x)[before.len() as int] == c);
        } else {
            assert(before.push(x).contains(c) ==> before.contains(c)) by {
                if before.push(x).contains(c) {
                    let k = choose|k: int| 0 <= k < before.push(x).len() && before.push(x)[k] == c;
                    assert(before[k] == c);
                }
            }
        }
    }
    assert(s@.take(s@.len() as int) == s@);
    found
}

/// `String::push`: appends one character at the end.
#[verifier::external_body]
pub fn push_char(s: &mut String, c: char)
    ensures
        final(s)@ == old(s)@.push(c),
{
    s.push(c)
}

/// `<str as PartialEq>::eq`: two string slices are equal when they hold the
/// same characters.
#[verifier::external_body]
pub fn str_eq(a: &str, b: &str) -> (equal: bool)
    ensures
        equal == (a@ == b@),
{
    a == b
}

/// A new `String` holding the characters of `s`.
pub fn owned(s: &str) -> (res: String)
    ensures
        res@ == s@,
{
    String::from_str(s)
}

/// The character of the decimal digit `d < 10`.
pub open spec fn decimal_digit(d: nat) -> char {
    ((48 + d) as u8) as char
}

/// The decimal numeral of `n`, without leading zeros, as `format!("{n}")` writes it.
pub open spec fn decimal(n: nat) -> Seq<char>
    decreases n,
{
    if n < 10 {
        seq![decimal_digit(n)]
    } else {
        decimal(n / 10).push(decimal_digit(n % 10))
    }
}

/// Appends the decimal numeral of `n`.
pub fn push_decimal(out: &mut String, n: u32)
    ensures
        final(out)@ == old(out)@ + decimal(n as nat),
    decreases n,
{
    if n >= 10 {
        push_decimal(out, n / 10);
    }
    let d = (n % 10) as u8;
    push_char(out, (48 + d) as char);
    assert(out@ =~= old(out)@ + decimal(n as nat));
}

} // verus!
