//! Decimal digit strings: their value, the canonical rendering of a number,
//! and the conversion of a digit string to `u16`.

use std::num::ParseIntError;
use vstd::prelude::*;
use vstd::string::StringExecFns;

verus! {

#[verifier::external_type_specification]
#[verifier::external_body]
pub struct ExParseIntError(ParseIntError);

/// An ASCII decimal digit.
pub open spec fn is_digit(c: char) -> bool {
    '0' <= c && c <= '9'
}

/// A non-empty run of ASCII decimal digits.
pub open spec fn all_digits(s: Seq<char>) -> bool {
    s.len() > 0 && forall|i: int| 0 <= i < s.len() ==> is_digit(#[trigger] s[i])
}

/// A digit string with no superfluous leading zero.
pub open spec fn is_canonical(s: Seq<char>) -> bool {
    s.len() == 1 || s[0] != '0'
}

pub open spec fn digit_value(c: char) -> nat {
    (c as int - '0' as int) as nat
}

/// The number that a string of decimal digits denotes.
pub open spec fn digits_value(s: Seq<char>) -> nat
    decreases s.len(),
{
    if s.len() == 0 {
        0
    } else {
        digits_value(s.drop_last()) * 10 + digit_value(s.last())
    }
}

pub open spec fn digit_char(d: nat) -> char {
    ((d + '0' as int) as u32) as char
}

/// The decimal rendering of `n`, without leading zeros.
pub open spec fn decimal(n: nat) -> Seq<char>
    decreases n,
{
    if n < 10 {
        seq![digit_char(n)]
    } else {
        decimal(n / 10).push(digit_char(n % 10))
    }
}

/// Whether `c` is in the `regex` crate's `\d` class, the Unicode decimal
/// digits (`\p{Nd}`).
pub uninterp spec fn regex_digit(c: char) -> bool;

/// Relies on the `regex` crate's `\d` class, `\p{Nd}`: whether `c` is in
/// it. The ASCII digits are; `.` and ASCII letters are not.
#[verifier::external_body]
pub(crate) fn in_digit_class(c: char) -> (r: bool)
    ensures
        r == regex_digit(c),
        is_digit(c) ==> r,
        (c == '.' || ('a' <= c && c <= 'z') || ('A' <= c && c <= 'Z')) ==> !r,
{
    let mut buf = [0u8; 4];
    regex::Regex::new(r"\A\d\z").unwrap().is_match(c.encode_utf8(&mut buf))
}

/// A non-empty run of `\d` characters.
pub open spec fn all_class_digits(s: Seq<char>) -> bool {
    s.len() > 0 && forall|i: int| 0 <= i < s.len() ==> regex_digit(#[trigger] s[i])
}

/// The length of the longest prefix of `s` made of `\d` characters.
pub open spec fn digit_run(s: Seq<char>) -> nat
    decreases s.len(),
{
    if s.len() > 0 && regex_digit(s[0]) {
        1 + digit_run(s.drop_first())
    } else {
        0
    }
}

pub proof fn lemma_digit_run(s: Seq<char>)
    ensures
        digit_run(s) <= s.len(),
        forall|i: int| 0 <= i < digit_run(s) ==> regex_digit(#[trigger] s[i]),
        digit_run(s) < s.len() ==> !regex_digit(s[digit_run(s) as int]),
    decreases s.len(),
{
    if s.len() > 0 && regex_digit(s[0]) {
        lemma_digit_run(s.drop_first());
        assert forall|i: int| 0 <= i < digit_run(s) implies regex_digit(#[trigger] s[i]) by {
            if i > 0 {
                assert(s[i] == s.drop_first()[i - 1]);
            }
        }
    }
}

proof fn lemma_value_positive(s: Seq<char>)
    requires
        all_digits(s),
        s[0] != '0',
    ensures
        digits_value(s) >= 1,
        s.len() >= 2 ==> digits_value(s) >= 10,
    decreases s.len(),
{
    if s.len() >= 2 {
        let p = s.drop_last();
        assert(p[0] == s[0]);
        assert forall|i: int| 0 <= i < p.len() implies is_digit(#[trigger] p[i]) by {
            assert(p[i] == s[i]);
        }
        lemma_value_positive(p);
    }
}

/// Rendering the value of a canonical digit string gives that string back.
pub proof fn lemma_decimal_of_digits(s: Seq<char>)
    requires
        all_digits(s),
        is_canonical(s),
    ensures
        decimal(digits_value(s)) == s,
    decreases s.len(),
{
    let n = digits_value(s);
    let last = s.last();
    assert(is_digit(s[s.len() - 1]));
    if s.len() == 1 {
        assert(digits_value(s.drop_last()) == 0);
        assert(decimal(n) =~= s);
    } else {
        let p = s.drop_last();
        assert(p[0] == s[0]);
        assert forall|i: int| 0 <= i < p.len() implies is_digit(#[trigger] p[i]) by {
            assert(p[i] == s[i]);
        }
        lemma_value_positive(s);
        lemma_decimal_of_digits(p);
        assert(n / 10 == digits_value(p));
        assert(n % 10 == digit_value(last));
        assert(digit_char(digit_value(last)) == last) by {
            assert(last as u32 == (last as int) as u32);
        }
        assert(decimal(n) =~= s);
    }
}

/// Relies on `str::parse::<u16>` (`u16::from_str`): a non-empty string of
/// Unicode decimal digits converts to its value when every digit is ASCII and
/// the value fits in 16 bits, and fails otherwise.
#[verifier::external_body]
pub(crate) fn parse_u16(s: &str) -> (r: Result<u16, ParseIntError>)
    requires
        all_class_digits(s@),
    ensures
        r is Ok <==> (all_digits(s@) && digits_value(s@) <= u16::MAX),
        r matches Ok(v) ==> v as nat == digits_value(s@),
{
    s.parse::<u16>()
}

fn digit_str(d: u16) -> (r: &'static str)
    requires
        d < 10,
    ensures
        r@ == seq![digit_char(d as nat)],
{
    proof {
        reveal_strlit("0");
        reveal_strlit("1");
        reveal_strlit("2");
        reveal_strlit("3");
        reveal_strlit("4");
        reveal_strlit("5");
        reveal_strlit("6");
        reveal_strlit("7");
        reveal_strlit("8");
        reveal_strlit("9");
    }
    let r = match d {
        0 => "0",
        1 => "1",
        2 => "2",
        3 => "3",
        4 => "4",
        5 => "5",
        6 => "6",
        7 => "7",
        8 => "8",
        _ => "9",
    };
    assert(r@ =~= seq![digit_char(d as nat)]);
    r
}

/// Appends the decimal rendering of `n` to `out`.
pub fn push_decimal(out: &mut String, n: u16)
    ensures
        final(out)@ == old(out)@ + decimal(n as nat),
    decreases n,
{
    if n >= 10 {
        push_decimal(out, n / 10);
    }
    out.append(digit_str(n % 10));
    assert(out@ =~= old(out)@ + decimal(n as nat));
}

} // verus!
