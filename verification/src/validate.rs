//! Validation and parsing of decimal integer command-line values.
//!
//! A value is accepted exactly when the standard library would parse it:
//! an optional sign followed by at least one decimal digit, denoting a
//! value within the range of the target type.

use vstd::prelude::*;
use vstd::string::{StrSliceExecFns, StringExecFns};

verus! {

/// Whether `c` is a decimal digit.
pub open spec fn spec_is_digit(c: char) -> bool {
    '0' as u32 <= c as u32 && c as u32 <= '9' as u32
}

/// The numeric value of the decimal digit `c`.
pub open spec fn spec_digit_val(c: char) -> int {
    c as u32 - '0' as u32
}

/// Whether every character of `s` is a decimal digit.
pub open spec fn all_digits(s: Seq<char>) -> bool {
    forall|i: int| 0 <= i < s.len() ==> spec_is_digit(#[trigger] s[i])
}

/// The value of `s` read as a decimal numeral, most significant digit
/// first.
pub open spec fn digits_val(s: Seq<char>) -> int
    decreases s.len(),
{
    if s.len() == 0 {
        0
    } else {
        digits_val(s.drop_last()) * 10 + spec_digit_val(s.last())
    }
}

/// The digits of an unsigned numeral: everything behind an optional
/// leading plus sign.
pub open spec fn spec_unsigned_body(s: Seq<char>) -> Seq<char> {
    if s.len() > 0 && s[0] == '+' {
        s.drop_first()
    } else {
        s
    }
}

/// Whether `s` denotes an unsigned decimal value of at most `max`: an
/// optional plus sign, then at least one digit.
pub open spec fn parses_as_unsigned(s: Seq<char>, max: int) -> bool {
    let b = spec_unsigned_body(s);
    b.len() > 0 && all_digits(b) && digits_val(b) <= max
}

/// Whether `s` denotes a signed decimal value between `min` and `max`:
/// an optional plus or minus sign, then at least one digit.
pub open spec fn parses_as_signed(s: Seq<char>, min: int, max: int) -> bool {
    if s.len() > 0 && s[0] == '-' {
        let b = s.drop_first();
        b.len() > 0 && all_digits(b) && min <= -digits_val(b)
    } else {
        parses_as_unsigned(s, max)
    }
}

/// A numeral of digits alone has a nonnegative value.
proof fn lemma_digits_val_nonneg(s: Seq<char>)
    requires
        all_digits(s),
    ensures
        0 <= digits_val(s),
    decreases s.len(),
{
    if s.len() > 0 {
        lemma_digits_val_nonneg(s.drop_last());
    }
}

/// Reading one more digit multiplies the prefix value by ten and adds
/// that digit.
proof fn lemma_digits_val_take_succ(s: Seq<char>, i: int)
    requires
        0 <= i < s.len(),
    ensures
        digits_val(s.take(i + 1)) == digits_val(s.take(i)) * 10 + spec_digit_val(s[i]),
{
    assert(s.take(i + 1).drop_last() =~= s.take(i));
    assert(s.take(i + 1).last() == s[i]);
}

/// In a numeral of digits alone, the value of a prefix never exceeds the
/// value of the whole.
proof fn lemma_digits_val_mono(s: Seq<char>, i: int)
    requires
        all_digits(s),
        0 <= i <= s.len(),
    ensures
        digits_val(s.take(i)) <= digits_val(s),
    decreases s.len() - i,
{
    if i == s.len() {
        assert(s.take(i) =~= s);
    } else {
        assert(all_digits(s.take(i))) by {
            assert(forall|j: int| 0 <= j < i ==> s.take(i)[j] == s[j]);
        }
        lemma_digits_val_nonneg(s.take(i));
        lemma_digits_val_take_succ(s, i);
        lemma_digits_val_mono(s, i + 1);
    }
}

/// Reads the characters of `s` from position `start` on as an unsigned
/// decimal numeral of value at most `max`: the value when they are one
/// or more digits denoting at most `max`, and nothing otherwise.
fn parse_digits(s: &str, start: usize, max: u128) -> (r: Option<u128>)
    requires
        start <= s@.len(),
        max <= u64::MAX as u128,
    ensures
        match r {
            Some(v) => {
                let b = s@.subrange(start as int, s@.len() as int);
                &&& b.len() > 0
                &&& all_digits(b)
                &&& digits_val(b) == v
                &&& v <= max
            },
            None => {
                let b = s@.subrange(start as int, s@.len() as int);
                !(b.len() > 0 && all_digits(b) && digits_val(b) <= max)
            },
        },
{
    let ghost b = s@.subrange(start as int, s@.len() as int);
    let len = s.unicode_len();
    if start >= len {
        return None;
    }
    let mut i = start;
    let mut acc: u128 = 0;
    while i < len
        invariant
            start <= i <= len,
            len == s@.len(),
            start < len,
            max <= u64::MAX as u128,
            b == s@.subrange(start as int, s@.len() as int),
            all_digits(b.take(i - start)),
            acc == digits_val(b.take(i - start)),
            acc <= max,
        decreases len - i,
    {
        let c = s.get_char(i);
        proof {
            assert(b[i - start] == s@[i as int]);
        }
        let u = c as u32;
        if u < 48 || u > 57 {
            assert(!spec_is_digit(b[i - start]));
            return None;
        }
        let d = (u - 48) as u128;
        let next = acc * 10 + d;
        proof {
            assert(b.take(i + 1 - start).drop_last() =~= b.take(i - start));
            assert(b.take(i + 1 - start).last() == b[i - start]);
        }
        if next > max {
            proof {
                if all_digits(b) {
                    lemma_digits_val_mono(b, i + 1 - start);
                }
            }
            return None;
        }
        acc = next;
        i = i + 1;
    }
    proof {
        assert(b.take(i - start) =~= b);
    }
    Some(acc)
}

/// Parses `s` as a `usize`: an optional plus sign, then one or more
/// decimal digits denoting a value the type can hold.
pub fn parse_usize(s: &str) -> (r: Option<usize>)
    ensures
        r is Some <==> parses_as_unsigned(s@, usize::MAX as int),
        r matches Some(v) ==> v == digits_val(spec_unsigned_body(s@)),
{
    let len = s.unicode_len();
    let start: usize = if len > 0 && s.get_char(0) == '+' {
        1
    } else {
        0
    };
    proof {
        assert(s@.subrange(start as int, s@.len() as int) =~= spec_unsigned_body(s@));
    }
    match parse_digits(s, start, usize::MAX as u128) {
        Some(v) => Some(v as usize),
        None => None,
    }
}

/// Parses `s` as a `u32`: an optional plus sign, then one or more
/// decimal digits denoting a value the type can hold.
pub fn parse_u32(s: &str) -> (r: Option<u32>)
    ensures
        r is Some <==> parses_as_unsigned(s@, u32::MAX as int),
        r matches Some(v) ==> v == digits_val(spec_unsigned_body(s@)),
{
    let len = s.unicode_len();
    let start: usize = if len > 0 && s.get_char(0) == '+' {
        1
    } else {
        0
    };
    proof {
        assert(s@.subrange(start as int, s@.len() as int) =~= spec_unsigned_body(s@));
    }
    match parse_digits(s, start, u32::MAX as u128) {
        Some(v) => Some(v as u32),
        None => None,
    }
}

/// Parses `s` as an `isize`: an optional plus or minus sign, then one or
/// more decimal digits denoting a value the type can hold.
pub fn parse_isize(s: &str) -> (r: Option<isize>)
    ensures
        r is Some <==> parses_as_signed(s@, isize::MIN as int, isize::MAX as int),
        r matches Some(v) ==> if s@.len() > 0 && s@[0] == '-' {
            v == -digits_val(s@.drop_first())
        } else {
            v == digits_val(spec_unsigned_body(s@))
        },
{
    let len = s.unicode_len();
    if len > 0 && s.get_char(0) == '-' {
        proof {
            assert(s@.subrange(1, s@.len() as int) =~= s@.drop_first());
        }
        let bound = (isize::MAX as u128) + 1;
        match parse_digits(s, 1, bound) {
            Some(v) => {
                if v <= isize::MAX as u128 {
                    Some((-(v as isize)) as isize)
                } else {
                    Some(isize::MIN)
                }
            },
            None => None,
        }
    } else {
        let start: usize = if len > 0 && s.get_char(0) == '+' {
            1
        } else {
            0
        };
        proof {
            assert(s@.subrange(start as int, s@.len() as int) =~= spec_unsigned_body(s@));
        }
        match parse_digits(s, start, isize::MAX as u128) {
            Some(v) => Some(v as isize),
            None => None,
        }
    }
}

/// The digit character denoting the value `d`.
pub open spec fn spec_digit_char(d: int) -> char {
    if d == 0 {
        '0'
    } else if d == 1 {
        '1'
    } else if d == 2 {
        '2'
    } else if d == 3 {
        '3'
    } else if d == 4 {
        '4'
    } else if d == 5 {
        '5'
    } else if d == 6 {
        '6'
    } else if d == 7 {
        '7'
    } else if d == 8 {
        '8'
    } else {
        '9'
    }
}

/// The decimal numeral denoting the nonnegative value `n`, most
/// significant digit first and without leading zeros.
pub open spec fn spec_udecimal(n: int) -> Seq<char>
    decreases n,
{
    if n < 10 {
        seq![spec_digit_char(n)]
    } else {
        spec_udecimal(n / 10) + seq![spec_digit_char(n % 10)]
    }
}

/// The decimal numeral denoting `n`, with a leading minus sign when `n`
/// is negative.
pub open spec fn spec_decimal(n: int) -> Seq<char> {
    if n < 0 {
        seq!['-'] + spec_udecimal(-n)
    } else {
        spec_udecimal(n)
    }
}

/// The one-character string for the digit value `d`.
fn digit_str(d: usize) -> (r: &'static str)
    requires
        d < 10,
    ensures
        r@ == seq![spec_digit_char(d as int)],
{
    match d {
        0 => {
            proof {
                reveal_strlit("0");
                assert("0"@ =~= seq![spec_digit_char(0)]);
            }
            "0"
        },
        1 => {
            proof {
                reveal_strlit("1");
                assert("1"@ =~= seq![spec_digit_char(1)]);
            }
            "1"
        },
        2 => {
            proof {
                reveal_strlit("2");
                assert("2"@ =~= seq![spec_digit_char(2)]);
            }
            "2"
        },
        3 => {
            proof {
                reveal_strlit("3");
                assert("3"@ =~= seq![spec_digit_char(3)]);
            }
            "3"
        },
        4 => {
            proof {
                reveal_strlit("4");
                assert("4"@ =~= seq![spec_digit_char(4)]);
            }
            "4"
        },
        5 => {
            proof {
                reveal_strlit("5");
                assert("5"@ =~= seq![spec_digit_char(5)]);
            }
            "5"
        },
        6 => {
            proof {
                reveal_strlit("6");
                assert("6"@ =~= seq![spec_digit_char(6)]);
            }
            "6"
        },
        7 => {
            proof {
                reveal_strlit("7");
                assert("7"@ =~= seq![spec_digit_char(7)]);
            }
            "7"
        },
        8 => {
            proof {
                reveal_strlit("8");
                assert("8"@ =~= seq![spec_digit_char(8)]);
            }
            "8"
        },
        _ => {
            proof {
                reveal_strlit("9");
                assert("9"@ =~= seq![spec_digit_char(9)]);
            }
            "9"
        },
    }
}

/// Appends the decimal numeral of `n` to `m`.
fn push_udecimal(m: &mut String, n: usize)
    ensures
        final(m)@ == old(m)@ + spec_udecimal(n as int),
    decreases n,
{
    if n < 10 {
        m.append(digit_str(n));
    } else {
        push_udecimal(m, n / 10);
        m.append(digit_str(n % 10));
        proof {
            assert(final(m)@ =~= old(m)@ + spec_udecimal(n as int));
        }
    }
}

/// The decimal numeral denoting `n`, as a string.
pub fn format_isize(n: isize) -> (r: String)
    ensures
        r@ == spec_decimal(n as int),
{
    let mut m = String::from_str("");
    proof {
        reveal_strlit("");
        assert(m@ =~= Seq::<char>::empty());
    }
    if n < 0 {
        m.append("-");
        let mag: usize = ((-(n + 1)) as usize) + 1;
        push_udecimal(&mut m, mag);
        proof {
            reveal_strlit("-");
            assert("-"@ =~= seq!['-']);
            assert(m@ =~= spec_decimal(n as int));
        }
    } else {
        push_udecimal(&mut m, n as usize);
        proof {
            assert(m@ =~= spec_decimal(n as int));
        }
    }
    m
}

/// The rejection message for an input that denotes no value of the
/// named type: it names the type and carries the rejected input.
fn rejection(ty: &str, s: &str) -> (m: String)
    ensures
        m@ == "failed to parse integer ("@ + ty@ + ") (input was '"@ + s@ + "')"@,
{
    let mut m = String::from_str("failed to parse integer (");
    m.append(ty);
    m.append(") (input was '");
    m.append(s);
    m.append("')");
    m
}

/// Accepts `s` exactly when it denotes a `usize` value; the rejection
/// message carries the rejected input.
pub fn usize_validator(s: String) -> (r: Result<(), String>)
    ensures
        r is Ok <==> parses_as_unsigned(s@, usize::MAX as int),
        r matches Err(m) ==> m@ == "failed to parse integer ("@ + "usize"@ + ") (input was '"@
            + s@ + "')"@,
{
    match parse_usize(s.as_str()) {
        Some(_) => Ok(()),
        None => Err(rejection("usize", s.as_str())),
    }
}

/// Accepts `s` exactly when it denotes a `u32` value; the rejection
/// message carries the rejected input.
pub fn u32_validator(s: String) -> (r: Result<(), String>)
    ensures
        r is Ok <==> parses_as_unsigned(s@, u32::MAX as int),
        r matches Err(m) ==> m@ == "failed to parse integer ("@ + "u32"@ + ") (input was '"@ + s@
            + "')"@,
{
    match parse_u32(s.as_str()) {
        Some(_) => Ok(()),
        None => Err(rejection("u32", s.as_str())),
    }
}

/// Accepts `s` exactly when it denotes an `isize` value; the rejection
/// message carries the rejected input.
pub fn isize_validator(s: String) -> (r: Result<(), String>)
    ensures
        r is Ok <==> parses_as_signed(s@, isize::MIN as int, isize::MAX as int),
        r matches Err(m) ==> m@ == "failed to parse integer ("@ + "isize"@ + ") (input was '"@
            + s@ + "')"@,
{
    match parse_isize(s.as_str()) {
        Some(_) => Ok(()),
        None => Err(rejection("isize", s.as_str())),
    }
}

} // verus!
