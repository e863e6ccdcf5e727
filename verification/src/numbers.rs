//! Reading numbers and IPv4 addresses from text.

use vstd::prelude::*;
use crate::text::{
    chars_of, decimal, digit_char, lemma_split_on_nonempty, split_chars, split_on, views,
};

use std::num::ParseIntError;

verus! {

#[verifier::external_type_specification]
#[verifier::external_body]
pub struct ExParseIntError(ParseIntError);

/// An ASCII decimal digit.
pub open spec fn is_digit(c: char) -> bool {
    48 <= (c as u32) <= 57
}

/// Every character is an ASCII decimal digit.
pub open spec fn all_digits(s: Seq<char>) -> bool {
    forall|i: int| 0 <= i < s.len() ==> is_digit(#[trigger] s[i])
}

/// The number that a string of decimal digits stands for.
pub open spec fn digits_value(s: Seq<char>) -> nat
    decreases s.len(),
{
    if s.len() == 0 {
        0
    } else {
        digits_value(s.drop_last()) * 10 + ((s.last() as u32) - 48) as nat
    }
}

/// The value of an optional `+` followed by one or more decimal digits.
pub open spec fn unsigned_text(s: Seq<char>) -> Option<nat> {
    let digits = if s.len() > 0 && s[0] == '+' {
        s.drop_first()
    } else {
        s
    };
    if digits.len() > 0 && all_digits(digits) {
        Some(digits_value(digits))
    } else {
        None
    }
}

/// The value of an optional `+` or `-` followed by one or more decimal digits.
pub open spec fn signed_text(s: Seq<char>) -> Option<int> {
    if s.len() > 0 && s[0] == '-' {
        let digits = s.drop_first();
        if digits.len() > 0 && all_digits(digits) {
            Some(-(digits_value(digits) as int))
        } else {
            None
        }
    } else {
        match unsigned_text(s) {
            Some(v) => Some(v as int),
            None => None,
        }
    }
}

/// `str::parse::<u16>`. As documented, the text must be an optional `+`
/// followed by decimal digits only, and the value must fit in a `u16`.
#[verifier::external_body]
pub(crate) fn parse_u16(s: &str) -> (r: Result<u16, ParseIntError>)
    ensures
        r is Ok <==> (unsigned_text(s@) matches Some(v) && v <= u16::MAX),
        r matches Ok(v) ==> unsigned_text(s@) == Some(v as nat),
{
    s.parse::<u16>()
}

/// A text that does not hold an `i32`: std's error, and its message.
#[derive(Debug)]
pub struct ParseFailure {
    pub error: ParseIntError,
    pub message: String,
}

/// The message of the error `str::parse::<i32>` gives for `text`: what
/// `ToString::to_string` makes of that `ParseIntError`. Both steps depend on
/// the text alone.
pub uninterp spec fn i32_parse_message(text: Seq<char>) -> Seq<char>;

/// `str::parse::<i32>`. As documented, the text must be an optional `+` or
/// `-` followed by decimal digits only, and the value must fit in an `i32`.
/// A failure carries std's error together with its message, which
/// `i32_parse_message` names.
#[verifier::external_body]
pub(crate) fn parse_i32(s: &str) -> (r: Result<i32, ParseFailure>)
    ensures
        r is Ok <==> (signed_text(s@) matches Some(v) && i32::MIN <= v <= i32::MAX),
        r matches Ok(v) ==> signed_text(s@) == Some(v as int),
        r matches Err(f) ==> f.message@ == i32_parse_message(s@),
{
    match s.parse::<i32>() {
        Ok(v) => Ok(v),
        Err(error) => {
            let message = error.to_string();
            Err(ParseFailure { error, message })
        },
    }
}

/// One part of a dotted IPv4 address: one to three decimal digits, without
/// a leading zero unless the part is `0` itself, of value at most 255.
pub open spec fn octet_text(s: Seq<char>) -> Option<u8> {
    if 1 <= s.len() <= 3 && all_digits(s) && !(s.len() > 1 && s[0] == '0') && digits_value(s)
        <= 255 {
        Some(digits_value(s) as u8)
    } else {
        None
    }
}

/// A dotted IPv4 address `a.b.c.d`: four parts separated by dots.
pub open spec fn ipv4_text(s: Seq<char>) -> Option<[u8; 4]> {
    let parts = split_on(s, '.');
    if parts.len() == 4 && octet_text(parts[0]) is Some && octet_text(parts[1]) is Some
        && octet_text(parts[2]) is Some && octet_text(parts[3]) is Some {
        Some(
            [
                octet_text(parts[0])->0,
                octet_text(parts[1])->0,
                octet_text(parts[2])->0,
                octet_text(parts[3])->0,
            ],
        )
    } else {
        None
    }
}

/// Reads one part of a dotted IPv4 address.
fn parse_octet(s: &[char]) -> (r: Option<u8>)
    ensures
        r == octet_text(s@),
{
    let n = s.len();
    if n < 1 || n > 3 {
        return None;
    }
    if n > 1 && s[0] == '0' {
        return None;
    }
    let mut value: u32 = 0;
    let mut i: usize = 0;
    while i < n
        invariant
            1 <= n <= 3,
            n == s@.len(),
            i <= n,
            all_digits(s@.take(i as int)),
            value == digits_value(s@.take(i as int)),
            i == 0 ==> value == 0,
            i == 1 ==> value < 10,
            i == 2 ==> value < 100,
            i == 3 ==> value < 1000,
        decreases n - i,
    {
        let c = s[i];
        if !(48 <= (c as u32) && (c as u32) <= 57) {
            assert(!all_digits(s@)) by {
                assert(!is_digit(s@[i as int]));
            }
            return None;
        }
        assert(s@.take(i + 1).drop_last() == s@.take(i as int));
        value = value * 10 + ((c as u32) - 48);
        i = i + 1;
    }
    assert(s@.take(n as int) == s@);
    if value > 255 {
        None
    } else {
        Some(value as u8)
    }
}

/// Reads a dotted IPv4 address such as `127.0.0.1`.
pub fn parse_ipv4(s: &str) -> (r: Option<[u8; 4]>)
    ensures
        r == ipv4_text(s@),
{
    let chars = chars_of(s);
    let parts = split_chars(chars.as_slice(), '.');
    let ghost p = views(parts@);
    assert(p == split_on(s@, '.'));
    if parts.len() != 4 {
        return None;
    }
    assert(p[0] == parts@[0]@ && p[1] == parts@[1]@ && p[2] == parts@[2]@ && p[3] == parts@[3]@);
    let a = parse_octet(parts[0].as_slice());
    let b = parse_octet(parts[1].as_slice());
    let c = parse_octet(parts[2].as_slice());
    let d = parse_octet(parts[3].as_slice());
    match (a, b, c, d) {
        (Some(a), Some(b), Some(c), Some(d)) => {
            let r = [a, b, c, d];
            assert(r@ =~= ipv4_text(s@)->0@);
            Some(r)
        },
        _ => None,
    }
}

/// The decimal digits of a number are digits, read back as the number,
/// start with `0` only for zero, and number one to three below a thousand.
pub proof fn lemma_decimal_reads_back(n: nat)
    ensures
        decimal(n).len() >= 1,
        all_digits(decimal(n)),
        digits_value(decimal(n)) == n,
        decimal(n)[0] == '0' ==> n == 0,
        n < 10 ==> decimal(n).len() == 1,
        n < 100 ==> decimal(n).len() <= 2,
        n < 1000 ==> decimal(n).len() <= 3,
    decreases n,
{
    if n < 10 {
        assert(decimal(n) == seq![digit_char(n)]);
        assert((digit_char(n) as u32) == 48 + n);
        assert(decimal(n).drop_last() =~= Seq::<char>::empty());
        assert(digits_value(Seq::<char>::empty()) == 0);
        assert(decimal(n).last() == digit_char(n));
        assert(digits_value(decimal(n)) == digits_value(decimal(n).drop_last()) * 10 + ((decimal(
            n,
        ).last() as u32) - 48) as nat);
    } else {
        lemma_decimal_reads_back(n / 10);
        let d = n % 10;
        assert((digit_char(d) as u32) == 48 + d);
        assert(decimal(n).drop_last() == decimal(n / 10));
        assert(decimal(n).last() == digit_char(d));
        assert(digits_value(decimal(n)) == digits_value(decimal(n / 10)) * 10 + d);
        assert((n / 10) * 10 + n % 10 == n);
        assert(decimal(n)[0] == decimal(n / 10)[0]);
        assert forall|i: int| 0 <= i < decimal(n).len() implies is_digit(#[trigger] decimal(n)[i]) by {
            if i < decimal(n).len() - 1 {
                assert(decimal(n)[i] == decimal(n / 10)[i]);
            }
        }
    }
}

/// The decimal digits of a number that fits in a `u16` read back as it.
pub proof fn lemma_unsigned_text_of_decimal(n: nat)
    ensures
        unsigned_text(decimal(n)) == Some(n),
{
    lemma_decimal_reads_back(n);
    assert(decimal(n)[0] != '+') by {
        assert(is_digit(decimal(n)[0]));
    }
}

/// The decimal digits of a number below 256 are a part of a dotted IPv4
/// address that reads back as the number.
pub proof fn lemma_octet_text_of_decimal(b: u8)
    ensures
        octet_text(decimal(b as nat)) == Some(b),
{
    lemma_decimal_reads_back(b as nat);
}

/// A text without `sep` is a single piece.
pub proof fn lemma_split_without_separator(s: Seq<char>, sep: char)
    requires
        forall|i: int| 0 <= i < s.len() ==> s[i] != sep,
    ensures
        split_on(s, sep) == seq![s],
    decreases s.len(),
{
    if s.len() > 0 {
        lemma_split_without_separator(s.drop_last(), sep);
        assert(s.drop_last().push(s.last()) =~= s);
        assert(seq![s.drop_last()].update(0, s) =~= seq![s]);
    } else {
        assert(s =~= Seq::<char>::empty());
    }
}

/// Splitting `a`, a separator, then `b`, where `a` holds no separator,
/// gives `a` followed by the pieces of `b`.
pub proof fn lemma_split_after_first(a: Seq<char>, sep: char, b: Seq<char>)
    requires
        forall|i: int| 0 <= i < a.len() ==> a[i] != sep,
    ensures
        split_on(a + seq![sep] + b, sep) == seq![a] + split_on(b, sep),
    decreases b.len(),
{
    if b.len() == 0 {
        lemma_split_without_separator(a, sep);
        assert(a + seq![sep] + b =~= (a + seq![sep]));
        assert((a + seq![sep]).drop_last() =~= a);
        assert(seq![a].push(Seq::<char>::empty()) =~= seq![a] + split_on(b, sep));
    } else {
        lemma_split_after_first(a, sep, b.drop_last());
        let whole = a + seq![sep] + b;
        assert(whole.drop_last() =~= a + seq![sep] + b.drop_last());
        assert(whole.last() == b.last());
        lemma_split_on_nonempty(b.drop_last(), sep);
        if b.last() == sep {
            assert(split_on(whole, sep) =~= seq![a] + split_on(b, sep));
        } else {
            assert(split_on(whole, sep) =~= seq![a] + split_on(b, sep));
        }
    }
}

} // verus!
