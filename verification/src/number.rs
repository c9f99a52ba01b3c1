//! Numbers of the language: IEEE-754 double-precision values, held by their
//! bit patterns. Sums, differences, products, quotients, the order of two
//! numbers, the reading of decimal digits and the writing of digits are
//! `rustc_apfloat`'s. What has the form of a number, what surrounds it as
//! whitespace, which of its texts a number is printed with, and the turning
//! of a sign are decided here.

use vstd::prelude::*;
use rustc_apfloat::ieee::Double;
use rustc_apfloat::Float;
use crate::lexer::{digits_end, is_digit};
use crate::ordering::compare_bits;

verus! {

/// A double-precision number, kept as its 64-bit IEEE-754 encoding.
#[derive(Clone, Copy, Debug, PartialEq, Eq, Structural)]
pub struct Number {
    pub bits: u64,
}

/// The bit of an encoding that holds the sign.
pub const SIGN: u64 = 0x8000_0000_0000_0000;

/// Whether `c` is whitespace: one of the characters that Unicode gives the
/// property `White_Space`.
pub open spec fn is_whitespace(c: char) -> bool {
    ||| '\u{9}' <= c <= '\u{d}'
    ||| c == ' '
    ||| c == '\u{85}'
    ||| c == '\u{a0}'
    ||| c == '\u{1680}'
    ||| '\u{2000}' <= c <= '\u{200a}'
    ||| c == '\u{2028}'
    ||| c == '\u{2029}'
    ||| c == '\u{202f}'
    ||| c == '\u{205f}'
    ||| c == '\u{3000}'
}

/// `text` without its leading and trailing whitespace.
pub open spec fn trimmed(text: Seq<char>) -> Seq<char>
    decreases text.len(),
{
    if text.len() > 0 && is_whitespace(text.first()) {
        trimmed(text.drop_first())
    } else if text.len() > 0 && is_whitespace(text.last()) {
        trimmed(text.drop_last())
    } else {
        text
    }
}

/// The encoding of the number that `rustc_apfloat` reads from `text`, if it
/// reads one.
pub uninterp spec fn parsed_bits(text: Seq<char>) -> Option<u64>;

/// The encoding of infinity.
pub const INFINITY: u64 = 0x7FF0_0000_0000_0000;

/// The encoding of what is not a number.
pub const NAN: u64 = 0x7FF8_0000_0000_0000;

/// Whether `c` is a sign.
pub open spec fn is_sign(c: char) -> bool {
    c == '+' || c == '-'
}

/// Whether the character at `at` is the letter given in its small and in
/// its capital form.
pub open spec fn letter_at(s: Seq<char>, at: nat, small: char, capital: char) -> bool {
    at < s.len() && (s[at as int] == small || s[at as int] == capital)
}

/// Whether the text from `at` on is the word `inf` or `infinity`, in small
/// or capital letters.
pub open spec fn names_infinity(s: Seq<char>, at: nat) -> bool {
    &&& letter_at(s, at, 'i', 'I')
    &&& letter_at(s, at + 1, 'n', 'N')
    &&& letter_at(s, at + 2, 'f', 'F')
    &&& (s.len() == at + 3 || {
        &&& s.len() == at + 8
        &&& letter_at(s, at + 3, 'i', 'I')
        &&& letter_at(s, at + 4, 'n', 'N')
        &&& letter_at(s, at + 5, 'i', 'I')
        &&& letter_at(s, at + 6, 't', 'T')
        &&& letter_at(s, at + 7, 'y', 'Y')
    })
}

/// Whether the text from `at` on is the word `nan`, in small or capital
/// letters.
pub open spec fn names_nan(s: Seq<char>, at: nat) -> bool {
    &&& s.len() == at + 3
    &&& letter_at(s, at, 'n', 'N')
    &&& letter_at(s, at + 1, 'a', 'A')
    &&& letter_at(s, at + 2, 'n', 'N')
}

/// The place behind the sign of a text, if it has one.
pub open spec fn behind_sign(s: Seq<char>) -> nat {
    if s.len() > 0 && is_sign(s[0]) {
        1
    } else {
        0
    }
}

/// The encoding that a text names, if it names infinity or what is not a
/// number, with or without a sign.
pub open spec fn named_bits(s: Seq<char>) -> Option<u64> {
    let sign = if s.len() > 0 && s[0] == '-' {
        SIGN
    } else {
        0
    };
    if names_infinity(s, behind_sign(s)) {
        Some(INFINITY | sign)
    } else if names_nan(s, behind_sign(s)) {
        Some(NAN | sign)
    } else {
        None
    }
}

/// Whether the text from `at` on is an exponent: `e` or `E`, a sign
/// perhaps, and digits to the end.
pub open spec fn is_exponent(s: Seq<char>, at: nat) -> bool {
    let digits: nat = if at + 1 < s.len() && is_sign(s[(at + 1) as int]) {
        at + 2
    } else {
        at + 1
    };
    &&& letter_at(s, at, 'e', 'E')
    &&& digits < s.len()
    &&& digits_end(s, digits) == s.len()
}

/// Whether a text has the form of a decimal number: a sign perhaps, digits
/// with a point perhaps among, before or behind them, and an exponent
/// perhaps.
pub open spec fn is_decimal(s: Seq<char>) -> bool {
    let start = behind_sign(s);
    let whole = digits_end(s, start);
    let pointed = whole < s.len() && s[whole as int] == '.';
    let end = if pointed {
        digits_end(s, whole + 1)
    } else {
        whole
    };
    let digits = if pointed {
        end - start - 1
    } else {
        end - start
    };
    digits > 0 && (end == s.len() || is_exponent(s, end))
}

/// The number written as `text`, surrounding whitespace ignored: infinity
/// or what is not a number where the text names it, the number that
/// `rustc_apfloat` reads where the text has the form of a decimal number, and
/// none otherwise.
pub open spec fn number_of_text(text: Seq<char>) -> Option<Number> {
    let inner = trimmed(text);
    match named_bits(inner) {
        Some(bits) => Some(Number { bits }),
        None => if is_decimal(inner) {
            match parsed_bits(inner) {
                Some(bits) => Some(Number { bits }),
                None => None,
            }
        } else {
            None
        },
    }
}

/// Whether `c` is whitespace.
fn whitespace(c: char) -> (found: bool)
    ensures
        found == is_whitespace(c),
{
    ('\u{9}' <= c && c <= '\u{d}') || c == ' ' || c == '\u{85}' || c == '\u{a0}' || c == '\u{1680}' || ('\u{2000}' <= c
        && c <= '\u{200a}') || c == '\u{2028}' || c == '\u{2029}' || c == '\u{202f}' || c == '\u{205f}' || c
        == '\u{3000}'
}

/// The part of `text` that is left when the whitespace at both its ends is
/// taken away.
fn trim(text: &str) -> (inner: &str)
    ensures
        inner@ == trimmed(text@),
{
    let len = text.unicode_len();
    let ghost s = text@;
    let mut start: usize = 0;
    assert(s.subrange(0, len as int) =~= s);
    while start < len && whitespace(text.get_char(start))
        invariant
            start <= len == s.len(),
            s == text@,
            trimmed(s) == trimmed(s.subrange(start as int, len as int)),
        decreases len - start,
    {
        proof {
            let rest = s.subrange(start as int, len as int);
            assert(rest.first() == s[start as int]);
            assert(rest.drop_first() =~= s.subrange(start + 1, len as int));
        }
        start += 1;
    }
    let mut end = len;
    while end > start && whitespace(text.get_char(end - 1))
        invariant
            start <= end <= len == s.len(),
            s == text@,
            start < len ==> !is_whitespace(s[start as int]),
            trimmed(s) == trimmed(s.subrange(start as int, end as int)),
        decreases end - start,
    {
        proof {
            let rest = s.subrange(start as int, end as int);
            assert(rest.first() == s[start as int]);
            assert(rest.last() == s[end - 1]);
            assert(rest.drop_last() =~= s.subrange(start as int, end - 1));
        }
        end -= 1;
    }
    proof {
        let rest = s.subrange(start as int, end as int);
        if rest.len() > 0 {
            assert(rest.first() == s[start as int]);
            assert(rest.last() == s[end - 1]);
        }
        assert(trimmed(rest) == rest);
    }
    text.substring_char(start, end)
}

/// `<rustc_apfloat::ieee::Double as FromStr>::from_str`, followed by
/// `Float::to_bits`: the result depends on the characters of `text` alone, and
/// is `None` exactly when the text is refused. The crate reads more forms
/// than decimal numbers, some of which it wants checked beforehand; it is
/// handed decimal numbers alone.
#[verifier::external_body]
fn parse_bits(text: &str) -> (bits: Option<u64>)
    requires
        is_decimal(text@),
    ensures
        bits == parsed_bits(text@),
{
    match text.parse::<Double>() {
        Ok(value) => Some(Float::to_bits(value) as u64),
        Err(_) => None,
    }
}

/// How two numbers stand to each other. Two numbers of which one is not a
/// number are unordered.
#[derive(Clone, Copy, Debug, PartialEq, Eq, Structural)]
pub enum Comparison {
    Less,
    Equal,
    Greater,
    Unordered,
}

/// The encoding of the sum that `rustc_apfloat` computes, rounding to nearest.
pub uninterp spec fn sum_bits(a: u64, b: u64) -> u64;

/// The encoding of the difference that `rustc_apfloat` computes.
pub uninterp spec fn difference_bits(a: u64, b: u64) -> u64;

/// The encoding of the product that `rustc_apfloat` computes.
pub uninterp spec fn product_bits(a: u64, b: u64) -> u64;

/// The encoding of the quotient that `rustc_apfloat` computes.
pub uninterp spec fn quotient_bits(a: u64, b: u64) -> u64;

/// How `rustc_apfloat` orders the two numbers.
pub uninterp spec fn compared_bits(a: u64, b: u64) -> Comparison;

/// The whole number that `rustc_apfloat` finds in a number by cutting off its
/// fraction, where that is a count of 64 bits.
pub uninterp spec fn whole_of_bits(a: u64) -> Option<u64>;

/// The encoding of the number nearest to a count.
pub uninterp spec fn bits_of_count(n: u64) -> u64;

/// The decimal text that `rustc_apfloat` writes for a number, with at most
/// `precision` digits, and in exponent form where more than `width` zeros
/// would have to be filled in or the digits asked for do not reach the units.
pub uninterp spec fn text_of_bits(a: u64, width: usize, precision: usize) -> Seq<char>;

/// The zeros that a text may be filled with: more than any number needs
/// behind its decimal point.
pub const WIDTH: usize = 400;

/// The most digits that a text is asked with: as many as tell any two
/// numbers apart.
pub const DIGITS: usize = 17;

/// The text of a number with `precision` digits.
pub open spec fn digits_text(bits: u64, precision: nat) -> Seq<char> {
    text_of_bits(bits, WIDTH, precision as usize)
}

/// Whether the text with `precision` digits is read as the number again.
pub open spec fn reads_back(bits: u64, precision: nat) -> bool {
    number_of_text(digits_text(bits, precision)) == Some(Number { bits })
}

/// Whether a text is in exponent form.
pub open spec fn has_exponent(text: Seq<char>) -> bool {
    text.contains('E')
}

/// The fewest digits, from `from` on, with which the text is read as the
/// number again; with `plain`, the text must not be in exponent form.
pub open spec fn fewest_digits(bits: u64, plain: bool, from: nat) -> Option<nat>
    decreases DIGITS + 1 - from,
{
    if from > DIGITS {
        None
    } else if reads_back(bits, from) && !(plain && has_exponent(digits_text(bits, from))) {
        Some(from)
    } else {
        fewest_digits(bits, plain, from + 1)
    }
}

/// `+` of `rustc_apfloat::ieee::Double`, that is `Float::add_r` rounding to
/// nearest, ties to even: the result depends on the two encodings alone.
#[verifier::external_body]
fn add_bits(a: u64, b: u64) -> (sum: u64)
    ensures
        sum == sum_bits(a, b),
{
    let x = Double::from_bits(a as u128);
    let y = Double::from_bits(b as u128);
    Float::to_bits((x + y).value) as u64
}

/// `-` of `rustc_apfloat::ieee::Double`, that is `Float::sub_r` rounding to
/// nearest: the result depends on the two encodings alone.
#[verifier::external_body]
fn sub_bits(a: u64, b: u64) -> (difference: u64)
    ensures
        difference == difference_bits(a, b),
{
    let x = Double::from_bits(a as u128);
    let y = Double::from_bits(b as u128);
    Float::to_bits((x - y).value) as u64
}

/// `*` of `rustc_apfloat::ieee::Double`, that is `Float::mul_r` rounding to
/// nearest: the result depends on the two encodings alone.
#[verifier::external_body]
fn mul_bits(a: u64, b: u64) -> (product: u64)
    ensures
        product == product_bits(a, b),
{
    let x = Double::from_bits(a as u128);
    let y = Double::from_bits(b as u128);
    Float::to_bits((x * y).value) as u64
}

/// `/` of `rustc_apfloat::ieee::Double`, that is `Float::div_r` rounding to
/// nearest: the result depends on the two encodings alone. Division by zero
/// gives an infinity or a value that is not a number; it does not fail.
#[verifier::external_body]
fn div_bits(a: u64, b: u64) -> (quotient: u64)
    ensures
        quotient == quotient_bits(a, b),
{
    let x = Double::from_bits(a as u128);
    let y = Double::from_bits(b as u128);
    Float::to_bits((x / y).value) as u64
}

/// `Float::to_u128` of `rustc_apfloat`, for a width of 64 bits: the number
/// cut off towards zero, so that a number between -1 and 0 gives the count
/// 0. Where the crate reports an invalid operation (the number is -1 or less,
/// too large, or not a number) there is no count.
#[verifier::external_body]
fn whole_bits(a: u64) -> (whole: Option<u64>)
    ensures
        whole == whole_of_bits(a),
{
    let x = Double::from_bits(a as u128);
    let cut = Float::to_u128(x, 64);
    if cut.status.intersects(rustc_apfloat::Status::INVALID_OP) {
        None
    } else {
        u64::try_from(cut.value).ok()
    }
}

/// `Float::from_u128` of `rustc_apfloat`, rounding to nearest: the result
/// depends on the count alone.
#[verifier::external_body]
fn count_bits(n: u64) -> (bits: u64)
    ensures
        bits == bits_of_count(n),
{
    let x = Double::from_u128(n as u128).value;
    Float::to_bits(x) as u64
}

/// `Display` of `rustc_apfloat::ieee::Double`, asked with a width and a
/// precision: the text depends on the encoding and on the two alone. The two
/// are kept small: the crate multiplies the precision without a check, and
/// a formatter takes no large width.
#[verifier::external_body]
fn text_bits(a: u64, width: usize, precision: usize) -> (text: String)
    requires
        width <= WIDTH,
        1 <= precision <= DIGITS,
    ensures
        text@ == text_of_bits(a, width, precision),
{
    let x = Double::from_bits(a as u128);
    format!("{:width$.precision$}", x)
}

/// Whether a text is in exponent form.
#[verifier::rlimit(100)]
fn in_exponent_form(text: &str) -> (found: bool)
    ensures
        found == has_exponent(text@),
{
    let len = text.unicode_len();
    let mut i: usize = 0;
    while i < len
        invariant
            i <= len == text@.len(),
            forall|j: int| 0 <= j < i ==> text@[j] != 'E',
        decreases len - i,
    {
        if text.get_char(i) == 'E' {
            return true;
        }
        i += 1;
    }
    false
}

/// Whether the character at `at` is the letter given in its small and in
/// its capital form.
fn has_letter(text: &str, len: usize, at: usize, small: char, capital: char) -> (found: bool)
    requires
        len == text@.len(),
    ensures
        found == letter_at(text@, at as nat, small, capital),
{
    if at < len {
        let c = text.get_char(at);
        c == small || c == capital
    } else {
        false
    }
}

/// The place behind the sign of a text.
fn skip_sign(text: &str, len: usize) -> (at: usize)
    requires
        len == text@.len(),
    ensures
        at == behind_sign(text@),
        at <= len,
{
    if len > 0 {
        let c = text.get_char(0);
        if c == '+' || c == '-' {
            return 1;
        }
    }
    0
}

/// The encoding that a text names, if it names infinity or what is not a
/// number.
#[verifier::rlimit(100)]
fn named(text: &str) -> (bits: Option<u64>)
    ensures
        bits == named_bits(text@),
{
    let len = text.unicode_len();
    let at = skip_sign(text, len);
    let sign: u64 = if len > 0 && text.get_char(0) == '-' {
        SIGN
    } else {
        0
    };
    if len - at == 3 || len - at == 8 {
        let inf = has_letter(text, len, at, 'i', 'I') && has_letter(text, len, at + 1, 'n', 'N') && has_letter(
            text,
            len,
            at + 2,
            'f',
            'F',
        );
        if inf && (len - at == 3 || (has_letter(text, len, at + 3, 'i', 'I') && has_letter(
            text,
            len,
            at + 4,
            'n',
            'N',
        ) && has_letter(text, len, at + 5, 'i', 'I') && has_letter(text, len, at + 6, 't', 'T') && has_letter(
            text,
            len,
            at + 7,
            'y',
            'Y',
        ))) {
            return Some(INFINITY | sign);
        }
        if len - at == 3 && has_letter(text, len, at, 'n', 'N') && has_letter(text, len, at + 1, 'a', 'A')
            && has_letter(text, len, at + 2, 'n', 'N') {
            return Some(NAN | sign);
        }
    }
    None
}

/// The end of the digits that start at `pos`.
fn digits_run(text: &str, len: usize, pos: usize) -> (end: usize)
    requires
        pos <= len == text@.len(),
    ensures
        end == digits_end(text@, pos as nat),
        pos <= end <= len,
{
    let mut i = pos;
    while i < len && is_digit_char(text.get_char(i))
        invariant
            pos <= i <= len == text@.len(),
            digits_end(text@, pos as nat) == digits_end(text@, i as nat),
        decreases len - i,
    {
        i += 1;
    }
    i
}

/// Whether `c` is a decimal digit.
fn is_digit_char(c: char) -> (b: bool)
    ensures
        b == is_digit(c),
{
    '0' <= c && c <= '9'
}

/// Whether the text from `at` on is an exponent.
fn exponent(text: &str, len: usize, at: usize) -> (found: bool)
    requires
        at <= len == text@.len(),
    ensures
        found == is_exponent(text@, at as nat),
{
    if !has_letter(text, len, at, 'e', 'E') {
        return false;
    }
    let mut digits = at + 1;
    if digits < len {
        let c = text.get_char(digits);
        if c == '+' || c == '-' {
            digits = at + 2;
        }
    }
    digits < len && digits_run(text, len, digits) == len
}

/// Whether a text has the form of a decimal number.
#[verifier::rlimit(100)]
fn decimal(text: &str) -> (found: bool)
    ensures
        found == is_decimal(text@),
{
    let len = text.unicode_len();
    let start = skip_sign(text, len);
    let whole = digits_run(text, len, start);
    let pointed = whole < len && text.get_char(whole) == '.';
    let end = if pointed {
        digits_run(text, len, whole + 1)
    } else {
        whole
    };
    let digits = if pointed {
        end - start - 1
    } else {
        end - start
    };
    digits > 0 && (end == len || exponent(text, len, end))
}

impl Number {
    /// The number one.
    pub fn one() -> (n: Number)
        ensures
            n == Number::spec_one(),
    {
        Number::count(1)
    }

    /// The number one.
    pub open spec fn spec_one() -> Number {
        Number { bits: bits_of_count(1) }
    }

    /// The sum of two numbers.
    pub open spec fn spec_plus(self, other: Number) -> Number {
        Number { bits: sum_bits(self.bits, other.bits) }
    }

    /// The difference of two numbers.
    pub open spec fn spec_minus(self, other: Number) -> Number {
        Number { bits: difference_bits(self.bits, other.bits) }
    }

    /// The product of two numbers.
    pub open spec fn spec_times(self, other: Number) -> Number {
        Number { bits: product_bits(self.bits, other.bits) }
    }

    /// The quotient of two numbers.
    pub open spec fn spec_over(self, other: Number) -> Number {
        Number { bits: quotient_bits(self.bits, other.bits) }
    }

    /// The number with its sign turned round: the same encoding, but for
    /// the bit of the sign.
    pub open spec fn spec_negated(self) -> Number {
        Number { bits: self.bits ^ SIGN }
    }

    /// How the number stands to another.
    pub open spec fn spec_compare(self, other: Number) -> Comparison {
        compared_bits(self.bits, other.bits)
    }

    /// The place in a list that the number names, if it names one: the
    /// number without its fraction, where that is a count that the machine can
    /// hold.
    pub open spec fn spec_index(self) -> Option<usize> {
        match whole_of_bits(self.bits) {
            Some(whole) => if whole <= usize::MAX {
                Some(whole as usize)
            } else {
                None
            },
            None => None,
        }
    }

    /// The number of a count.
    pub open spec fn spec_count(n: usize) -> Number {
        Number { bits: bits_of_count(n as u64) }
    }

    /// The text of the number: the one with the fewest digits that is read
    /// as the number again, written without an exponent where one of at most
    /// [`DIGITS`] digits is; where no text is read as the number again, the
    /// one with all the digits.
    pub open spec fn spec_text(self) -> Seq<char> {
        match fewest_digits(self.bits, true, 1) {
            Some(p) => digits_text(self.bits, p),
            None => match fewest_digits(self.bits, false, 1) {
                Some(p) => digits_text(self.bits, p),
                None => digits_text(self.bits, DIGITS as nat),
            },
        }
    }

    /// The sum of two numbers.
    pub fn plus(self, other: Number) -> (n: Number)
        ensures
            n == self.spec_plus(other),
    {
        Number { bits: add_bits(self.bits, other.bits) }
    }

    /// The difference of two numbers.
    pub fn minus(self, other: Number) -> (n: Number)
        ensures
            n == self.spec_minus(other),
    {
        Number { bits: sub_bits(self.bits, other.bits) }
    }

    /// The product of two numbers.
    pub fn times(self, other: Number) -> (n: Number)
        ensures
            n == self.spec_times(other),
    {
        Number { bits: mul_bits(self.bits, other.bits) }
    }

    /// The quotient of two numbers.
    pub fn over(self, other: Number) -> (n: Number)
        ensures
            n == self.spec_over(other),
    {
        Number { bits: div_bits(self.bits, other.bits) }
    }

    /// The number with its sign turned round.
    pub fn negated(self) -> (n: Number)
        ensures
            n == self.spec_negated(),
    {
        Number { bits: self.bits ^ SIGN }
    }

    /// How the number stands to another.
    pub fn compare(self, other: Number) -> (c: Comparison)
        ensures
            c == self.spec_compare(other),
    {
        compare_bits(self.bits, other.bits)
    }

    /// The place in a list that the number names, if it names one.
    pub fn index(self) -> (i: Option<usize>)
        ensures
            i == self.spec_index(),
    {
        match whole_bits(self.bits) {
            Some(whole) => if whole <= usize::MAX as u64 {
                Some(whole as usize)
            } else {
                None
            },
            None => None,
        }
    }

    /// The number of a count.
    pub fn count(n: usize) -> (number: Number)
        ensures
            number == Number::spec_count(n),
    {
        Number { bits: count_bits(n as u64) }
    }

    /// The text of the number.
    pub fn text(self) -> (text: String)
        ensures
            text@ == self.spec_text(),
    {
        match self.shortest(true) {
            Some(text) => text,
            None => match self.shortest(false) {
                Some(text) => text,
                None => text_bits(self.bits, WIDTH, DIGITS),
            },
        }
    }

    /// The text with the fewest digits that is read as the number again;
    /// with `plain`, the text must not be in exponent form.
    #[verifier::rlimit(100)]
    fn shortest(self, plain: bool) -> (found: Option<String>)
        ensures
            match fewest_digits(self.bits, plain, 1) {
                Some(p) => found matches Some(text) && text@ == digits_text(self.bits, p),
                None => found is None,
            },
    {
        let mut p: usize = 1;
        while p <= DIGITS
            invariant
                1 <= p <= DIGITS + 1,
                fewest_digits(self.bits, plain, 1) == fewest_digits(self.bits, plain, p as nat),
            decreases DIGITS + 1 - p,
        {
            let text = text_bits(self.bits, WIDTH, p);
            let exact = match Number::parse(text.as_str()) {
                Some(n) => n.bits == self.bits,
                None => false,
            };
            if exact && !(plain && in_exponent_form(text.as_str())) {
                return Some(text);
            }
            p += 1;
        }
        None
    }

    /// Reads a number from its source text.
    pub fn parse(text: &str) -> (number: Option<Number>)
        ensures
            number == number_of_text(text@),
    {
        let inner = trim(text);
        match named(inner) {
            Some(bits) => Some(Number { bits }),
            None => if decimal(inner) {
                match parse_bits(inner) {
                    Some(bits) => Some(Number { bits }),
                    None => None,
                }
            } else {
                None
            },
        }
    }
}

} // verus!
