use treewalk::number::{Comparison, Number};

fn num(x: f64) -> Number {
    Number { bits: x.to_bits() }
}

fn float(n: Number) -> f64 {
    f64::from_bits(n.bits)
}

#[test]
fn text_is_read_as_the_nearest_double() {
    assert_eq!(float(Number::parse("0.1").unwrap()), 0.1);
    assert_eq!(float(Number::parse("1e3").unwrap()), 1000.0);
    assert_eq!(float(Number::parse("-2.5").unwrap()), -2.5);
}

#[test]
fn blanks_around_a_number_are_ignored() {
    assert_eq!(float(Number::parse(" \t42\n").unwrap()), 42.0);
}

#[test]
fn text_of_another_form_than_a_decimal_number_is_refused() {
    assert!(Number::parse("0x10").is_none());
    assert!(Number::parse("0x1p4").is_none());
    assert!(Number::parse("1e").is_none());
    assert!(Number::parse("1e+").is_none());
    assert!(Number::parse(".").is_none());
    assert!(Number::parse("+").is_none());
    assert!(Number::parse("e5").is_none());
    assert!(Number::parse("1.5.").is_none());
    assert!(Number::parse("--1").is_none());
    assert!(Number::parse("snan").is_none());
    assert!(Number::parse("nan(1)").is_none());
    assert!(Number::parse("infinit").is_none());
}

#[test]
fn decimal_numbers_are_read_in_all_their_forms() {
    assert_eq!(float(Number::parse(".5").unwrap()), 0.5);
    assert_eq!(float(Number::parse("5.").unwrap()), 5.0);
    assert_eq!(float(Number::parse("+3").unwrap()), 3.0);
    assert_eq!(float(Number::parse("-3.25e2").unwrap()), -325.0);
    assert_eq!(float(Number::parse("1E-2").unwrap()), 0.01);
    assert_eq!(float(Number::parse("2e+3").unwrap()), 2000.0);
    assert_eq!(float(Number::parse("1e400").unwrap()), f64::INFINITY);
    assert_eq!(float(Number::parse("007").unwrap()), 7.0);
}

#[test]
fn infinity_and_what_is_no_number_are_read_by_name() {
    for text in ["inf", "Inf", "INF", "+inf", "infinity", "Infinity", "+INFINITY"] {
        assert_eq!(float(Number::parse(text).unwrap()), f64::INFINITY, "{}", text);
    }
    for text in ["-inf", "-Infinity"] {
        assert_eq!(float(Number::parse(text).unwrap()), f64::NEG_INFINITY, "{}", text);
    }
    assert_eq!(Number::parse("nan").unwrap().bits, f64::NAN.to_bits());
    assert_eq!(Number::parse("NaN").unwrap().bits, f64::NAN.to_bits());
    assert_eq!(Number::parse("-nan").unwrap().bits, f64::NAN.to_bits() | (1 << 63));
}

#[test]
fn text_that_is_no_number_is_refused() {
    assert!(Number::parse("").is_none());
    assert!(Number::parse("abc").is_none());
    assert!(Number::parse("1.2.3").is_none());
    assert!(Number::parse("1 2").is_none());
}

#[test]
fn arithmetic_is_that_of_doubles() {
    assert_eq!(float(num(0.1).plus(num(0.2))), 0.1 + 0.2);
    assert_eq!(float(num(1.0).minus(num(0.9))), 1.0 - 0.9);
    assert_eq!(float(num(1.1).times(num(1.1))), 1.1 * 1.1);
    assert_eq!(float(num(1.0).over(num(3.0))), 1.0 / 3.0);
    assert_eq!(float(num(2.5).negated()), -2.5);
}

#[test]
fn division_by_zero_gives_infinity() {
    assert_eq!(float(num(1.0).over(num(0.0))), f64::INFINITY);
    assert!(float(num(0.0).over(num(0.0))).is_nan());
}

#[test]
fn numbers_are_ordered_as_doubles() {
    assert_eq!(num(1.0).compare(num(2.0)), Comparison::Less);
    assert_eq!(num(2.0).compare(num(2.0)), Comparison::Equal);
    assert_eq!(num(3.0).compare(num(2.0)), Comparison::Greater);
    assert_eq!(num(0.0).compare(num(-0.0)), Comparison::Equal);
    assert_eq!(num(f64::NAN).compare(num(1.0)), Comparison::Unordered);
}

#[test]
fn index_is_the_number_cut_off() {
    assert_eq!(num(0.0).index(), Some(0));
    assert_eq!(num(3.0).index(), Some(3));
    assert_eq!(num(3.9).index(), Some(3));
    assert_eq!(num(-1.0).index(), None);
    assert_eq!(num(f64::NAN).index(), None);
    assert_eq!(num(f64::INFINITY).index(), None);
    assert_eq!(num(1e30).index(), None);
}

#[test]
fn count_is_the_nearest_number() {
    assert_eq!(float(Number::count(0)), 0.0);
    assert_eq!(float(Number::count(12)), 12.0);
    assert_eq!(float(Number::one()), 1.0);
}

#[test]
fn text_of_whole_numbers_has_no_fraction() {
    assert_eq!(num(7.0).text(), "7");
    assert_eq!(num(-30.0).text(), "-30");
    assert_eq!(num(0.0).text(), "0");
}

#[test]
fn text_of_fractions_is_decimal() {
    assert_eq!(num(2.5).text(), "2.5");
    assert_eq!(num(0.125).text(), "0.125");
}

#[test]
fn text_has_the_fewest_digits_that_tell_the_number() {
    assert_eq!(num(0.1).text(), "0.1");
    assert_eq!(num(0.1 + 0.2).text(), "0.30000000000000004");
    assert_eq!(num(1.0 / 3.0).text(), "0.3333333333333333");
    assert_eq!(num(100.5).text(), "100.5");
    assert_eq!(num(-0.001).text(), "-0.001");
    assert_eq!(num(1e-7).text(), "0.0000001");
}

#[test]
fn text_of_whole_numbers_is_written_out() {
    assert_eq!(num(10000.0).text(), "10000");
    assert_eq!(num(123456789.0).text(), "123456789");
    assert_eq!(num(1e15).text(), "1000000000000000");
    assert_eq!(num(9007199254740992.0).text(), "9007199254740992");
}

#[test]
fn text_of_numbers_too_long_to_write_out_has_an_exponent() {
    assert_eq!(num(1e21).text(), "1.0E+21");
    assert_eq!(num(1.5e300).text(), "1.5E+300");
}

#[test]
fn text_of_what_is_no_finite_number() {
    assert_eq!(num(f64::INFINITY).text(), "+Inf");
    assert_eq!(num(f64::NEG_INFINITY).text(), "-Inf");
    assert_eq!(num(f64::NAN).text(), "NaN");
}

#[test]
fn text_is_read_as_the_same_number() {
    for x in [0.1, 2.5e-8, 123456.789, 1e21, -7.25, 5e-324, f64::MAX] {
        let text = num(x).text();
        assert_eq!(float(Number::parse(&text).unwrap()), x, "{}", text);
    }
}

#[test]
fn negation_turns_the_sign_only() {
    assert_eq!(float(num(0.0).negated()).to_bits(), (-0.0f64).to_bits());
    assert_eq!(float(num(f64::INFINITY).negated()), f64::NEG_INFINITY);
    assert_eq!(num(f64::NAN).negated().bits, f64::NAN.to_bits() ^ (1 << 63));
    assert_eq!(num(-3.5).negated().bits, 3.5f64.to_bits());
}

#[test]
fn whitespace_of_every_kind_is_taken_away_around_a_number() {
    assert_eq!(float(Number::parse("\u{a0}7\u{3000}").unwrap()), 7.0);
    assert_eq!(float(Number::parse("\u{2003}\r\n1.5\u{85}\u{2028}").unwrap()), 1.5);
    assert_eq!(float(Number::parse("\u{b}\u{c}2").unwrap()), 2.0);
    assert!(Number::parse("\u{a0}").is_none());
    assert!(Number::parse("1\u{a0}2").is_none());
    assert!(Number::parse("\u{200b}1").is_none());
    for code in 0..0x3100u32 {
        if let Some(c) = char::from_u32(code) {
            let text = format!("{}1{}", c, c);
            assert_eq!(Number::parse(&text).is_some(), c.is_whitespace() || c.is_ascii_digit(), "{:x}", code);
        }
    }
}
