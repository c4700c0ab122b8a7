use scrap::object::obj;
use scrap::number::read_decimal;
use scrap::render::{lay_out, number_string, read, render, strip, successor_of};
use scrap::session::run;

fn shown(source: &str) -> Vec<String> {
    let session = run(source.to_string());
    assert!(session.scanned.is_empty());
    assert!(session.parsed.is_empty());
    session.interpreter.output.iter().map(render).collect()
}

fn same_as_the_formatter(value: f64) {
    assert_eq!(number_string(value.to_bits()), format!("{}", value), "bits {:x}", value.to_bits());
}

#[test]
fn canonical_text_of_each_kind_of_value() {
    assert_eq!(render(&obj::Num(2.5f64.to_bits())), "2.5");
    assert_eq!(render(&obj::Str("raw \"text\"\n".to_string())), "raw \"text\"\n");
    assert_eq!(render(&obj::Str(String::new())), "");
    assert_eq!(render(&obj::Bool(true)), "true");
    assert_eq!(render(&obj::Bool(false)), "false");
    assert_eq!(render(&obj::Null), "Null");
}

#[test]
fn numbers_show_the_fewest_digits_that_read_back() {
    assert_eq!(number_string(1.0f64.to_bits()), "1");
    assert_eq!(number_string(0.1f64.to_bits()), "0.1");
    assert_eq!(number_string((0.1f64 + 0.2).to_bits()), "0.30000000000000004");
    assert_eq!(number_string(100.0f64.to_bits()), "100");
    assert_eq!(number_string(1e21f64.to_bits()), "1000000000000000000000");
    assert_eq!(number_string(1e-7f64.to_bits()), "0.0000001");
    assert_eq!(number_string(123456.789f64.to_bits()), "123456.789");
    assert_eq!(number_string((1.0f64 / 3.0).to_bits()), "0.3333333333333333");
    assert_eq!(number_string((2.0f64 / 3.0).to_bits()), "0.6666666666666666");
    assert_eq!(number_string(5e-324f64.to_bits()), format!("{}", 5e-324f64));
    assert_eq!(number_string(18446744073709551615.0f64.to_bits()), "18446744073709552000");
    assert_eq!(number_string(9007199254740993.0f64.to_bits()), "9007199254740992");
    assert_eq!(number_string(0.5f64.to_bits()), "0.5");
    assert_eq!(number_string(9.5f64.to_bits()), "9.5");
    assert_eq!(number_string(99.0f64.to_bits()), "99");
    assert_eq!(number_string(0.999f64.to_bits()), "0.999");
}

#[test]
fn numbers_that_are_no_ordinary_numbers() {
    assert_eq!(number_string(0.0f64.to_bits()), "0");
    assert_eq!(number_string((-0.0f64).to_bits()), "-0");
    assert_eq!(number_string(f64::INFINITY.to_bits()), "inf");
    assert_eq!(number_string(f64::NEG_INFINITY.to_bits()), "-inf");
    assert_eq!(number_string(f64::NAN.to_bits()), "NaN");
    assert_eq!(number_string((-f64::NAN).to_bits()), "NaN");
    assert_eq!(number_string(0x7FF0_0000_0000_0001), "NaN");
    assert_eq!(number_string((-1.5f64).to_bits()), "-1.5");
}

#[test]
fn numbers_show_as_the_formatter_of_doubles_shows_them() {
    for value in [
        0.0,
        -0.0,
        1.0,
        -1.0,
        0.1,
        0.2,
        0.3,
        0.1 + 0.2,
        1e21,
        1e22,
        1e23,
        1e-7,
        123456.789,
        5e-324,
        f64::MAX,
        f64::MIN,
        f64::MIN_POSITIVE,
        f64::EPSILON,
        9007199254740992.0,
        9007199254740993.0,
        18446744073709551615.0,
        2.5,
        1.5,
        100.0,
        1e100,
        1.0 / 3.0,
        2.0 / 3.0,
        9.423801704257652e195,
        9.613746890048446e285,
        f64::INFINITY,
        f64::NEG_INFINITY,
        f64::NAN,
    ] {
        same_as_the_formatter(value);
    }
}

#[test]
fn powers_of_two_show_as_the_formatter_shows_them() {
    for exponent in -1074..1024 {
        same_as_the_formatter(2f64.powi(exponent));
        same_as_the_formatter(-(2f64.powi(exponent)));
    }
}

#[test]
fn arbitrary_patterns_show_as_the_formatter_shows_them() {
    let mut state: u64 = 0x9E37_79B9_7F4A_7C15;
    for _ in 0..20000 {
        state ^= state << 13;
        state ^= state >> 7;
        state ^= state << 17;
        same_as_the_formatter(f64::from_bits(state));
    }
}

#[test]
fn small_decimals_and_large_integers_show_as_the_formatter_shows_them() {
    for i in 0..2000 {
        same_as_the_formatter(i as f64 / 100.0);
        same_as_the_formatter(i as f64 * 1e15);
        same_as_the_formatter(1.0 / (i as f64 + 1.0));
    }
}

#[test]
fn printed_shape_is_read() {
    let text: Vec<char> = "1.25E-3".chars().collect();
    let found = read(&text).unwrap();
    assert_eq!(found.digits, vec!['1', '2', '5']);
    assert_eq!(found.exponent, -3);
    assert_eq!(found.tail, vec!['E', '-', '3']);
    let round: Vec<char> = "5.000E+120".chars().collect();
    let found = read(&round).unwrap();
    assert_eq!(found.digits, vec!['5']);
    assert_eq!(found.exponent, 120);
    assert_eq!(found.tail, vec!['E', '+', '1', '2', '0']);
    for other in ["", "NaN", "+Inf", "0.0E+0", "1.5", "1.5E+", "15E+1", "1.E+1", "1.5E+12345", "1.5e+1", "1.5E1", "1.5E+1x", "-1.5E+1"] {
        let text: Vec<char> = other.chars().collect();
        assert!(read(&text).is_none(), "{}", other);
    }
}

#[test]
fn echo_shows_numbers_in_canonical_form() {
    assert_eq!(shown("echo 1; echo 1.0; echo 01.50; echo 0.1 + 0.2; echo 10 / 4;"), vec!["1", "1", "1.5", "0.30000000000000004", "2.5"]);
    assert_eq!(shown("echo 1 / 0; echo -1 / 0; echo 0 / 0; echo -0;"), vec!["inf", "-inf", "NaN", "-0"]);
    assert_eq!(shown("var x = 1; x = x + 1; echo x;"), vec!["2"]);
    assert_eq!(shown("var x = 0; while (x < 3) { x = x + 1; } echo x;"), vec!["3"]);
    assert_eq!(shown("if (false) { echo 1; } else { echo 2; }"), vec!["2"]);
    assert_eq!(shown("echo 1+2+3; echo 2+3*4; echo (2+3)*4;"), vec!["6", "14", "20"]);
}

#[test]
fn echo_shows_the_other_values_in_canonical_form() {
    assert_eq!(
        shown("echo \"a b\"; echo true; echo false; echo null; echo 1 < 2; echo \"a\" + \"b\";"),
        vec!["a b", "true", "false", "Null", "true", "ab"]
    );
}

#[test]
fn a_literal_shows_the_same_however_it_is_spelled() {
    assert_eq!(shown("echo 1;"), shown("echo 1.0;"));
    assert_eq!(shown("echo 1;"), shown("echo 1.000;"));
    assert_eq!(shown("echo 0.5;"), shown("echo 000.5000;"));
    assert_eq!(shown("echo 100;"), vec!["100"]);
    assert_eq!(shown("echo 100.0;"), vec!["100"]);
    assert_eq!(shown("echo 3.14;"), vec!["3.14"]);
    assert_eq!(shown("echo 1000000000000000000000000;"), vec!["1000000000000000000000000"]);
}

#[test]
fn decimal_notation_is_read_to_the_nearest_double() {
    assert_eq!(read_decimal("1"), Some(1.0f64.to_bits()));
    assert_eq!(read_decimal("0.1"), Some(0.1f64.to_bits()));
    assert_eq!(read_decimal("1.5E+3"), Some(1500.0f64.to_bits()));
    assert_eq!(read_decimal("1.5E-3"), Some(0.0015f64.to_bits()));
    assert_eq!(read_decimal("10.0E+2"), Some(1000.0f64.to_bits()));
    assert_eq!(read_decimal("-2"), Some((-2.0f64).to_bits()));
    assert_eq!(read_decimal("17976931348623157E+292"), Some(f64::MAX.to_bits()));
    assert_eq!(read_decimal("2E+308"), Some(f64::INFINITY.to_bits()));
    assert_eq!(read_decimal("4.9E-324"), Some(5e-324f64.to_bits()));
    assert_eq!(read_decimal("1E-400"), Some(0.0f64.to_bits()));
    assert_eq!(read_decimal("9007199254740993"), Some(9007199254740992.0f64.to_bits()));
    assert_eq!(read_decimal("0.1000000000000000055511151231257827021181583404541015625"), Some(0.1f64.to_bits()));
}

#[test]
fn what_is_no_decimal_notation_is_not_read() {
    for text in ["", ".", "1.2.3", "1+2", "E+3", "0x10", "1e5", "inf", "Inf", "NaN", "nan", "1 ", " 1", "١", "1,5", "+", "-"] {
        assert_eq!(read_decimal(text), None, "{:?}", text);
    }
}

#[test]
fn digits_are_laid_out_without_an_exponent() {
    let digits = vec!['1', '2', '5'];
    assert_eq!(lay_out(&digits, 0), "1.25");
    assert_eq!(lay_out(&digits, 1), "12.5");
    assert_eq!(lay_out(&digits, 2), "125");
    assert_eq!(lay_out(&digits, 4), "12500");
    assert_eq!(lay_out(&digits, -1), "0.125");
    assert_eq!(lay_out(&digits, -3), "0.00125");
    assert_eq!(lay_out(&vec!['7'], 0), "7");
    assert_eq!(successor_of(&digits, 3), vec!['1', '2', '6']);
    assert_eq!(successor_of(&digits, 2), vec!['1', '3']);
    assert_eq!(successor_of(&vec!['1', '9', '9'], 3), vec!['2', '0', '0']);
    assert_eq!(successor_of(&vec!['9', '9'], 2), vec!['1', '0', '0']);
    assert_eq!(successor_of(&vec!['9', '9'], 1), vec!['1', '0']);
    assert_eq!(successor_of(&digits, 0), vec!['1']);
    let mut zeros = vec!['1', '0', '5', '0', '0'];
    strip(&mut zeros);
    assert_eq!(zeros, vec!['1', '0', '5']);
    let mut only = vec!['0', '0'];
    strip(&mut only);
    assert_eq!(only, vec!['0']);
    let mut none: Vec<char> = vec![];
    strip(&mut none);
    assert!(none.is_empty());
}

#[test]
fn neighbours_of_powers_of_two_show_as_the_formatter_shows_them() {
    for exponent in -1074..1024 {
        let value = 2f64.powi(exponent);
        for step in 0..4u64 {
            same_as_the_formatter(f64::from_bits(value.to_bits().wrapping_add(step)));
            same_as_the_formatter(f64::from_bits(value.to_bits().wrapping_sub(step)));
        }
    }
}

#[test]
fn neighbours_of_powers_of_ten_show_as_the_formatter_shows_them() {
    for exponent in -330..310 {
        let value: f64 = format!("1e{}", exponent).parse().unwrap();
        same_as_the_formatter(value);
        same_as_the_formatter(f64::from_bits(value.to_bits().wrapping_add(1)));
        same_as_the_formatter(f64::from_bits(value.to_bits().wrapping_sub(1)));
        for digit in 1..10 {
            same_as_the_formatter(digit as f64 * value);
            same_as_the_formatter((digit as f64 + 0.5) * value);
        }
    }
}
