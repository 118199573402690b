use shipping_costs::numeral::{is_number, Number};
use shipping_costs::weight::{WeightRange, LIGHT_LIMIT, MEDIUM_LIMIT};

fn by_single_precision(text: &str) -> WeightRange {
    match text.parse::<f32>() {
        Ok(weight) => {
            if weight < 2.0 {
                WeightRange::Under2Lbs
            } else if weight < 5.0 {
                WeightRange::Between2And5Lbs
            } else {
                WeightRange::Over5Lbs
            }
        }
        Err(_) => WeightRange::Unknown,
    }
}

fn samples() -> Vec<String> {
    let mut texts: Vec<String> = [
        "", " ", "0", "-0", "+0", "0.0", "1", "1.99", "2", "2.0", "2.", "02", "4.99", "5", "5.0",
        "5.", "abc", "1e0", "2e0", "20e-1", "0.2e1", "0.02e2", "200e-2", "5e0", "50e-1", "0.5e1",
        "0.0005e4", "5000e-3", "1e1", "1e-1", "1E1", "1E+1", "1e+", "1e", "e1", ".", ".5", "5.",
        "+.5", "-.5", "+", "-", "++1", "--1", "+-1", "1..2", "1.2.3", "1e1e1", "1e1.5", "1,5",
        "1_0", "0x10", "inf", "INF", "Inf", "+inf", "-inf", "infinity", "INFINITY", "-Infinity",
        "infinit", "infinityy", "nan", "NaN", "NAN", "+nan", "-nan", "nane", "in", "na",
        "1.9999999", "1.99999994", "1.999999940395355224609375",
        "1.9999999403953552246093749", "1.9999999403953552246093751", "1.99999995",
        "1.9999998807907104", "2.0000001", "4.9999997", "4.99999976",
        "4.9999997615814208984375", "4.99999976158142089843749",
        "4.99999976158142089843750000001", "4.9999998", "4.9999995", "5.0000001",
        "19999999403953552246093750e-25", "0.00000000019999999403953552246093750e10",
        "49999997615814208984375e-22", "499999976158142089843749999999999999e-35",
        "1e400", "-1e400", "1e-400", "5e-324", "3.4028235e38", "3.5e38",
        "1e99999999999999999999999999999999999999", "1e-99999999999999999999999999999999999999",
        "-1e99999999999999999999999999999999999999", "0e99999999999999999999999999999999999999",
        "0.000000000000000000000000000000000000000000000000001e51",
        "0.000000000000000000000000000000000000000000000000005e51",
        "2000000000000000000000000000000000000000000000000000e-51",
        "1 ", " 1", "1\n", "１", "٣", "1f", "1.0f32", "9", "9.99", "10", "09.99", "0010",
        "000000000000000000000000000000000000000000000000000000000001.5",
        "2.000000000000000000000000000000000000000000000000000000000000",
        "1.999999999999999999999999999999999999999999999999999999999999",
        "4.999999999999999999999999999999999999999999999999999999999999",
    ]
    .iter()
    .map(|s| s.to_string())
    .collect();
    for int_part in ["", "0", "1", "2", "4", "5", "19", "49"] {
        for frac in ["", "0", "5", "9", "99", "999999", "9999999", "99999999", "000001"] {
            for exp in ["", "e0", "e1", "e-1", "E2", "e-2", "e+0", "e00"] {
                texts.push(format!("{}.{}{}", int_part, frac, exp));
                texts.push(format!("{}{}{}", int_part, frac, exp));
                texts.push(format!("-{}.{}{}", int_part, frac, exp));
            }
        }
    }
    texts
}

#[test]
fn weight_buckets() {
    assert_eq!(WeightRange::from_str("1.99"), WeightRange::Under2Lbs);
    assert_eq!(WeightRange::from_str("2.0"), WeightRange::Between2And5Lbs);
    assert_eq!(WeightRange::from_str("4.99"), WeightRange::Between2And5Lbs);
    assert_eq!(WeightRange::from_str("5.0"), WeightRange::Over5Lbs);
    assert_eq!(WeightRange::from_str("abc"), WeightRange::Unknown);
}

#[test]
fn weights_at_the_ends_of_the_scale() {
    assert_eq!(WeightRange::from_str("0"), WeightRange::Under2Lbs);
    assert_eq!(WeightRange::from_str("-3"), WeightRange::Under2Lbs);
    assert_eq!(WeightRange::from_str("-7.5"), WeightRange::Under2Lbs);
    assert_eq!(WeightRange::from_str("-inf"), WeightRange::Under2Lbs);
    assert_eq!(WeightRange::from_str("inf"), WeightRange::Over5Lbs);
    assert_eq!(WeightRange::from_str("NaN"), WeightRange::Over5Lbs);
    assert_eq!(WeightRange::from_str("1e30"), WeightRange::Over5Lbs);
    assert_eq!(WeightRange::from_str("1e-30"), WeightRange::Under2Lbs);
    assert_eq!(WeightRange::from_str(""), WeightRange::Unknown);
    assert_eq!(WeightRange::from_str("2 lbs"), WeightRange::Unknown);
}

#[test]
fn weights_round_to_single_precision_before_they_are_classed() {
    assert_eq!(WeightRange::from_str("1.9999999"), WeightRange::Under2Lbs);
    assert_eq!(WeightRange::from_str("1.99999995"), WeightRange::Between2And5Lbs);
    assert_eq!(
        WeightRange::from_str("1.9999999403953552246093749"),
        WeightRange::Under2Lbs
    );
    assert_eq!(
        WeightRange::from_str("1.999999940395355224609375"),
        WeightRange::Between2And5Lbs
    );
    assert_eq!(WeightRange::from_str("4.9999997"), WeightRange::Between2And5Lbs);
    assert_eq!(WeightRange::from_str("4.9999998"), WeightRange::Over5Lbs);
    assert_eq!(
        WeightRange::from_str("4.99999976158142089843749"),
        WeightRange::Between2And5Lbs
    );
    assert_eq!(WeightRange::from_str("4.9999997615814208984375"), WeightRange::Over5Lbs);
}

#[test]
fn limits_are_the_halfway_points() {
    assert_eq!(LIGHT_LIMIT * (1u128 << 24), ((1u128 << 25) - 1) * 10u128.pow(24));
    assert_eq!(MEDIUM_LIMIT * (1u128 << 22), (5 * (1u128 << 22) - 1) * 10u128.pow(24));
}

#[test]
fn weight_class_agrees_with_single_precision() {
    for text in samples() {
        assert_eq!(WeightRange::from_str(&text), by_single_precision(&text), "{:?}", text);
    }
}

#[test]
fn numerals_are_what_the_standard_parser_takes() {
    for text in samples() {
        assert_eq!(is_number(&text), text.parse::<f32>().is_ok(), "{:?}", text);
        assert_eq!(Number::parse(&text).is_some(), text.parse::<f64>().is_ok(), "{:?}", text);
    }
}

#[test]
fn numerals_as_they_were_read() {
    match Number::parse("-12.50e-3") {
        Some(Number::Decimal { negative, digits, fraction_len, power_negative, power }) => {
            assert!(negative);
            assert_eq!(digits, vec!['1', '2', '5', '0']);
            assert_eq!(fraction_len, 2);
            assert!(power_negative);
            assert_eq!(power, vec!['3']);
        }
        _ => panic!("a decimal"),
    }
    match Number::parse("7") {
        Some(Number::Decimal { negative, digits, fraction_len, power_negative, power }) => {
            assert!(!negative);
            assert_eq!(digits, vec!['7']);
            assert_eq!(fraction_len, 0);
            assert!(!power_negative);
            assert!(power.is_empty());
        }
        _ => panic!("a decimal"),
    }
    assert!(matches!(Number::parse("-Infinity"), Some(Number::Infinite { negative: true })));
    assert!(matches!(Number::parse("+inf"), Some(Number::Infinite { negative: false })));
    assert!(matches!(Number::parse("nAn"), Some(Number::NotANumber)));
    assert!(Number::parse("1e").is_none());
}

#[test]
fn classes_of_numbers() {
    let number = Number::parse("3.5").unwrap();
    assert_eq!(WeightRange::of_number(&number), WeightRange::Between2And5Lbs);
    let number = Number::parse("-nan").unwrap();
    assert_eq!(WeightRange::of_number(&number), WeightRange::Over5Lbs);
}

#[test]
fn weight_names() {
    assert_eq!(WeightRange::Under2Lbs.name(), "Orders under 2 Pounds");
    assert_eq!(WeightRange::Between2And5Lbs.name(), "Orders between 2 and 5 pounds");
    assert_eq!(WeightRange::Over5Lbs.name(), "Orders over 5 Pounds");
    assert_eq!(WeightRange::Unknown.name(), "Orders where weight is not known");
}

#[test]
fn long_numerals_near_the_limits() {
    let zeros = "0".repeat(900);
    let nines = "9".repeat(900);
    let texts = [
        format!("1.999999940395355224609375{}", zeros),
        format!("1.999999940395355224609375{}1", zeros),
        format!("1.9999999403953552246093749{}", nines),
        format!("4.9999997615814208984375{}", zeros),
        format!("4.9999997615814208984375{}1", zeros),
        format!("4.99999976158142089843749{}", nines),
        format!("{}1.5", zeros),
        format!("{}2{}e-900", zeros, zeros),
        format!("0.{}2e901", zeros),
        format!("0.{}19e901", zeros),
        format!("5{}e-900", zeros),
        format!("4{}e-900", nines),
        format!("1{}", zeros),
        format!("0.{}1", zeros),
        format!("-0.{}1", zeros),
        format!("1e{}5", zeros),
        format!("50e-{}1", zeros),
    ];
    for text in &texts {
        assert_eq!(WeightRange::from_str(text), by_single_precision(text), "{:?}", text);
        assert!(is_number(text));
    }
    assert_eq!(WeightRange::from_str(&texts[0]), WeightRange::Between2And5Lbs);
    assert_eq!(WeightRange::from_str(&texts[2]), WeightRange::Under2Lbs);
    assert_eq!(WeightRange::from_str(&texts[3]), WeightRange::Over5Lbs);
    assert_eq!(WeightRange::from_str(&texts[5]), WeightRange::Between2And5Lbs);
}

#[test]
fn every_short_numeral_is_classed_as_single_precision_classes_it() {
    let marks = ['0', '1', '2', '5', '9', '.', 'e', '-', '+', 'n', 'a'];
    let mut text = String::new();
    let mut count = 0;
    for a in marks {
        for b in marks {
            for c in marks {
                for d in marks {
                    text.clear();
                    text.push(a);
                    text.push(b);
                    text.push(c);
                    text.push(d);
                    for len in 1..=4 {
                        let part = &text[..len];
                        assert_eq!(
                            WeightRange::from_str(part),
                            by_single_precision(part),
                            "{:?}",
                            part
                        );
                        count += 1;
                    }
                }
            }
        }
    }
    assert_eq!(count, 4 * 11 * 11 * 11 * 11);
}
