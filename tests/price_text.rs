use sol_price::price::{format_price, parse_price, Price};

fn shown(text: &str) -> String {
    format_price(&parse_price(text).unwrap())
}

#[test]
fn test_price_display_format() {
    let price = parse_price("123.456789").unwrap();
    let formatted = format_price(&price);
    assert_eq!(formatted, "$123.46");
}

#[test]
fn parses_plain_decimals() {
    assert_eq!(parse_price("142.37"), Some(Price { units: 14237, scale: 2 }));
    assert_eq!(parse_price("142.37000000"), Some(Price { units: 14237000000, scale: 8 }));
    assert_eq!(parse_price("142"), Some(Price { units: 142, scale: 0 }));
    assert_eq!(parse_price("0"), Some(Price { units: 0, scale: 0 }));
    assert_eq!(parse_price("0.05"), Some(Price { units: 5, scale: 2 }));
}

#[test]
fn rejects_text_that_is_no_decimal() {
    for bad in ["abc", "", ".5", "5.", "1.2.3", "-1", "+1", "1e5", " 1", "1 ", "NaN", "."] {
        assert_eq!(parse_price(bad), None, "{}", bad);
    }
}

#[test]
fn digit_limit_is_thirty_six() {
    let most = "9".repeat(36);
    assert_eq!(parse_price(&most), Some(Price { units: 10u128.pow(36) - 1, scale: 0 }));
    let with_point = format!("{}.{}", "1".repeat(20), "2".repeat(16));
    assert!(parse_price(&with_point).is_some());
    assert_eq!(parse_price(&"9".repeat(37)), None);
    assert_eq!(parse_price(&format!("{}.{}", "1".repeat(20), "2".repeat(17))), None);
}

#[test]
fn formats_with_two_decimals() {
    assert_eq!(shown("0"), "$0.00");
    assert_eq!(shown("142"), "$142.00");
    assert_eq!(shown("1.5"), "$1.50");
    assert_eq!(shown("142.37"), "$142.37");
    assert_eq!(shown("1234567.891"), "$1234567.89");
    assert_eq!(shown("9.999"), "$10.00");
}

#[test]
fn a_half_cent_rounds_up() {
    assert_eq!(shown("0.005"), "$0.01");
    assert_eq!(shown("0.004999"), "$0.00");
    assert_eq!(shown("2.675"), "$2.68");
}

#[test]
fn formats_the_largest_price() {
    let most = "9".repeat(36);
    assert_eq!(format_price(&parse_price(&most).unwrap()), format!("${}.00", most));
}

#[test]
fn validity_bounds_digits_and_scale() {
    assert!(Price { units: 10u128.pow(36) - 1, scale: 35 }.is_valid());
    assert!(!Price { units: 10u128.pow(36), scale: 0 }.is_valid());
    assert!(!Price { units: 1, scale: 36 }.is_valid());
}
