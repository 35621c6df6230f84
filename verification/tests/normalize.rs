use price_scraper::price::normalize;
use price_scraper::price::Price;
use price_scraper::render::decimal_string;
use price_scraper::render::format_price;
use price_scraper::render::u64_string;

fn price(negative: bool, mantissa: u64, scale: usize) -> Price {
    Price { negative, mantissa, scale }
}

fn to_f64(p: &Price) -> f64 {
    let v = p.mantissa as f64 / 10f64.powi(p.scale as i32);
    if p.negative {
        -v
    } else {
        v
    }
}

#[test]
fn normalize_kr_price() {
    let p = normalize("kr. 199,-").unwrap();
    assert_eq!(p, price(false, 199, 0));
    assert_eq!(to_f64(&p), 199.0);
}

#[test]
fn normalize_thousands_and_decimal() {
    let p = normalize("1.234,56").unwrap();
    assert_eq!(p, price(false, 123456, 2));
    assert_eq!(to_f64(&p), 1234.56);
}

#[test]
fn normalize_rejects_letters() {
    assert!(normalize("abc").is_err());
}

#[test]
fn normalize_zero_parses_but_is_not_positive() {
    let p = normalize("0,00").unwrap();
    assert_eq!(to_f64(&p), 0.0);
    assert!(!p.is_positive());
}

#[test]
fn normalize_signs() {
    assert_eq!(normalize("-5").unwrap(), price(true, 5, 0));
    assert_eq!(normalize("+5").unwrap(), price(false, 5, 0));
    assert!(normalize("-").is_err());
    assert!(normalize("+").is_err());
}

#[test]
fn normalize_bare_and_edge_shapes() {
    assert_eq!(normalize("5,").unwrap(), price(false, 5, 0));
    assert_eq!(normalize(",5").unwrap(), price(false, 5, 1));
    assert!(normalize("").is_err());
    assert!(normalize(",").is_err());
    assert!(normalize("1,2,3").is_err());
}

#[test]
fn normalize_removes_dots_as_thousands_separators() {
    assert_eq!(normalize("1.2.3").unwrap(), price(false, 123, 0));
    assert_eq!(normalize("1.234.567").unwrap(), price(false, 1234567, 0));
}

#[test]
fn normalize_strips_whitespace() {
    assert_eq!(normalize(" 1 2 3 ").unwrap(), price(false, 123, 0));
    assert_eq!(normalize("\u{a0}7,5\t").unwrap(), price(false, 75, 1));
}

#[test]
fn normalize_kr_needs_the_dot() {
    // Only the literal "kr." is removed; a bare "kr" leaves letters behind.
    assert!(normalize("kr 5").is_err());
    assert_eq!(normalize("kr.5").unwrap(), price(false, 5, 0));
}

#[test]
fn normalize_comma_dash_removed_before_comma_rewrite() {
    assert_eq!(normalize("12,-").unwrap(), price(false, 12, 0));
}

#[test]
fn normalize_mantissa_limit() {
    assert_eq!(
        normalize("999999999999999999").unwrap(),
        price(false, 999_999_999_999_999_999, 0)
    );
    assert!(normalize("1000000000000000000").is_err());
    assert!(normalize("10000000000000000000").is_err());
}

#[test]
fn format_price_renders_comma_form() {
    assert_eq!(format_price(&price(false, 199, 0)), "199");
    assert_eq!(format_price(&price(false, 123456, 2)), "1234,56");
    assert_eq!(format_price(&price(true, 5, 3)), "-0,005");
    assert_eq!(format_price(&price(false, 0, 2)), "0,00");
}

#[test]
fn decimal_string_renders_dot_form() {
    assert_eq!(decimal_string(&price(false, 123456, 2)), "1234.56");
    assert_eq!(decimal_string(&price(false, 199, 0)), "199");
}

#[test]
fn u64_string_renders_decimal() {
    assert_eq!(u64_string(0), "0");
    assert_eq!(u64_string(42), "42");
    assert_eq!(u64_string(1234567890), "1234567890");
}

#[test]
fn renormalizing_the_rendered_price_is_idempotent() {
    for raw in ["kr. 199,-", "1.234,56", "0,00", "-5", ",5", "12.345"] {
        let p = normalize(raw).unwrap();
        let again = normalize(format_price(&p).as_str()).unwrap();
        assert_eq!(p, again);
        assert_eq!(to_f64(&p), to_f64(&again));
    }
}
