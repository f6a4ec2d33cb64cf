use sgp_core::formatting::format_brazilian_decimal;
use sgp_core::formatting::format_brazilian_money;
use sgp_core::formatting::format_number_with_dots;

#[test]
fn format_decimal_with_grouping() {
    // 1234.50 as 123450 hundredths.
    assert_eq!(format_brazilian_decimal(123450), "1.234,50");
}

#[test]
fn format_decimal_negative() {
    // -7.10 as -710 hundredths.
    assert_eq!(format_brazilian_decimal(-710), "-7,10");
}

#[test]
fn format_decimal_zero() {
    assert_eq!(format_brazilian_decimal(0), "0,00");
}

#[test]
fn format_decimal_below_one() {
    assert_eq!(format_brazilian_decimal(5), "0,05");
}

#[test]
fn format_decimal_million() {
    assert_eq!(format_brazilian_decimal(100000000), "1.000.000,00");
}

#[test]
fn format_decimal_small_negative() {
    // -0.50 keeps the sign although the integer part is zero.
    assert_eq!(format_brazilian_decimal(-50), "-0,50");
}

#[test]
fn format_money_same_rendering() {
    assert_eq!(format_brazilian_money(123456), "1.234,56");
    assert_eq!(format_brazilian_money(199), "1,99");
}

#[test]
fn format_number_grouping() {
    assert_eq!(format_number_with_dots(1234567), "1.234.567");
    assert_eq!(format_number_with_dots(1000), "1.000");
    assert_eq!(format_number_with_dots(999), "999");
    assert_eq!(format_number_with_dots(0), "0");
}

#[test]
fn format_number_negative_outside_grouping() {
    assert_eq!(format_number_with_dots(-1000), "-1.000");
    assert_eq!(format_number_with_dots(-1), "-1");
}

#[test]
fn format_extremes() {
    assert_eq!(format_number_with_dots(i64::MIN), "-9.223.372.036.854.775.808");
    assert_eq!(format_brazilian_decimal(i64::MIN), "-92.233.720.368.547.758,08");
}
