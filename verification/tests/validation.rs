use sgp_core::validation::validate_dimensions;
use sgp_core::validation::validate_ilhos_config;
use sgp_core::validation::validate_money_value;

#[test]
fn dimensions_zero_width_is_invalid() {
    // 0 cm by 10 cm, in hundredths of a centimeter.
    let r = validate_dimensions(0, 1000);
    assert!(!r.valid);
    assert_eq!(r.errors, vec!["Largura deve ser maior que zero".to_string()]);
    assert!(r.warnings.is_empty());
}

#[test]
fn dimensions_large_side_warns_but_stays_valid() {
    // 600 cm by 10 cm: valid, with a size warning.
    let r = validate_dimensions(60000, 1000);
    assert!(r.valid);
    assert!(r.errors.is_empty());
    assert_eq!(
        r.warnings,
        vec!["Dimensões muito grandes, verifique se está correto".to_string()]
    );
}

#[test]
fn dimensions_over_maximum_is_invalid() {
    // 1000.01 cm exceeds the 1000 cm ceiling and also draws the warning.
    let r = validate_dimensions(100001, 1000);
    assert!(!r.valid);
    assert_eq!(
        r.errors,
        vec!["Largura muito grande (máximo 1000 cm)".to_string()]
    );
    assert_eq!(
        r.warnings,
        vec!["Dimensões muito grandes, verifique se está correto".to_string()]
    );
}

#[test]
fn dimensions_both_sides_checked() {
    let r = validate_dimensions(-100, 0);
    assert!(!r.valid);
    assert_eq!(
        r.errors,
        vec![
            "Largura deve ser maior que zero".to_string(),
            "Altura deve ser maior que zero".to_string(),
        ]
    );
}

#[test]
fn dimensions_height_over_maximum_is_invalid() {
    let r = validate_dimensions(1000, 100001);
    assert!(!r.valid);
    assert_eq!(
        r.errors,
        vec!["Altura muito grande (máximo 1000 cm)".to_string()]
    );
}

#[test]
fn dimensions_in_range_are_valid() {
    let r = validate_dimensions(10000, 5000);
    assert!(r.valid);
    assert!(r.errors.is_empty());
    assert!(r.warnings.is_empty());
}

#[test]
fn money_zero_is_invalid() {
    let r = validate_money_value(0);
    assert!(!r.valid);
    assert_eq!(r.errors, vec!["Valor deve ser maior que zero".to_string()]);
}

#[test]
fn money_over_maximum_is_invalid() {
    // 1000000.00 exceeds the 999999.99 ceiling; it also draws the
    // high-value warning.
    let r = validate_money_value(100000000);
    assert!(!r.valid);
    assert_eq!(
        r.errors,
        vec!["Valor muito alto (máximo R$ 999.999,99)".to_string()]
    );
    assert_eq!(
        r.warnings,
        vec!["Valor alto, confirme se está correto".to_string()]
    );
}

#[test]
fn money_high_value_warns_but_stays_valid() {
    let r = validate_money_value(1000001);
    assert!(r.valid);
    assert!(r.errors.is_empty());
    assert_eq!(
        r.warnings,
        vec!["Valor alto, confirme se está correto".to_string()]
    );
}

#[test]
fn money_ordinary_value_is_clean() {
    let r = validate_money_value(500);
    assert!(r.valid);
    assert!(r.errors.is_empty());
    assert!(r.warnings.is_empty());
}

#[test]
fn ilhos_zero_count_is_invalid() {
    let r = validate_ilhos_config(0, 100, 100);
    assert!(!r.valid);
    assert_eq!(
        r.errors,
        vec!["Quantidade de ilhós deve ser maior que zero".to_string()]
    );
}

#[test]
fn ilhos_over_hundred_is_invalid_and_warns() {
    let r = validate_ilhos_config(101, 100, 100);
    assert!(!r.valid);
    assert_eq!(r.errors, vec!["Quantidade máxima de ilhós é 100".to_string()]);
    assert_eq!(
        r.warnings,
        vec!["Muitos ilhós, confirme se está correto".to_string()]
    );
}

#[test]
fn ilhos_many_but_allowed_warns() {
    let r = validate_ilhos_config(51, 100, 100);
    assert!(r.valid);
    assert!(r.errors.is_empty());
    assert_eq!(
        r.warnings,
        vec!["Muitos ilhós, confirme se está correto".to_string()]
    );
}

#[test]
fn ilhos_free_fastener_is_invalid() {
    let r = validate_ilhos_config(10, 0, 100);
    assert!(!r.valid);
    assert_eq!(
        r.errors,
        vec!["Valor unitário deve ser maior que zero".to_string()]
    );
}

#[test]
fn ilhos_zero_spacing_is_invalid() {
    let r = validate_ilhos_config(10, 100, 0);
    assert!(!r.valid);
    assert_eq!(r.errors, vec!["Distância deve ser maior que zero".to_string()]);
}
