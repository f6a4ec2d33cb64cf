use sgp_core::cpf::is_valid_cpf;
use sgp_core::email::is_valid_email;

#[test]
fn cpf_repeated_digits_rejected() {
    assert!(!is_valid_cpf("11111111111"));
    assert!(!is_valid_cpf("00000000000"));
    assert!(!is_valid_cpf("99999999999"));
}

#[test]
fn cpf_known_valid_accepted() {
    assert!(is_valid_cpf("52998224725"));
}

#[test]
fn cpf_formatted_accepted() {
    assert!(is_valid_cpf("529.982.247-25"));
}

#[test]
fn cpf_altered_digit_rejected() {
    assert!(!is_valid_cpf("52998224724"));
    assert!(!is_valid_cpf("52998224735"));
    assert!(!is_valid_cpf("62998224725"));
}

#[test]
fn cpf_wrong_length_rejected() {
    assert!(!is_valid_cpf("5299822472"));
    assert!(!is_valid_cpf("529982247255"));
    assert!(!is_valid_cpf(""));
}

#[test]
fn email_ordinary_shapes_accepted() {
    assert!(is_valid_email("a@b.c"));
    assert!(is_valid_email("user@example.com"));
    assert!(is_valid_email("first.last@sub.domain.org"));
}

#[test]
fn email_missing_parts_rejected() {
    assert!(!is_valid_email(""));
    assert!(!is_valid_email("a@bc"));
    assert!(!is_valid_email("@b.c"));
    assert!(!is_valid_email("a@b."));
    assert!(!is_valid_email("a@.c"));
    assert!(!is_valid_email("abc"));
}

#[test]
fn email_whitespace_rejected() {
    assert!(!is_valid_email("a b@c.d"));
    assert!(!is_valid_email("a@c.d "));
    assert!(!is_valid_email("a@c.\u{A0}d"));
}

#[test]
fn email_two_ats_rejected() {
    assert!(!is_valid_email("a@@b.c"));
    assert!(!is_valid_email("a@b@c.d"));
}

#[test]
fn email_dotted_domain_variants() {
    // The dot only needs one character on each side within the part after
    // the at sign.
    assert!(is_valid_email("x@.y.z"));
    assert!(is_valid_email("a@x..y"));
    assert!(is_valid_email("a@x.."));
    assert!(!is_valid_email("a@x"));
}
