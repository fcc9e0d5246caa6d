use commerce_core::value_objects::{CC, Email, Phone, Url, ValueObject};

#[test]
fn email_accepts_at_sign() {
    let email = Email::new("ana@example.com".to_string()).unwrap();
    assert_eq!(email.value(), "ana@example.com");
    assert!(email.validate().is_ok());
}

#[test]
fn email_rejects_plain_text() {
    let err = Email::new("not-an-email".to_string()).unwrap_err();
    assert_eq!(err.code, 400);
    assert_eq!(err.message, "Invalid email format");
}

#[test]
fn phone_accepts_ten_digits() {
    let phone = Phone::new("0123456789".to_string()).unwrap();
    assert_eq!(phone.value(), "0123456789");
}

#[test]
fn phone_rejects_short_number() {
    let err = Phone::new("12345".to_string()).unwrap_err();
    assert_eq!(err.code, 400);
    assert_eq!(err.message, "Invalid phone number format");
}

#[test]
fn phone_rejects_letters() {
    let err = Phone::new("12345abcde".to_string()).unwrap_err();
    assert_eq!(err.code, 400);
}

#[test]
fn cc_accepts_five_characters() {
    let cc = CC::new("12345".to_string()).unwrap();
    assert_eq!(cc.value(), "12345");
}

#[test]
fn cc_rejects_four_characters() {
    let err = CC::new("1234".to_string()).unwrap_err();
    assert_eq!(err.code, 400);
    assert_eq!(err.message, "CC must be at least 5 characters long");
}

#[test]
fn url_accepts_both_schemes() {
    assert!(Url::new("http://example.com".to_string()).is_ok());
    assert!(Url::new("https://example.com/img.png".to_string()).is_ok());
}

#[test]
fn url_rejects_other_schemes() {
    let err = Url::new("ftp://example.com".to_string()).unwrap_err();
    assert_eq!(err.code, 400);
    assert_eq!(err.message, "Invalid URL format");
}
