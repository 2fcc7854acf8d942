use zero2prod::password::{
    decide_password_change, validate_password, FormData, PasswordChangeError, PasswordError,
};

fn form(new: &str, check: &str) -> FormData {
    FormData {
        current_password: "current".to_string(),
        new_password: new.to_string(),
        new_password_check: check.to_string(),
    }
}

#[test]
fn current_password_must_be_correct_length() {
    let short = "a".repeat(11);
    let long = "a".repeat(128);
    assert_eq!(validate_password(&short), Err(PasswordError::TooShort));
    assert_eq!(validate_password(&long), Err(PasswordError::TooLong));
    assert_eq!(validate_password(&"a".repeat(12)), Ok(()));
    assert_eq!(validate_password(&"a".repeat(127)), Ok(()));
    for n in 128..200 {
        assert_eq!(validate_password(&"a".repeat(n)), Err(PasswordError::TooLong));
    }
    assert_eq!(
        PasswordError::TooShort.message(),
        "The new password must be at least 12 characters."
    );
    assert_eq!(
        PasswordError::TooLong.message(),
        "The new password must be shorter than 128 characters."
    );
}

#[test]
fn password_length_counts_characters_not_bytes() {
    assert_eq!(validate_password(&"é".repeat(12)), Ok(()));
    assert_eq!(validate_password(&"é".repeat(11)), Err(PasswordError::TooShort));
}

#[test]
fn new_password_fields_must_match() {
    let r = decide_password_change(&form("a-long-enough-one", "another-long-one"), true);
    assert_eq!(r, Err(PasswordChangeError::Mismatch));
}

#[test]
fn current_password_must_be_valid() {
    let r = decide_password_change(&form("a-long-enough-one", "a-long-enough-one"), false);
    assert_eq!(r, Err(PasswordChangeError::IncorrectCurrentPassword));
    assert_eq!(r.unwrap_err().message(), "The current password is incorrect.");
}

#[test]
fn changing_password_works() {
    let r = decide_password_change(&form("a-long-enough-one", "a-long-enough-one"), true);
    assert_eq!(r, Ok(()));
    let r = decide_password_change(&form("short", "short"), true);
    assert_eq!(r, Err(PasswordChangeError::Invalid(PasswordError::TooShort)));
}
