use zero2prod::domain::{accepts_name, NewSubscriber, SubscriberEmail, SubscriberName};
use zero2prod::subscriptions::FormData;

#[test]
fn empty_string_is_invalid() {
    let email = "".to_string();
    assert!(SubscriberEmail::parse(email).is_err());
}

#[test]
fn empty_missing_at_symbol_is_invalid() {
    let email = "tillytesting.com".to_string();
    assert!(SubscriberEmail::parse(email).is_err());
}

#[test]
fn empty_missing_subject_is_invalid() {
    let email = "@testing.com".to_string();
    assert!(SubscriberEmail::parse(email).is_err());
}

#[test]
fn a_valid_email_is_parsed_successfully() {
    let parsed = SubscriberEmail::parse("ursula_le_guin@gmail.com".to_string()).unwrap();
    assert_eq!(parsed.as_str(), "ursula_le_guin@gmail.com");
}

#[test]
fn an_invalid_email_error_repeats_the_input() {
    let err = SubscriberEmail::parse("definitely-not-an-email".to_string()).unwrap_err();
    assert_eq!(err, "definitely-not-an-email is not a valid subscriber email");
}

#[test]
fn a_256_grapheme_long_name_is_valid() {
    let name = "a".repeat(256);
    assert!(SubscriberName::parse(name).is_ok());
}

#[test]
fn a_name_longer_than_256_graphemes_is_invalid() {
    let name = "a".repeat(257);
    assert!(SubscriberName::parse(name).is_err());
}

#[test]
fn graphemes_not_bytes_bound_the_name_length() {
    // "e" followed by a combining acute accent is one grapheme of two chars.
    let name = "e\u{301}".repeat(256);
    assert!(SubscriberName::parse(name).is_ok());
    let name = "e\u{301}".repeat(257);
    assert!(SubscriberName::parse(name).is_err());
}

#[test]
fn whitespace_only_names_are_invalid() {
    let name = " ".to_string();
    assert!(SubscriberName::parse(name).is_err());
}

#[test]
fn unicode_whitespace_only_names_are_invalid() {
    let name = "\t\u{3000}\u{a0}\n".to_string();
    assert!(SubscriberName::parse(name).is_err());
}

#[test]
fn empty_name_is_invalid() {
    let name = "".to_string();
    assert!(SubscriberName::parse(name).is_err());
}

#[test]
fn names_containing_an_invalid_character_are_invalid() {
    for name in ['/', '(', ')', '"', '<', '>', '\\', '{', '}'] {
        let name = name.to_string();
        assert!(SubscriberName::parse(name).is_err());
    }
}

#[test]
fn a_valid_name_is_parsed_successfully() {
    let name = "Tilly Testington".to_string();
    assert!(SubscriberName::parse(name).is_ok());
}

#[test]
fn an_invalid_name_error_repeats_the_input() {
    let err = SubscriberName::parse("a<b".to_string()).unwrap_err();
    assert_eq!(err, "a<b is not a valid subscriber name.");
}

#[test]
fn subscribe_returns_a_400_when_fields_are_present_but_empty() {
    let cases = [
        ("", "ursula_le_guin@gmail.com"),
        ("Ursula", ""),
        ("Ursula", "definitely-not-an-email"),
    ];
    for (name, email) in cases {
        let form = FormData { name: name.to_string(), email: email.to_string() };
        assert!(NewSubscriber::try_from(form).is_err());
    }
}

#[test]
fn a_valid_form_gives_a_new_subscriber() {
    let form = FormData {
        name: "le guin".to_string(),
        email: "ursula_le_guin@gmail.com".to_string(),
    };
    let new = NewSubscriber::try_from(form).unwrap();
    assert_eq!(new.email.as_str(), "ursula_le_guin@gmail.com");
    assert_eq!(new.name.as_str(), "le guin");
}

#[test]
fn the_name_rules_take_the_grapheme_count() {
    assert!(accepts_name("Tilly", 256));
    assert!(!accepts_name("Tilly", 257));
    assert!(!accepts_name("  ", 2));
    assert!(!accepts_name("a{b", 3));
    assert!(accepts_name("le guin", 7));
}
