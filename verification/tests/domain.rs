use email_service::domain::{NewSubscriber, SubscriberEmail, SubscriberName};
use email_service::routes::subscriptions::SubscribeData;

#[test]
fn empty_string_is_rejected() {
    let email = "".to_string();
    assert!(SubscriberEmail::parse(email).is_err());
}

#[test]
fn email_missing_at_symbol_is_rejected() {
    let email = "ursuladomain.com".to_string();
    assert!(SubscriberEmail::parse(email).is_err());
}

#[test]
fn email_missing_subject_is_rejected() {
    let email = "@domain.com".to_string();
    assert!(SubscriberEmail::parse(email).is_err());
}

#[test]
fn valid_email_is_accepted_and_kept() {
    let parsed = SubscriberEmail::parse("ursula_le_guin@gmail.com".to_string())
        .expect("a plain address must parse");
    assert_eq!(parsed.inner_ref(), "ursula_le_guin@gmail.com");
    assert_eq!(parsed.into_inner(), "ursula_le_guin@gmail.com".to_string());
}

#[test]
fn rejected_email_reports_the_value() {
    let err = SubscriberEmail::parse("definitely-not-an-email".to_string()).unwrap_err();
    assert_eq!(err, "definitely-not-an-email is not a valid subscriber email");
}

#[test]
fn name_of_ordinary_text_is_accepted() {
    let parsed = SubscriberName::parse("le guin".to_string()).expect("plain name must parse");
    assert_eq!(parsed.inner_ref(), "le guin");
    assert_eq!(parsed.into_inner(), "le guin".to_string());
}

#[test]
fn whitespace_only_name_is_rejected() {
    assert!(SubscriberName::parse(" \t\r\n ".to_string()).is_err());
    assert!(SubscriberName::parse("".to_string()).is_err());
}

#[test]
fn name_with_forbidden_character_is_rejected() {
    for forbidden in ["/", "(", ")", "\"", "<", ">", "\\", "{", "}"] {
        let candidate = format!("Ursula {} Le Guin", forbidden);
        assert!(SubscriberName::parse(candidate).is_err());
    }
}

#[test]
fn name_length_bound_is_exact() {
    let longest = "a".repeat(256);
    assert!(SubscriberName::parse(longest).is_ok());
    let too_long = "a".repeat(257);
    assert!(SubscriberName::parse(too_long).is_err());
}

#[test]
fn subscription_form_needs_both_fields_valid() {
    let ok = NewSubscriber::try_from(SubscribeData {
        name: "le guin".to_string(),
        email: "ursula_le_guin@gmail.com".to_string(),
    })
    .expect("a valid form must convert");
    assert_eq!(ok.name.inner_ref(), "le guin");
    assert_eq!(ok.email.inner_ref(), "ursula_le_guin@gmail.com");

    assert!(NewSubscriber::try_from(SubscribeData {
        name: "".to_string(),
        email: "ursula_le_guin@gmail.com".to_string(),
    })
    .is_err());

    assert!(NewSubscriber::try_from(SubscribeData {
        name: "le guin".to_string(),
        email: "not-an-email".to_string(),
    })
    .is_err());
}
