use zero2prod::domain::NewSubscriber;
use zero2prod::newsletters::confirmed_audience;
use zero2prod::subscriptions::{
    confirmation_email, confirmation_link, generate_subscription_token, ConfirmError, FormData,
    next_after_attempt, Parameters, SubscribeError, SubscribeNext, SubscriptionStatus,
    SubscriptionStore, MAX_SUBSCRIBE_ATTEMPTS,
};

fn le_guin() -> NewSubscriber {
    NewSubscriber::try_from(FormData {
        name: "le guin".to_string(),
        email: "ursula_le_guin@gmail.com".to_string(),
    })
    .unwrap()
}

fn params(token: &str) -> Parameters {
    Parameters { subscription_token: token.to_string() }
}

#[test]
fn subscribe_persists_the_new_subscriber() {
    let mut store = SubscriptionStore::new();
    let pending = store.begin_subscription(&le_guin(), 1, "tok".to_string(), 100);
    assert!(pending.creates_subscriber());
    assert_eq!(store.finish_subscription(pending, true), Ok(()));
    assert_eq!(store.len(), 1);
    let row = store.row(0);
    assert_eq!(row.email, "ursula_le_guin@gmail.com");
    assert_eq!(row.name, "le guin");
    assert_eq!(row.status.as_str(), "pending_confirmation");
    assert_eq!(row.token, "tok");
    assert_eq!(row.subscribed_at, 100);
}

#[test]
fn subscribing_multiple_times_sends_the_same_confirmation_link_each_time() {
    let mut store = SubscriptionStore::new();
    let mut links = Vec::new();
    for i in 0..10u128 {
        let pending = store.begin_subscription(&le_guin(), i, format!("token{}", i), 0);
        links.push(confirmation_link("http://127.0.0.1", pending.token()));
        assert_eq!(store.finish_subscription(pending, true), Ok(()));
    }
    assert_eq!(store.len(), 1);
    for link in &links {
        assert_eq!(link, "http://127.0.0.1/subscriptions/confirm?subscription_token=token0");
    }
}

#[test]
fn a_failed_dispatch_leaves_no_subscriber() {
    let mut store = SubscriptionStore::new();
    let pending = store.begin_subscription(&le_guin(), 1, "tok".to_string(), 0);
    assert_eq!(store.finish_subscription(pending, false), Err(SubscribeError::TransportFailure));
    assert_eq!(store.len(), 0);
    assert!(store.get_token_from_email(&"ursula_le_guin@gmail.com".to_string()).is_none());
}

#[test]
fn the_loser_of_a_race_on_a_new_email_must_look_again() {
    let mut store = SubscriptionStore::new();
    let first = store.begin_subscription(&le_guin(), 1, "first".to_string(), 0);
    let second = store.begin_subscription(&le_guin(), 2, "second".to_string(), 0);
    assert_eq!(store.commit(first), Ok(()));
    assert_eq!(store.commit(second), Err(SubscribeError::EmailTaken));
    let retry = store.begin_subscription(&le_guin(), 3, "third".to_string(), 0);
    assert_eq!(retry.token(), "first");
    assert!(!retry.creates_subscriber());
    assert_eq!(store.len(), 1);
}

#[test]
fn reused_ids_and_tokens_are_rejected() {
    let mut store = SubscriptionStore::new();
    let a = store.begin_subscription(&le_guin(), 1, "tok".to_string(), 0);
    store.commit(a).unwrap();
    let other = NewSubscriber::try_from(FormData {
        name: "Tilly".to_string(),
        email: "tilly@testing.com".to_string(),
    })
    .unwrap();
    let same_id = store.begin_subscription(&other, 1, "fresh".to_string(), 0);
    assert_eq!(store.commit(same_id), Err(SubscribeError::IdTaken));
    let same_token = store.begin_subscription(&other, 2, "tok".to_string(), 0);
    assert_eq!(store.commit(same_token), Err(SubscribeError::TokenTaken));
    assert_eq!(store.len(), 1);
}

#[test]
fn confirming_an_unknown_token_is_a_client_error() {
    let mut store = SubscriptionStore::new();
    let pending = store.begin_subscription(&le_guin(), 1, "tok".to_string(), 0);
    store.finish_subscription(pending, true).unwrap();
    let err = store.confirm(&params("nope")).unwrap_err();
    assert_eq!(err, ConfirmError::UnknownToken);
    assert_eq!(err.status_code(), 401);
    assert_eq!(err.message(), "There is no subscriber associated with the provided token.");
    assert_eq!(store.row(0).status, SubscriptionStatus::PendingConfirmation);
}

#[test]
fn unexpected_confirm_errors_are_server_errors() {
    let err = ConfirmError::UnexpectedError("store down".to_string());
    assert_eq!(err.status_code(), 500);
    assert_eq!(err.message(), "store down");
}

#[test]
fn subscribe_confirm_and_publish_scenario() {
    let mut store = SubscriptionStore::new();
    let pending = store.start_subscription(&le_guin());
    let email = confirmation_email("http://localhost:8000", pending.token());
    let link = confirmation_link("http://localhost:8000", pending.token());
    assert!(email.plain_body.contains(&link));
    assert!(email.html_body.contains(&link));
    let token = pending.token().to_string();
    assert_eq!(store.finish_subscription(pending, true), Ok(()));
    assert_eq!(store.len(), 1);
    assert_eq!(store.row(0).status, SubscriptionStatus::PendingConfirmation);

    // While pending, an issue reaches nobody.
    assert_eq!(confirmed_audience(&store).recipients.len(), 0);

    assert_eq!(store.confirm(&params(&token)), Ok(()));
    assert_eq!(store.row(0).status, SubscriptionStatus::Confirmed);
    assert_eq!(store.confirm(&params(&token)), Ok(()));
    assert_eq!(store.row(0).status, SubscriptionStatus::Confirmed);
    assert_eq!(store.len(), 1);

    let audience = confirmed_audience(&store);
    assert_eq!(audience.recipients.len(), 1);
    assert_eq!(audience.recipients[0].as_str(), "ursula_le_guin@gmail.com");
}

#[test]
fn subscriber_ids_come_from_the_token_table() {
    let mut store = SubscriptionStore::new();
    let pending = store.begin_subscription(&le_guin(), 77, "tok".to_string(), 0);
    store.commit(pending).unwrap();
    assert_eq!(store.get_subscriber_id_from_token(&"tok".to_string()), Some(77));
    assert_eq!(store.get_subscriber_id_from_token(&"other".to_string()), None);
    store.confirm_subscriber(77);
    assert_eq!(store.row(0).status.as_str(), "confirmed");
}

#[test]
fn tokens_are_twenty_five_alphanumeric_characters() {
    let a = generate_subscription_token();
    let b = generate_subscription_token();
    assert_eq!(a.chars().count(), 25);
    assert!(a.chars().all(|c| c.is_ascii_alphanumeric()));
    assert_ne!(a, b);
}

#[test]
fn started_subscriptions_draw_a_fresh_token() {
    let store = SubscriptionStore::new();
    let pending = store.start_subscription(&le_guin());
    assert!(pending.creates_subscriber());
    assert_eq!(pending.token().chars().count(), 25);
}

#[test]
fn subscribe_sends_a_confirmation_email_with_a_link() {
    let email = confirmation_email("http://127.0.0.1:8000", "abc");
    assert_eq!(email.subject, "Welcome!");
    assert_eq!(
        email.plain_body,
        "Welcome to our newsletter!\n visit http://127.0.0.1:8000/subscriptions/confirm?subscription_token=abc to confirm your subscription"
    );
    assert_eq!(
        email.html_body,
        "Welcome to our newsletter!<br /><a href=\"http://127.0.0.1:8000/subscriptions/confirm?subscription_token=abc\">Confirm your subscription.</a>"
    );
}

#[test]
fn a_refused_email_fails_the_request_at_once() {
    let outcome = Err(SubscribeError::TransportFailure);
    assert_eq!(next_after_attempt(&outcome, 1), SubscribeNext::Failed);
    assert_eq!(next_after_attempt(&Ok(()), 1), SubscribeNext::Succeeded);
}

#[test]
fn a_lost_race_is_retried_while_attempts_are_left() {
    for e in [SubscribeError::EmailTaken, SubscribeError::IdTaken, SubscribeError::TokenTaken] {
        let outcome = Err(e);
        assert_eq!(next_after_attempt(&outcome, 1), SubscribeNext::Retry);
        assert_eq!(next_after_attempt(&outcome, MAX_SUBSCRIBE_ATTEMPTS - 1), SubscribeNext::Retry);
        assert_eq!(next_after_attempt(&outcome, MAX_SUBSCRIBE_ATTEMPTS), SubscribeNext::Failed);
    }
}

#[test]
fn confirming_twice_leaves_the_row_as_the_first_confirm_left_it() {
    let mut store = SubscriptionStore::new();
    let pending = store.begin_subscription(&le_guin(), 1, "tok".to_string(), 5);
    store.commit(pending).unwrap();
    store.confirm(&params("tok")).unwrap();
    let once = store.row(0);
    store.confirm(&params("tok")).unwrap();
    let twice = store.row(0);
    assert_eq!(store.len(), 1);
    assert_eq!((once.id, once.email, once.name, once.subscribed_at, once.status, once.token),
        (twice.id, twice.email, twice.name, twice.subscribed_at, twice.status, twice.token));
}
