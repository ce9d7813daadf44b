use zero2prod::form::{parse_form, FormError};
use zero2prod::routes::{persistence_reply, subscribe, PersistOutcome, SubscribeStep};

fn status_of(body: &[u8]) -> u16 {
    match subscribe(body) {
        SubscribeStep::Reject(reply) => reply.status,
        SubscribeStep::Persist(_) => 200,
    }
}

#[test]
fn subscribe_returns_a_200_for_valid_form_data() {
    let body = b"name=jamie&email=hello%40madebyjamie.com";
    match subscribe(body) {
        SubscribeStep::Persist(ns) => {
            assert_eq!(ns.email.as_str(), "hello@madebyjamie.com");
            assert_eq!(ns.name.as_str(), "jamie");
            assert_eq!(persistence_reply(&PersistOutcome::Saved).status, 200);
        },
        SubscribeStep::Reject(_) => panic!("valid form data was rejected"),
    }
}

#[test]
fn subscribe_returns_a_400_when_fields_are_present_but_empty() {
    let cases: Vec<(&[u8], &str)> = vec![
        (b"name=&email=hello%40madebyjamie.com", "empty name"),
        (b"name=jamie&email=", "empty email"),
        (b"name=jamie&email=not-an-email", "invalid email"),
    ];
    for (body, description) in cases {
        assert_eq!(
            status_of(body),
            400,
            "The API did not return a 400 Bad Request when the payload was {}.",
            description
        );
    }
}

#[test]
fn subscribe_returns_a_400_when_data_is_missing() {
    let cases: Vec<(&[u8], &str)> = vec![
        (b"name=jamie", "missing email"),
        (b"email=hello%40madebyjamie.com", "missing name"),
        (b"", "missing name and email"),
    ];
    for (body, description) in cases {
        assert_eq!(
            status_of(body),
            400,
            "The API did not fail with a 400 Bad Request when the payload was {}.",
            description
        );
    }
}

#[test]
fn form_percent_and_plus_decoding() {
    let form = parse_form(b"name=ja%6Die+doe&email=hello%40madebyjamie.com").unwrap();
    assert_eq!(form.name, "jamie doe");
    assert_eq!(form.email, "hello@madebyjamie.com");
}

#[test]
fn form_decodes_multibyte_escapes() {
    let form = parse_form(b"name=Jos%C3%A9&email=jose%40madebyjamie.com").unwrap();
    assert_eq!(form.name, "Jos\u{e9}");
}

#[test]
fn form_ignores_unknown_keys() {
    let form = parse_form(b"name=jamie&email=a%40b.c&extra=1").unwrap();
    assert_eq!(form.name, "jamie");
    assert_eq!(form.email, "a@b.c");
}

#[test]
fn form_missing_fields_are_reported() {
    assert_eq!(parse_form(b"email=a%40b.c").unwrap_err(), FormError::MissingName);
    assert_eq!(parse_form(b"name=jamie").unwrap_err(), FormError::MissingEmail);
    assert_eq!(parse_form(b"").unwrap_err(), FormError::MissingName);
}

#[test]
fn form_duplicate_fields_are_rejected() {
    assert_eq!(
        parse_form(b"name=a&name=b&email=a%40b.c").unwrap_err(),
        FormError::DuplicateField
    );
    assert_eq!(
        parse_form(b"email=a%40b.c&email=a%40b.c&name=x").unwrap_err(),
        FormError::DuplicateField
    );
}

#[test]
fn form_bad_escapes_are_rejected() {
    assert_eq!(parse_form(b"name=%zz&email=a%40b.c").unwrap_err(), FormError::BadEncoding);
    assert_eq!(parse_form(b"name=abc%4&email=a%40b.c").unwrap_err(), FormError::BadEncoding);
    // 0xFF is never valid UTF-8.
    assert_eq!(parse_form(b"name=%FF&email=a%40b.c").unwrap_err(), FormError::BadEncoding);
}

#[test]
fn duplicate_email_race_loser_sees_a_conflict() {
    // The store's unique constraint lets exactly one of two concurrent
    // inserts through; the winner answers 200 and the loser 500.
    let winner = persistence_reply(&PersistOutcome::Saved);
    let loser = persistence_reply(&PersistOutcome::DuplicateEmail);
    assert_eq!(winner.status, 200);
    assert_eq!(loser.status, 500);
}

#[test]
fn storage_failure_is_a_500() {
    assert_eq!(persistence_reply(&PersistOutcome::StorageFailure).status, 500);
}
