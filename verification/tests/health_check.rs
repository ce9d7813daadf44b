use zero2prod::routes::{health_check, subscribe, SubscribeStep};

#[test]
fn health_check_works() {
    let reply = health_check();
    assert_eq!(reply.status, 200);
    assert_eq!(reply.body.len(), 0);
}

#[test]
fn health_check_subscribe_returns_a_200_for_valid_form_data() {
    let body = b"name=jamie&email=hello%40madebyjamie.com";
    match subscribe(body) {
        SubscribeStep::Persist(ns) => {
            assert_eq!(ns.email.as_str(), "hello@madebyjamie.com");
            assert_eq!(ns.name.as_str(), "jamie");
        },
        SubscribeStep::Reject(_) => panic!("valid form data was rejected"),
    }
}

#[test]
fn health_check_subscribe_returns_a_400_when_data_is_missing() {
    let cases: Vec<(&[u8], &str)> = vec![
        (b"name=jamie", "missing email"),
        (b"email=hello%40madebyjamie.com", "missing name"),
        (b"", "missing name and email"),
    ];
    for (body, description) in cases {
        let status = match subscribe(body) {
            SubscribeStep::Reject(reply) => reply.status,
            SubscribeStep::Persist(_) => 200,
        };
        assert_eq!(
            status,
            400,
            "The API did not fail with a 400 Bad Request when the payload was {}.",
            description
        );
    }
}
