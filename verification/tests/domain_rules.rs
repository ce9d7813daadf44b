use zero2prod::config::{
    coerce_u16, parse_decimal_u16, ApplicationSettings, ConfigError, DatabaseSettings,
    EmailClientSettings, RawNumber, SecretString, Settings, SslMode,
};
use zero2prod::domain::{parse_email, parse_name, ValidationError};
use zero2prod::email_client::{interpret_send_outcome, EmailClient, EmailError, SendOutcome};
use zero2prod::startup::{format_address, StartupError, StartupPlan};

#[test]
fn a_256_grapheme_long_name_is_valid() {
    let name = "a".repeat(256);
    assert!(parse_name(name).is_ok());
}

#[test]
fn a_name_longer_than_256_graphemes_is_rejected() {
    let name = "a".repeat(257);
    assert_eq!(parse_name(name).unwrap_err(), ValidationError::TooLong);
}

#[test]
fn grapheme_count_is_not_byte_count() {
    // 200 two-byte characters: 400 bytes but only 200 graphemes.
    let name = "\u{e9}".repeat(200);
    assert!(parse_name(name).is_ok());
}

#[test]
fn grapheme_count_is_not_char_count() {
    // A letter with a combining accent is two characters but one grapheme:
    // 256 of them are 512 characters yet still an acceptable name.
    let name = "e\u{301}".repeat(256);
    assert!(parse_name(name).is_ok());
    let name = "e\u{301}".repeat(257);
    assert_eq!(parse_name(name).unwrap_err(), ValidationError::TooLong);
}

#[test]
fn whitespace_only_names_are_rejected() {
    assert_eq!(parse_name(" ".to_string()).unwrap_err(), ValidationError::Empty);
    assert_eq!(parse_name("".to_string()).unwrap_err(), ValidationError::Empty);
    assert_eq!(parse_name(" \t\r\n ".to_string()).unwrap_err(), ValidationError::Empty);
}

#[test]
fn names_containing_a_forbidden_character_are_rejected() {
    for c in ['/', '(', ')', '"', '<', '>', '\\', '{', '}'] {
        let name = format!("jamie{}", c);
        assert_eq!(parse_name(name).unwrap_err(), ValidationError::ForbiddenCharacter);
    }
}

#[test]
fn a_valid_name_is_kept_untrimmed() {
    let parsed = parse_name(" Jamie Doe ".to_string()).unwrap();
    assert_eq!(parsed.as_str(), " Jamie Doe ");
}

#[test]
fn valid_emails_are_parsed() {
    let parsed = parse_email("hello@madebyjamie.com".to_string()).unwrap();
    assert_eq!(parsed.as_str(), "hello@madebyjamie.com");
    assert!(parse_email("a@b.c".to_string()).is_ok());
}

#[test]
fn invalid_emails_are_rejected() {
    for raw in [
        "",
        "not-an-email",
        "@madebyjamie.com",
        "hello@",
        "hello@nodot",
        "he@llo@madebyjamie.com",
    ] {
        let result = parse_email(raw.to_string());
        assert_eq!(result.unwrap_err(), ValidationError::MalformedEmail);
    }
}

#[test]
fn decimal_strings_are_coerced() {
    assert_eq!(parse_decimal_u16("8000").unwrap(), 8000);
    assert_eq!(parse_decimal_u16("65535").unwrap(), 65535);
    assert_eq!(parse_decimal_u16("0").unwrap(), 0);
    assert_eq!(parse_decimal_u16("65536").unwrap_err(), ConfigError::Malformed);
    assert_eq!(parse_decimal_u16("").unwrap_err(), ConfigError::Malformed);
    assert_eq!(parse_decimal_u16("80a0").unwrap_err(), ConfigError::Malformed);
    assert_eq!(parse_decimal_u16("-1").unwrap_err(), ConfigError::Malformed);
}

#[test]
fn native_numbers_are_coerced() {
    assert_eq!(coerce_u16(&RawNumber::Numeric(8080)).unwrap(), 8080);
    assert_eq!(coerce_u16(&RawNumber::Numeric(70000)).unwrap_err(), ConfigError::Malformed);
    assert_eq!(coerce_u16(&RawNumber::Text("5432".to_string())).unwrap(), 5432);
}

fn test_settings(sender_email: &str, require_ssl: bool) -> Settings {
    Settings {
        database: DatabaseSettings {
            username: "postgres".to_string(),
            password: SecretString::new("password".to_string()),
            port: 5432,
            host: "127.0.0.1".to_string(),
            database_name: "newsletter".to_string(),
            require_ssl,
        },
        application: ApplicationSettings { port: 8000, host: "127.0.0.1".to_string() },
        email_client: EmailClientSettings {
            base_url: "http://api.provider.test".to_string(),
            sender_email: sender_email.to_string(),
            authorization_token: SecretString::new("password".to_string()),
            timeout_milliseconds: 10000,
        },
    }
}

#[test]
fn connect_options_carries_the_settings_over() {
    let settings = test_settings("hello@madebyjamie.com", true);
    let descriptor = settings.database.connect_options();
    assert_eq!(descriptor.host, "127.0.0.1");
    assert_eq!(descriptor.username, "postgres");
    assert_eq!(descriptor.port, 5432);
    assert_eq!(descriptor.database_name, "newsletter");
    assert_eq!(descriptor.ssl_mode, SslMode::Require);
    assert_eq!(descriptor.password.expose_secret(), "password");

    let relaxed = test_settings("hello@madebyjamie.com", false);
    assert_eq!(relaxed.database.connect_options().ssl_mode, SslMode::Prefer);
}

#[test]
fn settings_derive_sender_and_timeout() {
    let settings = test_settings("hello@madebyjamie.com", false);
    let sender = settings.email_client.sender().unwrap();
    assert_eq!(sender.as_str(), "hello@madebyjamie.com");
    assert_eq!(settings.email_client.timeout(), 10000);

    let bad = test_settings("definitely-not-an-email", false);
    assert_eq!(bad.email_client.sender().unwrap_err(), ValidationError::MalformedEmail);
}

#[test]
fn startup_plan_composes_the_service() {
    let settings = test_settings("hello@madebyjamie.com", false);
    let plan = StartupPlan::build(settings).unwrap();
    assert_eq!(plan.address, "127.0.0.1:8000");
    assert_eq!(plan.connection.port, 5432);
    assert_eq!(plan.email_client.base_url, "http://api.provider.test");
    assert_eq!(plan.email_client.sender.as_str(), "hello@madebyjamie.com");
    assert_eq!(plan.email_client.timeout_milliseconds, 10000);
}

#[test]
fn startup_fails_fast_on_a_malformed_sender() {
    let settings = test_settings("not-an-email", false);
    match StartupPlan::build(settings) {
        Err(StartupError::InvalidSenderEmail) => {},
        Ok(_) => panic!("a malformed sender must fail startup"),
    }
}

#[test]
fn format_address_writes_host_and_port() {
    assert_eq!(format_address("127.0.0.1", 8000), "127.0.0.1:8000");
    assert_eq!(format_address("localhost", 0), "localhost:0");
    assert_eq!(format_address("0.0.0.0", 65535), "0.0.0.0:65535");
}

#[test]
fn send_request_is_built_from_the_configuration() {
    let sender = parse_email("newsletter@madebyjamie.com".to_string()).unwrap();
    let client = EmailClient::new(
        "http://api.provider.test".to_string(),
        sender,
        SecretString::new("password".to_string()),
        10000,
    );
    let recipient = parse_email("hello@madebyjamie.com".to_string()).unwrap();
    let request = client.send_request(
        &recipient,
        "Welcome!".to_string(),
        "<p>Welcome!</p>".to_string(),
        "Welcome!".to_string(),
    );
    assert_eq!(request.url, "http://api.provider.test/email");
    assert_eq!(request.from, "newsletter@madebyjamie.com");
    assert_eq!(request.to, "hello@madebyjamie.com");
    assert_eq!(request.subject, "Welcome!");
    assert_eq!(request.html_body, "<p>Welcome!</p>");
    assert_eq!(request.text_body, "Welcome!");
    assert_eq!(request.timeout_milliseconds, 10000);
    assert_eq!(request.authorization_token.expose_secret(), "password");
}

#[test]
fn provider_outcomes_map_to_uniform_errors() {
    assert!(interpret_send_outcome(&SendOutcome::Responded(200)).is_ok());
    assert!(interpret_send_outcome(&SendOutcome::Responded(299)).is_ok());
    assert_eq!(
        interpret_send_outcome(&SendOutcome::Responded(199)).unwrap_err(),
        EmailError::Rejected
    );
    assert_eq!(
        interpret_send_outcome(&SendOutcome::Responded(500)).unwrap_err(),
        EmailError::Rejected
    );
    assert_eq!(interpret_send_outcome(&SendOutcome::TimedOut).unwrap_err(), EmailError::Timeout);
    assert_eq!(
        interpret_send_outcome(&SendOutcome::ConnectionFailed).unwrap_err(),
        EmailError::Transport
    );
}

#[test]
fn secrets_are_reachable_only_through_the_accessor() {
    let secret = SecretString::new("password".to_string());
    assert_eq!(secret.expose_secret(), "password");
    assert_eq!(secret.duplicate().expose_secret(), "password");
}
