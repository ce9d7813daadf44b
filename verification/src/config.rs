//! Typed runtime settings and the plain values derived from them. The
//! layered sources themselves are read by the embedding; this module owns
//! the meaning of the values: numeric coercion, the connection
//! descriptor, the parsed sender address and the timeout.

use vstd::prelude::*;

use crate::domain::{parse_email, valid_email, SubscriberEmail, ValidationError};

verus! {

/// An opaque wrapper for secret values (passwords, tokens): the content
/// is reachable only through the explicit accessor, at the point of use.
pub struct SecretString {
    secret: String,
}

impl View for SecretString {
    type V = Seq<char>;

    closed spec fn view(&self) -> Seq<char> {
        self.secret@
    }
}

impl SecretString {
    pub fn new(secret: String) -> (r: Self)
        ensures
            r@ == secret@,
    {
        SecretString { secret }
    }

    /// The single, auditable way to read the secret content.
    pub fn expose_secret(&self) -> (r: &str)
        ensures
            r@ == self@,
    {
        self.secret.as_str()
    }

    /// A copy holding the same secret.
    pub fn duplicate(&self) -> (r: Self)
        ensures
            r@ == self@,
    {
        SecretString { secret: self.secret.clone() }
    }
}

/// Why the settings could not be loaded.
#[derive(Clone, Copy, Debug, PartialEq, Eq, Structural)]
pub enum ConfigError {
    /// The configuration source cannot be located.
    Missing,
    /// A value does not deserialize into its field.
    Malformed,
}

pub struct ApplicationSettings {
    pub port: u16,
    pub host: String,
}

pub struct DatabaseSettings {
    pub username: String,
    pub password: SecretString,
    pub port: u16,
    pub host: String,
    pub database_name: String,
    pub require_ssl: bool,
}

pub struct EmailClientSettings {
    pub base_url: String,
    pub sender_email: String,
    pub authorization_token: SecretString,
    pub timeout_milliseconds: u64,
}

pub struct Settings {
    pub database: DatabaseSettings,
    pub application: ApplicationSettings,
    pub email_client: EmailClientSettings,
}

/// The SSL policy for the store connection.
#[derive(Clone, Copy, Debug, PartialEq, Eq, Structural)]
pub enum SslMode {
    /// TLS is mandatory.
    Require,
    /// TLS is attempted but not required.
    Prefer,
}

/// A connection descriptor for the store, as plain values; the embedding
/// turns it into its pool configuration. The password stays wrapped.
pub struct ConnectionDescriptor {
    pub host: String,
    pub username: String,
    pub password: SecretString,
    pub port: u16,
    pub ssl_mode: SslMode,
    pub database_name: String,
}

impl DatabaseSettings {
    /// Derives the connection descriptor: every field carried over, with
    /// SSL required exactly when require_ssl is set, else preferred.
    pub fn connect_options(&self) -> (d: ConnectionDescriptor)
        ensures
            d.host@ == self.host@,
            d.username@ == self.username@,
            d.password@ == self.password@,
            d.port == self.port,
            d.database_name@ == self.database_name@,
            d.ssl_mode == (if self.require_ssl {
                SslMode::Require
            } else {
                SslMode::Prefer
            }),
    {
        let ssl_mode = if self.require_ssl {
            SslMode::Require
        } else {
            SslMode::Prefer
        };
        ConnectionDescriptor {
            host: self.host.clone(),
            username: self.username.clone(),
            password: self.password.duplicate(),
            port: self.port,
            ssl_mode,
            database_name: self.database_name.clone(),
        }
    }
}

impl EmailClientSettings {
    /// Parses the configured sender address through the domain rules.
    pub fn sender(&self) -> (r: Result<SubscriberEmail, ValidationError>)
        ensures
            match r {
                Ok(e) => valid_email(self.sender_email@) && e@ == self.sender_email@,
                Err(e) => !valid_email(self.sender_email@) && e == ValidationError::MalformedEmail,
            },
    {
        parse_email(self.sender_email.clone())
    }

    /// The client timeout in milliseconds; the embedding converts it to
    /// its duration type.
    pub fn timeout(&self) -> (ms: u64)
        ensures
            ms == self.timeout_milliseconds,
    {
        self.timeout_milliseconds
    }
}

pub open spec fn decimal_digit(c: char) -> bool {
    '0' <= c <= '9'
}

pub open spec fn digit_value(c: char) -> nat
    recommends
        decimal_digit(c),
{
    (c as u32 - 48) as nat
}

pub open spec fn all_digits(s: Seq<char>) -> bool {
    forall|i: int| 0 <= i < s.len() ==> decimal_digit(s[i])
}

/// The number a digit string writes in decimal.
pub open spec fn decimal_value(s: Seq<char>) -> nat
    decreases s.len(),
{
    if s.len() == 0 {
        0
    } else {
        decimal_value(s.drop_last()) * 10 + digit_value(s.last())
    }
}

/// A numeric setting as a configuration source supplies it: a native
/// number, or a string to coerce once during load.
pub enum RawNumber {
    Numeric(u64),
    Text(String),
}

/// What a raw configuration value means as a port-sized number.
pub open spec fn u16_of_raw(raw: RawNumber) -> Option<u16> {
    match raw {
        RawNumber::Numeric(n) => if n <= 65535 {
            Some(n as u16)
        } else {
            None
        },
        RawNumber::Text(s) => if s@.len() > 0 && all_digits(s@) && decimal_value(s@) <= 65535 {
            Some(decimal_value(s@) as u16)
        } else {
            None
        },
    }
}

/// Reads a non-empty decimal string as a port-sized number.
pub fn parse_decimal_u16(s: &str) -> (r: Result<u16, ConfigError>)
    ensures
        match r {
            Ok(v) => s@.len() > 0 && all_digits(s@) && decimal_value(s@) <= 65535 && v
                == decimal_value(s@),
            Err(e) => (s@.len() == 0 || !all_digits(s@) || decimal_value(s@) > 65535) && e
                == ConfigError::Malformed,
        },
{
    let len = s.unicode_len();
    if len == 0 {
        return Err(ConfigError::Malformed);
    }
    let mut i: usize = 0;
    let mut acc: u32 = 0;
    let mut too_big = false;
    while i < len
        invariant
            0 <= i <= len,
            len == s@.len(),
            forall|j: int| 0 <= j < i ==> decimal_digit(s@[j]),
            !too_big ==> acc == decimal_value(s@.take(i as int)) && acc <= 65535,
            too_big ==> decimal_value(s@.take(i as int)) > 65535,
        decreases len - i,
    {
        let c = s.get_char(i);
        if !('0' <= c && c <= '9') {
            proof {
                assert(!decimal_digit(s@[i as int]));
            }
            return Err(ConfigError::Malformed);
        }
        let d = (c as u32) - 48;
        proof {
            assert(s@.take(i + 1).drop_last() =~= s@.take(i as int));
            assert(s@.take(i + 1).last() == s@[i as int]);
        }
        if !too_big {
            acc = acc * 10 + d;
            if acc > 65535 {
                too_big = true;
            }
        }
        i = i + 1;
    }
    proof {
        assert(s@.take(len as int) =~= s@);
    }
    if too_big {
        Err(ConfigError::Malformed)
    } else {
        Ok(acc as u16)
    }
}

/// Coerces a configuration value to a port-sized number: native numbers
/// pass through when they fit; a string is read in decimal.
pub fn coerce_u16(raw: &RawNumber) -> (r: Result<u16, ConfigError>)
    ensures
        match r {
            Ok(v) => u16_of_raw(*raw) == Some(v),
            Err(e) => u16_of_raw(*raw) is None && e == ConfigError::Malformed,
        },
{
    match raw {
        RawNumber::Numeric(n) => if *n <= 65535 {
            Ok(*n as u16)
        } else {
            Err(ConfigError::Malformed)
        },
        RawNumber::Text(s) => parse_decimal_u16(s.as_str()),
    }
}

} // verus!
