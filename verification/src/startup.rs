//! Composition of the service from its settings: the listen address, the
//! store connection descriptor and the email client, derived up front so
//! that a malformed sender address fails startup rather than a request.
//! Binding the listener and driving the server belong to the embedding.

use vstd::prelude::*;

use crate::config::{ConnectionDescriptor, Settings, SslMode};
use crate::domain::valid_email;
use crate::email_client::EmailClient;

verus! {

/// Why the service could not be composed from its settings.
#[derive(Clone, Copy, Debug, PartialEq, Eq, Structural)]
pub enum StartupError {
    /// The configured sender address fails the email grammar.
    InvalidSenderEmail,
}

/// Everything the embedding needs to bring the service up.
pub struct StartupPlan {
    pub address: String,
    pub connection: ConnectionDescriptor,
    pub email_client: EmailClient,
}

pub open spec fn digit_char(d: nat) -> char {
    if d == 0 {
        '0'
    } else if d == 1 {
        '1'
    } else if d == 2 {
        '2'
    } else if d == 3 {
        '3'
    } else if d == 4 {
        '4'
    } else if d == 5 {
        '5'
    } else if d == 6 {
        '6'
    } else if d == 7 {
        '7'
    } else if d == 8 {
        '8'
    } else {
        '9'
    }
}

/// The decimal notation of n, most significant digit first.
pub open spec fn decimal_digits(n: nat) -> Seq<char>
    decreases n,
{
    if n < 10 {
        seq![digit_char(n)]
    } else {
        decimal_digits(n / 10).push(digit_char(n % 10))
    }
}

fn digit_str(d: u16) -> (r: &'static str)
    requires
        d < 10,
    ensures
        r@ == seq![digit_char(d as nat)],
{
    match d {
        0 => {
            proof {
                reveal_strlit("0");
            }
            "0"
        },
        1 => {
            proof {
                reveal_strlit("1");
            }
            "1"
        },
        2 => {
            proof {
                reveal_strlit("2");
            }
            "2"
        },
        3 => {
            proof {
                reveal_strlit("3");
            }
            "3"
        },
        4 => {
            proof {
                reveal_strlit("4");
            }
            "4"
        },
        5 => {
            proof {
                reveal_strlit("5");
            }
            "5"
        },
        6 => {
            proof {
                reveal_strlit("6");
            }
            "6"
        },
        7 => {
            proof {
                reveal_strlit("7");
            }
            "7"
        },
        8 => {
            proof {
                reveal_strlit("8");
            }
            "8"
        },
        _ => {
            proof {
                reveal_strlit("9");
            }
            "9"
        },
    }
}

fn push_decimal(n: u16, out: &mut String)
    ensures
        final(out)@ == old(out)@ + decimal_digits(n as nat),
    decreases n,
{
    if n >= 10 {
        push_decimal(n / 10, out);
    }
    let ds = digit_str(n % 10);
    out.append(ds);
    proof {
        if n < 10 {
            assert(old(out)@ + seq![digit_char(n as nat)] =~= final(out)@);
        } else {
            assert(old(out)@ + decimal_digits(n as nat) =~= (old(out)@ + decimal_digits(
                (n / 10) as nat,
            )) + seq![digit_char((n % 10) as nat)]);
        }
    }
}

/// The listen address written as host:port.
pub fn format_address(host: &str, port: u16) -> (r: String)
    ensures
        r@ == host@ + seq![':'] + decimal_digits(port as nat),
{
    let mut out = String::from_str(host);
    proof {
        reveal_strlit(":");
        assert(":"@ =~= seq![':']);
    }
    out.append(":");
    push_decimal(port, &mut out);
    proof {
        assert((host@ + seq![':']) + decimal_digits(port as nat) =~= host@ + seq![':']
            + decimal_digits(port as nat));
    }
    out
}

impl StartupPlan {
    /// Composes the service: derives the connection descriptor, parses
    /// the sender address (failing fast when it is malformed), configures
    /// the email client with the settings' timeout, and writes the
    /// address to bind.
    pub fn build(settings: Settings) -> (r: Result<StartupPlan, StartupError>)
        ensures
            r is Ok <==> valid_email(settings.email_client.sender_email@),
            r is Err ==> r == Err::<StartupPlan, _>(StartupError::InvalidSenderEmail),
            r is Ok ==> ({
                let p = r->Ok_0;
                &&& p.address@ == settings.application.host@ + seq![':'] + decimal_digits(
                    settings.application.port as nat,
                )
                &&& p.connection.host@ == settings.database.host@
                &&& p.connection.username@ == settings.database.username@
                &&& p.connection.password@ == settings.database.password@
                &&& p.connection.port == settings.database.port
                &&& p.connection.database_name@ == settings.database.database_name@
                &&& p.connection.ssl_mode == (if settings.database.require_ssl {
                    SslMode::Require
                } else {
                    SslMode::Prefer
                })
                &&& p.email_client.base_url@ == settings.email_client.base_url@
                &&& p.email_client.sender@ == settings.email_client.sender_email@
                &&& p.email_client.authorization_token@
                    == settings.email_client.authorization_token@
                &&& p.email_client.timeout_milliseconds
                    == settings.email_client.timeout_milliseconds
            }),
    {
        let connection = settings.database.connect_options();
        let sender = match settings.email_client.sender() {
            Ok(s) => s,
            Err(_) => {
                return Err(StartupError::InvalidSenderEmail);
            },
        };
        let timeout = settings.email_client.timeout();
        let address = format_address(settings.application.host.as_str(), settings.application.port);
        let email_client = EmailClient::new(
            settings.email_client.base_url,
            sender,
            settings.email_client.authorization_token,
            timeout,
        );
        Ok(StartupPlan { address, connection, email_client })
    }
}

} // verus!
