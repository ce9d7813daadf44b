//! The transactional email client: configuration, the outbound request
//! it prepares for one confirmation message, and the uniform meaning of
//! the provider's answer. The HTTP transport itself lives with the
//! embedding; the client holds no mutable state and is safe to share.

use vstd::prelude::*;

use crate::config::SecretString;
use crate::domain::SubscriberEmail;

verus! {

/// Uniform surface of provider failures.
#[derive(Clone, Copy, Debug, PartialEq, Eq, Structural)]
pub enum EmailError {
    /// The request did not complete within the configured duration.
    Timeout,
    /// The provider answered with a non-success status.
    Rejected,
    /// A connection-level failure.
    Transport,
}

/// How one attempt at the provider ended, as observed by the transport.
pub enum SendOutcome {
    /// The provider answered with this status code.
    Responded(u16),
    /// No answer within the configured duration.
    TimedOut,
    /// The connection itself failed.
    ConnectionFailed,
}

/// The path under the provider's base URL that accepts a send.
pub open spec fn send_path() -> Seq<char> {
    seq!['/', 'e', 'm', 'a', 'i', 'l']
}

/// One outbound send, as plain values for the transport: where to post,
/// how to authenticate, and the message itself.
pub struct EmailRequest {
    pub url: String,
    pub authorization_token: SecretString,
    pub from: String,
    pub to: String,
    pub subject: String,
    pub html_body: String,
    pub text_body: String,
    pub timeout_milliseconds: u64,
}

/// A configured client for the email provider; construction performs no
/// network I/O.
pub struct EmailClient {
    pub base_url: String,
    pub sender: SubscriberEmail,
    pub authorization_token: SecretString,
    pub timeout_milliseconds: u64,
}

impl EmailClient {
    pub fn new(
        base_url: String,
        sender: SubscriberEmail,
        authorization_token: SecretString,
        timeout_milliseconds: u64,
    ) -> (c: Self)
        ensures
            c.base_url@ == base_url@,
            c.sender == sender,
            c.authorization_token@ == authorization_token@,
            c.timeout_milliseconds == timeout_milliseconds,
    {
        EmailClient { base_url, sender, authorization_token, timeout_milliseconds }
    }

    /// Prepares the single request that sends one message: posted to the
    /// provider's send endpoint, authenticated with the configured token,
    /// from the configured sender, bounded by the configured timeout.
    pub fn send_request(
        &self,
        recipient: &SubscriberEmail,
        subject: String,
        html_body: String,
        text_body: String,
    ) -> (r: EmailRequest)
        ensures
            r.url@ == self.base_url@ + send_path(),
            r.authorization_token@ == self.authorization_token@,
            r.from@ == self.sender@,
            r.to@ == recipient@,
            r.subject@ == subject@,
            r.html_body@ == html_body@,
            r.text_body@ == text_body@,
            r.timeout_milliseconds == self.timeout_milliseconds,
    {
        let mut url = self.base_url.clone();
        proof {
            reveal_strlit("/email");
            assert("/email"@ =~= send_path());
        }
        url.append("/email");
        EmailRequest {
            url,
            authorization_token: self.authorization_token.duplicate(),
            from: self.sender.as_str().to_owned(),
            to: recipient.as_str().to_owned(),
            subject,
            html_body,
            text_body,
            timeout_milliseconds: self.timeout_milliseconds,
        }
    }
}

/// The meaning of one attempt: a 2xx answer is success, any other answer
/// is a rejection, silence within the timeout is a timeout, and a failed
/// connection is a transport error. There is no automatic retry; the
/// caller owns the retry policy.
pub fn interpret_send_outcome(outcome: &SendOutcome) -> (r: Result<(), EmailError>)
    ensures
        match *outcome {
            SendOutcome::Responded(status) => r == (if 200 <= status < 300 {
                Ok::<(), EmailError>(())
            } else {
                Err::<(), EmailError>(EmailError::Rejected)
            }),
            SendOutcome::TimedOut => r == Err::<(), EmailError>(EmailError::Timeout),
            SendOutcome::ConnectionFailed => r == Err::<(), EmailError>(EmailError::Transport),
        },
{
    match outcome {
        SendOutcome::Responded(status) => {
            if 200 <= *status && *status < 300 {
                Ok(())
            } else {
                Err(EmailError::Rejected)
            }
        },
        SendOutcome::TimedOut => Err(EmailError::Timeout),
        SendOutcome::ConnectionFailed => Err(EmailError::Transport),
    }
}

} // verus!
