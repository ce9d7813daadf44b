//! The HTTP-facing decisions of the service: the health check and the
//! subscription intake pipeline. Each request is handled statelessly;
//! the persistence write itself is performed by the embedding, which
//! hands its outcome back for the final status.

use vstd::prelude::*;

use crate::domain::{parse_email, parse_name, valid_email, valid_name, NewSubscriber};
use crate::form::{form_fields, parse_form, FormData};

verus! {

/// A computed HTTP response: status code and body.
pub struct HttpReply {
    pub status: u16,
    pub body: Vec<u8>,
}

/// GET /health-check: 200 with an empty body, unconditionally — in
/// particular, independent of the store and the email provider.
pub fn health_check() -> (r: HttpReply)
    ensures
        r.status == 200,
        r.body@ == Seq::<u8>::empty(),
{
    HttpReply { status: 200, body: Vec::new() }
}

/// A request body is accepted when it parses as a form and both fields
/// pass their domain rules.
pub open spec fn intake_accepts(body: Seq<u8>) -> bool {
    match form_fields(body) {
        Ok((n, e)) => valid_name(n) && valid_email(e),
        Err(_) => false,
    }
}

/// What the intake handler decides from the raw body alone.
pub enum SubscribeStep {
    /// Validation failed: respond without touching persistence.
    Reject(HttpReply),
    /// Both fields are valid: insert this subscriber.
    Persist(NewSubscriber),
}

/// POST /subscriptions, the validating half: parses the form body, runs
/// the domain rules, and either rejects with 400 or hands the validated
/// subscriber over for the persistence write.
pub fn subscribe(body: &[u8]) -> (step: SubscribeStep)
    ensures
        match step {
            SubscribeStep::Reject(reply) => !intake_accepts(body@) && reply.status == 400
                && reply.body@ == Seq::<u8>::empty(),
            SubscribeStep::Persist(ns) => intake_accepts(body@) && ns.name@ == form_fields(
                body@,
            )->Ok_0.0 && ns.email@ == form_fields(body@)->Ok_0.1,
        },
{
    let parsed = parse_form(body);
    match parsed {
        Err(_) => SubscribeStep::Reject(HttpReply { status: 400, body: Vec::new() }),
        Ok(fd) => {
            let FormData { email: raw_email, name: raw_name } = fd;
            match parse_name(raw_name) {
                Err(_) => SubscribeStep::Reject(HttpReply { status: 400, body: Vec::new() }),
                Ok(name) => match parse_email(raw_email) {
                    Err(_) => SubscribeStep::Reject(HttpReply { status: 400, body: Vec::new() }),
                    Ok(email) => SubscribeStep::Persist(NewSubscriber { name, email }),
                },
            }
        },
    }
}

/// What the persistence collaborator reported for one insert.
pub enum PersistOutcome {
    /// The row was written.
    Saved,
    /// The unique-email constraint rejected the row: another subscription
    /// with the same email won the race.
    DuplicateEmail,
    /// Any other storage failure.
    StorageFailure,
}

/// The status an accepted request answers with, given what the store
/// reported: success exactly for a saved row.
pub open spec fn outcome_status(outcome: PersistOutcome) -> u16 {
    if outcome is Saved {
        200
    } else {
        500
    }
}

/// The final status of an accepted request: 200 exactly when the row was
/// saved; a duplicate email is a conflict and, like any other storage
/// failure, surfaces as 500. The confirmation send that follows a saved
/// row is best-effort and does not change the reply.
pub fn persistence_reply(outcome: &PersistOutcome) -> (r: HttpReply)
    ensures
        r.status == outcome_status(*outcome),
        r.status == 200 <==> *outcome is Saved,
        r.body@ == Seq::<u8>::empty(),
{
    match outcome {
        PersistOutcome::Saved => HttpReply { status: 200, body: Vec::new() },
        PersistOutcome::DuplicateEmail => HttpReply { status: 500, body: Vec::new() },
        PersistOutcome::StorageFailure => HttpReply { status: 500, body: Vec::new() },
    }
}

/// Two subscriptions with the same email race on the store's unique
/// constraint, which saves at most one row: at most one of the two
/// requests answers 200, and the one that observed the conflict answers
/// 500.
pub proof fn lemma_duplicate_email_race(first: PersistOutcome, second: PersistOutcome)
    requires
        !(first is Saved && second is Saved),
    ensures
        !(outcome_status(first) == 200 && outcome_status(second) == 200),
        first is Saved ==> outcome_status(second) == 500,
        second is Saved ==> outcome_status(first) == 500,
{
}

} // verus!
