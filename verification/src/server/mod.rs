//! What the registration endpoint answers.

use vstd::prelude::*;
use vstd::string::StringExecFns;

use crate::simulation::registration::{
    RegistrationAttempt, RegistrationFailure, UnregistrationAttempt, UnregistrationFailure,
};

verus! {

/// Status of an answer without a body: the request was carried out.
pub const NO_CONTENT: u16 = 204;

/// Status of an answer that gives a reason: the request was not carried out.
pub const INTERNAL_SERVER_ERROR: u16 = 500;

/// The reason given when `body` is no request of the kind `what`.
pub open spec fn undeserializable(what: Seq<char>, body: Seq<char>) -> Seq<char> {
    "unable to deserialize "@ + what + " \""@ + body + "\""@
}

fn undeserializable_text(what: &str, body: &str) -> (reason: String)
    ensures
        reason@ == undeserializable(what@, body@),
{
    let mut reason = String::from_str("unable to deserialize ");
    reason.append(what);
    reason.append(" \"");
    reason.append(body);
    reason.append("\"");
    assert(reason@ =~= undeserializable(what@, body@));
    reason
}

/// The answer to a registration: its status and, where it was refused, the
/// reason as the word that names it.
pub fn registration_answer(attempt: RegistrationAttempt) -> (answer: (
    u16,
    Option<RegistrationFailure>,
))
    ensures
        match attempt {
            RegistrationAttempt::Success => answer.0 == NO_CONTENT && answer.1 is None,
            RegistrationAttempt::Failure(reason) => {
                &&& answer.0 == INTERNAL_SERVER_ERROR
                &&& answer.1 matches Some(failure) && failure.reason@ == reason.token()
            },
        },
{
    match attempt {
        RegistrationAttempt::Success => (NO_CONTENT, None),
        RegistrationAttempt::Failure(reason) => (
            INTERNAL_SERVER_ERROR,
            Some(RegistrationFailure { reason: reason.code() }),
        ),
    }
}

/// The answer to an unregistration: its status and, where it was refused,
/// the reason as the word that names it.
pub fn unregistration_answer(attempt: UnregistrationAttempt) -> (answer: (
    u16,
    Option<UnregistrationFailure>,
))
    ensures
        match attempt {
            UnregistrationAttempt::Success => answer.0 == NO_CONTENT && answer.1 is None,
            UnregistrationAttempt::Failure(reason) => {
                &&& answer.0 == INTERNAL_SERVER_ERROR
                &&& answer.1 matches Some(failure) && failure.reason@ == reason.token()
            },
        },
{
    match attempt {
        UnregistrationAttempt::Success => (NO_CONTENT, None),
        UnregistrationAttempt::Failure(reason) => (
            INTERNAL_SERVER_ERROR,
            Some(UnregistrationFailure { reason: reason.code() }),
        ),
    }
}

/// The answer to a registration whose body could not be read.
pub fn unreadable_registration() -> (failure: RegistrationFailure)
    ensures
        failure.reason@ == "unable to read body"@,
{
    RegistrationFailure { reason: String::from_str("unable to read body") }
}

/// The answer to a registration whose body is no registration.
pub fn malformed_registration(body: &str) -> (failure: RegistrationFailure)
    ensures
        failure.reason@ == undeserializable("registration"@, body@),
{
    RegistrationFailure { reason: undeserializable_text("registration", body) }
}

/// The answer to an unregistration whose body could not be read.
pub fn unreadable_unregistration() -> (failure: UnregistrationFailure)
    ensures
        failure.reason@ == "unable to read body"@,
{
    UnregistrationFailure { reason: String::from_str("unable to read body") }
}

/// The answer to an unregistration whose body is no unregistration.
pub fn malformed_unregistration(body: &str) -> (failure: UnregistrationFailure)
    ensures
        failure.reason@ == undeserializable("unregistration"@, body@),
{
    UnregistrationFailure { reason: undeserializable_text("unregistration", body) }
}

} // verus!
