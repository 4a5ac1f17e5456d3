//! What a team sends to join or leave, and what it is told in return.

use vstd::prelude::*;

verus! {

/// A request to join: the team's name and where its decision service
/// listens.
#[derive(Debug)]
pub struct Registration {
    pub name: String,
    pub ip_address: String,
    pub port: u16,
}

/// A request to leave.
#[derive(Debug)]
pub struct Unregistration {
    pub name: String,
}

/// Why a registration was refused.
#[derive(Clone, Copy, Debug, PartialEq, Eq, Structural)]
pub enum RegistrationFailureReason {
    NameTaken,
    IPAddressWithPortTaken,
}

/// Outcome of a registration.
#[derive(Clone, Copy, Debug, PartialEq, Eq, Structural)]
pub enum RegistrationAttempt {
    Success,
    Failure(RegistrationFailureReason),
}

/// Why an unregistration was refused.
#[derive(Clone, Copy, Debug, PartialEq, Eq, Structural)]
pub enum UnregistrationFailureReason {
    NameNotRegistered,
}

/// Outcome of an unregistration.
#[derive(Clone, Copy, Debug, PartialEq, Eq, Structural)]
pub enum UnregistrationAttempt {
    Success,
    Failure(UnregistrationFailureReason),
}

impl RegistrationFailureReason {
    /// The sentence that explains the reason.
    pub open spec fn sentence(self) -> Seq<char> {
        match self {
            RegistrationFailureReason::NameTaken => "name already taken"@,
            RegistrationFailureReason::IPAddressWithPortTaken => "ip address with port already taken"@,
        }
    }

    /// The word by which a machine tells the reasons apart.
    pub open spec fn token(self) -> Seq<char> {
        match self {
            RegistrationFailureReason::NameTaken => "NameTaken"@,
            RegistrationFailureReason::IPAddressWithPortTaken => "AddressTaken"@,
        }
    }

    /// The sentence that explains the reason.
    pub fn describe(&self) -> (text: String)
        ensures
            text@ == self.sentence(),
    {
        match self {
            RegistrationFailureReason::NameTaken => "name already taken".to_owned(),
            RegistrationFailureReason::IPAddressWithPortTaken => {
                "ip address with port already taken".to_owned()
            },
        }
    }

    /// The word by which a machine tells the reasons apart.
    pub fn code(&self) -> (text: String)
        ensures
            text@ == self.token(),
    {
        match self {
            RegistrationFailureReason::NameTaken => "NameTaken".to_owned(),
            RegistrationFailureReason::IPAddressWithPortTaken => "AddressTaken".to_owned(),
        }
    }
}

impl From<RegistrationFailureReason> for String {
    /// The sentence that explains the reason.
    fn from(reason: RegistrationFailureReason) -> (text: String)
        ensures
            text@ == reason.sentence(),
    {
        reason.describe()
    }
}

/// Two strings with the same content need not be the same value, so the
/// conversion is stated on `from`, over the content, and not here.
impl vstd::std_specs::convert::FromSpecImpl<RegistrationFailureReason> for String {
    open spec fn obeys_from_spec() -> bool {
        false
    }

    open spec fn from_spec(reason: RegistrationFailureReason) -> String {
        arbitrary()
    }
}

impl UnregistrationFailureReason {
    /// The word by which a machine tells the reason.
    pub open spec fn token(self) -> Seq<char> {
        "NameNotRegistered"@
    }

    /// The word by which a machine tells the reason.
    pub fn code(&self) -> (text: String)
        ensures
            text@ == self.token(),
    {
        "NameNotRegistered".to_owned()
    }
}

/// The body of the answer to a refused registration.
#[derive(Debug)]
pub struct RegistrationFailure {
    pub reason: String,
}

impl RegistrationFailure {
    /// An answer that gives `reason`.
    pub fn new<S: Into<String>>(reason: S) -> (failure: RegistrationFailure)
        ensures
            call_ensures(S::into, (reason,), failure.reason),
    {
        RegistrationFailure { reason: reason.into() }
    }
}

/// The body of the answer to a refused unregistration.
#[derive(Debug)]
pub struct UnregistrationFailure {
    pub reason: String,
}

impl UnregistrationFailure {
    /// An answer that gives `reason`.
    pub fn new<S: Into<String>>(reason: S) -> (failure: UnregistrationFailure)
        ensures
            call_ensures(S::into, (reason,), failure.reason),
    {
        UnregistrationFailure { reason: reason.into() }
    }
}

} // verus!
