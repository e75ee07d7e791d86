//! Events shown to the user interface, as plain data.
use vstd::prelude::*;

verus! {

/// `sip://incoming-call`.
#[derive(Debug, Clone, PartialEq, Eq)]
pub struct IncomingCallPayload {
    pub call_id: String,
    pub caller: String,
    pub callee: Option<String>,
}

/// `sip://call-state`.
#[derive(Debug, Clone, PartialEq, Eq)]
pub struct CallStatePayload {
    pub state: String,
    pub call_id: Option<String>,
    pub reason: Option<String>,
}

/// `sip://registration-status`.
#[derive(Debug, Clone, PartialEq, Eq)]
pub struct RegistrationStatusPayload {
    pub status: String,
    pub message: Option<String>,
}

/// The states a call shows to the user.
#[derive(Debug, Clone, Copy, PartialEq, Eq, Structural)]
pub enum CallState {
    Calling,
    Ringing,
    Connected,
    Ended,
}

pub open spec fn call_state_name(s: CallState) -> Seq<char> {
    match s {
        CallState::Calling => "calling"@,
        CallState::Ringing => "ringing"@,
        CallState::Connected => "connected"@,
        CallState::Ended => "ended"@,
    }
}

impl CallState {
    pub fn as_str(&self) -> (r: &'static str)
        ensures
            r@ == call_state_name(*self),
    {
        match self {
            CallState::Calling => "calling",
            CallState::Ringing => "ringing",
            CallState::Connected => "connected",
            CallState::Ended => "ended",
        }
    }
}

/// The registration states shown to the user.
#[derive(Debug, Clone, Copy, PartialEq, Eq, Structural)]
pub enum RegistrationStatus {
    Registered,
    Failed,
    Lost,
}

pub open spec fn registration_status_name(s: RegistrationStatus) -> Seq<char> {
    match s {
        RegistrationStatus::Registered => "registered"@,
        RegistrationStatus::Failed => "failed"@,
        RegistrationStatus::Lost => "lost"@,
    }
}

impl CallStatePayload {
    pub fn new(state: CallState, call_id: Option<String>, reason: Option<String>) -> (r: Self)
        ensures
            r.state@ == call_state_name(state),
            r.call_id == call_id,
            r.reason == reason,
    {
        CallStatePayload { state: state.as_str().to_owned(), call_id, reason }
    }
}

impl CallStatePayload {
    /// The event for an incoming call the user rejected: `ended`, reason `rejected`.
    pub fn rejected(call_id: String) -> (r: Self)
        ensures
            r.state@ == call_state_name(CallState::Ended),
            r.call_id == Some(call_id),
            r.reason matches Some(x) && x@ == "rejected"@,
    {
        CallStatePayload::new(CallState::Ended, Some(call_id), Some("rejected".to_owned()))
    }
}

impl RegistrationStatusPayload {
    pub fn new(status: RegistrationStatus, message: Option<String>) -> (r: Self)
        ensures
            r.status@ == registration_status_name(status),
            r.message == message,
    {
        let s = match status {
            RegistrationStatus::Registered => "registered",
            RegistrationStatus::Failed => "failed",
            RegistrationStatus::Lost => "lost",
        };
        RegistrationStatusPayload { status: s.to_owned(), message }
    }
}

impl IncomingCallPayload {
    /// The event for a new incoming call; a caller without a readable From
    /// URI shows as `Unknown`.
    pub fn new(call_id: String, caller: Option<String>, callee: Option<String>) -> (r: Self)
        ensures
            r.call_id == call_id,
            caller matches Some(c) ==> r.caller == c,
            caller is None ==> r.caller@ == "Unknown"@,
            r.callee == callee,
    {
        let caller = match caller {
            Some(c) => c,
            None => "Unknown".to_owned(),
        };
        IncomingCallPayload { call_id, caller, callee }
    }
}

} // verus!
