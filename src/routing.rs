//! The decisions of the SIP tasks: where an incoming request goes, how an
//! incoming INVITE is admitted, what a dialog state change does, and how
//! an outbound call and a hang-up proceed.
use vstd::prelude::*;
use crate::calls::{is_value_of, CallTokens};
use crate::events::{CallState, CallStatePayload, call_state_name};
use crate::registration::fresh_call_id;
use crate::text::{chars_of, string_of};

verus! {

/// The request methods the dispatcher tells apart.
#[derive(Debug, Clone, Copy, PartialEq, Eq, Structural)]
pub enum SipMethod {
    Invite,
    Ack,
    Other,
}

/// Where an incoming request goes.
#[derive(Debug, Clone, Copy, PartialEq, Eq, Structural)]
pub enum RequestRoute {
    /// Hand it to the dialog it belongs to.
    ToDialog,
    /// It names a dialog that does not exist: reply 481.
    NoSuchDialog,
    /// A retransmitted INVITE of a call already waiting: drop it.
    Retransmission,
    /// A new incoming call.
    IncomingCall,
    /// An ACK outside any dialog: create a server dialog, send no response.
    AckDialog,
    /// Any other request outside a dialog: reply 200 OK.
    Accept,
}

pub open spec fn route_of(method: SipMethod, has_to_tag: bool, dialog_found: bool, already_pending: bool) -> RequestRoute {
    if has_to_tag {
        if dialog_found {
            RequestRoute::ToDialog
        } else {
            RequestRoute::NoSuchDialog
        }
    } else {
        match method {
            SipMethod::Invite => if already_pending {
                RequestRoute::Retransmission
            } else {
                RequestRoute::IncomingCall
            },
            SipMethod::Ack => RequestRoute::AckDialog,
            SipMethod::Other => RequestRoute::Accept,
        }
    }
}

pub fn route_request(method: SipMethod, has_to_tag: bool, dialog_found: bool, already_pending: bool) -> (r: RequestRoute)
    ensures
        r == route_of(method, has_to_tag, dialog_found, already_pending),
{
    if has_to_tag {
        if dialog_found {
            RequestRoute::ToDialog
        } else {
            RequestRoute::NoSuchDialog
        }
    } else {
        match method {
            SipMethod::Invite => if already_pending {
                RequestRoute::Retransmission
            } else {
                RequestRoute::IncomingCall
            },
            SipMethod::Ack => RequestRoute::AckDialog,
            SipMethod::Other => RequestRoute::Accept,
        }
    }
}

/// The status code a route replies with, if it replies at all.
pub fn route_reply(route: RequestRoute) -> (r: Option<u16>)
    ensures
        route == RequestRoute::NoSuchDialog ==> r == Some(481u16),
        route == RequestRoute::Accept ==> r == Some(200u16),
        route != RequestRoute::NoSuchDialog && route != RequestRoute::Accept ==> r is None,
{
    match route {
        RequestRoute::NoSuchDialog => Some(481),
        RequestRoute::Accept => Some(200),
        _ => None,
    }
}

/// How an incoming INVITE ends up.
#[derive(Debug, Clone, Copy, PartialEq, Eq, Structural)]
pub enum InviteAdmission {
    /// The server dialog could not be created: reply 481.
    NoDialog,
    /// 180 Ringing could not be sent: reply 500.
    RingingFailed,
    /// Ringing was sent: record the pending call and tell the user.
    Waiting,
}

pub fn admit_invite(dialog_created: bool, ringing_sent: bool) -> (r: InviteAdmission)
    ensures
        !dialog_created ==> r == InviteAdmission::NoDialog,
        dialog_created && !ringing_sent ==> r == InviteAdmission::RingingFailed,
        dialog_created && ringing_sent ==> r == InviteAdmission::Waiting,
{
    if !dialog_created {
        InviteAdmission::NoDialog
    } else if !ringing_sent {
        InviteAdmission::RingingFailed
    } else {
        InviteAdmission::Waiting
    }
}

pub fn admission_reply(a: InviteAdmission) -> (r: Option<u16>)
    ensures
        a == InviteAdmission::NoDialog ==> r == Some(481u16),
        a == InviteAdmission::RingingFailed ==> r == Some(500u16),
        a == InviteAdmission::Waiting ==> r is None,
{
    match a {
        InviteAdmission::NoDialog => Some(481),
        InviteAdmission::RingingFailed => Some(500),
        InviteAdmission::Waiting => None,
    }
}

/// The status of a rejection: a caller-supplied three-digit SIP status,
/// else 486 Busy Here.
pub open spec fn reject_status_of(code: Option<u16>) -> u16 {
    match code {
        Some(c) => if 100 <= c <= 699 {
            c
        } else {
            486
        },
        None => 486,
    }
}

pub fn reject_status(code: Option<u16>) -> (r: u16)
    ensures
        r == reject_status_of(code),
{
    match code {
        Some(c) => if 100 <= c && c <= 699 {
            c
        } else {
            486
        },
        None => 486,
    }
}

/// The kinds of dialog.
#[derive(Debug, Clone, Copy, PartialEq, Eq, Structural)]
pub enum DialogKind {
    ClientInvite,
    ServerInvite,
    Other,
}

/// A dialog state change.
#[derive(Debug, Clone, PartialEq, Eq)]
pub enum DialogEvent {
    Calling,
    Early,
    Terminated(String),
    Other,
}

/// What a dialog state change does.
#[derive(Debug, Clone, PartialEq, Eq)]
pub struct DialogEffect {
    /// Remove the dialog from the dialog layer.
    pub remove_dialog: bool,
    /// Cancel and forget the call's cancellation handle.
    pub cancel_call: bool,
    /// The event shown to the user, if any.
    pub emit: Option<CallStatePayload>,
}

pub open spec fn emits(e: DialogEffect, state: CallState, id: Seq<char>) -> bool {
    &&& e.emit matches Some(p)
    &&& p.state@ == call_state_name(state)
    &&& p.call_id matches Some(c)
    &&& c@ == id
}

/// A client dialog that starts calling shows `calling`, and one in an early
/// state shows `ringing`; a server dialog waits for the user. A terminated
/// dialog is removed, its call cancelled, and `ended` shown with the reason.
pub fn dialog_effect(event: &DialogEvent, kind: Option<DialogKind>, dialog_id: &String) -> (r: DialogEffect)
    ensures
        *event is Terminated ==> r.remove_dialog && r.cancel_call && emits(r, CallState::Ended, dialog_id@)
            && (r.emit matches Some(p) && p.reason == Some(event->Terminated_0)),
        !(*event is Terminated) ==> !r.remove_dialog && !r.cancel_call,
        (*event is Calling || *event is Early) && kind != Some(DialogKind::ClientInvite) ==> r.emit is None,
        *event is Calling && kind == Some(DialogKind::ClientInvite) ==> emits(r, CallState::Calling, dialog_id@),
        *event is Early && kind == Some(DialogKind::ClientInvite) ==> emits(r, CallState::Ringing, dialog_id@),
        *event is Other ==> r.emit is None,
{
    match event {
        DialogEvent::Calling => {
            let emit = if kind == Some(DialogKind::ClientInvite) {
                Some(CallStatePayload::new(CallState::Calling, Some(dialog_id.clone()), None))
            } else {
                None
            };
            DialogEffect { remove_dialog: false, cancel_call: false, emit }
        },
        DialogEvent::Early => {
            let emit = if kind == Some(DialogKind::ClientInvite) {
                Some(CallStatePayload::new(CallState::Ringing, Some(dialog_id.clone()), None))
            } else {
                None
            };
            DialogEffect { remove_dialog: false, cancel_call: false, emit }
        },
        DialogEvent::Terminated(reason) => DialogEffect {
            remove_dialog: true,
            cancel_call: true,
            emit: Some(
                CallStatePayload::new(CallState::Ended, Some(dialog_id.clone()), Some(reason.clone())),
            ),
        },
        DialogEvent::Other => DialogEffect { remove_dialog: false, cancel_call: false, emit: None },
    }
}

/// Why an outbound call did not connect.
#[derive(Debug, Clone, Copy, PartialEq, Eq, Structural)]
pub enum CallError {
    /// The remote answered with a final non-2xx status.
    Rejected(u16),
    /// The user hung up while the call was being set up.
    Cancelled,
}

/// What follows a final non-2xx answer to an outbound INVITE.
#[derive(Debug, Clone, Copy, PartialEq, Eq, Structural)]
pub enum RetryDecision {
    /// Offer again with plain RTP under the new Call-ID.
    RetryWithRtp,
    /// Report the rejection.
    GiveUp(CallError),
}

/// An outbound call being set up: its Call-ID, whether its offer uses
/// SRTP, and whether the one fallback to RTP was taken.
pub struct OutboundCall {
    pub call_id: String,
    pub srtp: bool,
    pub retried: bool,
}

/// A fresh UUID Call-ID that differs from `previous`: drawn again once if
/// the first draw repeats it, and in the (practically impossible) case that
/// the second does too, made different in its first character.
fn call_id_other_than(previous: &String) -> (r: String)
    ensures
        r@ != previous@,
        r@.len() == 36,
{
    let id = fresh_call_id();
    if id != *previous {
        return id;
    }
    let id = fresh_call_id();
    if id != *previous {
        return id;
    }
    let cs = chars_of(id.as_str());
    let mut out: Vec<char> = Vec::new();
    out.push(if cs[0] == '0' {
        '1'
    } else {
        '0'
    });
    let mut i: usize = 1;
    while i < cs.len()
        invariant
            1 <= i <= cs@.len(),
            cs@.len() == 36,
            out@.len() == i,
            out@[0] != cs@[0],
            forall|j: int| 1 <= j < i ==> out@[j] == cs@[j],
        decreases cs@.len() - i,
    {
        out.push(cs[i]);
        i = i + 1;
    }
    let r = string_of(&out);
    assert(r@[0] != previous@[0]);
    r
}

/// Status 488 Not Acceptable Here.
pub const NOT_ACCEPTABLE_HERE: u16 = 488;

impl OutboundCall {
    /// A new outbound call under a fresh UUID Call-ID.
    pub fn start(prefer_srtp: bool) -> (r: OutboundCall)
        ensures
            r.call_id@.len() == 36,
            r.srtp == prefer_srtp,
            !r.retried,
    {
        OutboundCall { call_id: fresh_call_id(), srtp: prefer_srtp, retried: false }
    }

    /// After a final non-2xx status: a 488 to the first, SRTP offer is
    /// retried once with plain RTP under a fresh Call-ID; anything else is
    /// a rejection.
    pub fn rejected(&mut self, status: u16) -> (r: RetryDecision)
        ensures
            (status == NOT_ACCEPTABLE_HERE && old(self).srtp && !old(self).retried) ==> (r
                == RetryDecision::RetryWithRtp && !final(self).srtp && final(self).retried
                && final(self).call_id@.len() == 36 && final(self).call_id@ != old(self).call_id@),
            !(status == NOT_ACCEPTABLE_HERE && old(self).srtp && !old(self).retried) ==> (r
                == RetryDecision::GiveUp(CallError::Rejected(status)) && final(self).call_id
                == old(self).call_id && final(self).srtp == old(self).srtp && final(self).retried
                == old(self).retried),
    {
        if status == NOT_ACCEPTABLE_HERE && self.srtp && !self.retried {
            self.call_id = call_id_other_than(&self.call_id);
            self.srtp = false;
            self.retried = true;
            RetryDecision::RetryWithRtp
        } else {
            RetryDecision::GiveUp(CallError::Rejected(status))
        }
    }

    /// After the INVITE was answered: a call cancelled meanwhile is hung up
    /// (BYE) and reported as cancelled; otherwise it becomes the active call.
    pub fn answered(&self, cancelled: bool) -> (r: Result<(), CallError>)
        ensures
            cancelled ==> r == Err::<(), CallError>(CallError::Cancelled),
            !cancelled ==> r is Ok,
    {
        if cancelled {
            Err(CallError::Cancelled)
        } else {
            Ok(())
        }
    }
}

/// The phases of a call, in the order they are reached.
#[derive(Debug, Clone, Copy, PartialEq, Eq, Structural)]
pub enum CallPhase {
    Idle,
    Calling,
    Ringing,
    Connecting,
    Connected,
    Ending,
    Ended,
}

pub open spec fn phase_rank(p: CallPhase) -> nat {
    match p {
        CallPhase::Idle => 0,
        CallPhase::Calling => 1,
        CallPhase::Ringing => 2,
        CallPhase::Connecting => 3,
        CallPhase::Connected => 4,
        CallPhase::Ending => 5,
        CallPhase::Ended => 6,
    }
}

impl CallPhase {
    pub fn rank(&self) -> (r: u8)
        ensures
            r == phase_rank(*self),
    {
        match self {
            CallPhase::Idle => 0,
            CallPhase::Calling => 1,
            CallPhase::Ringing => 2,
            CallPhase::Connecting => 3,
            CallPhase::Connected => 4,
            CallPhase::Ending => 5,
            CallPhase::Ended => 6,
        }
    }

    /// Move to `next` if it lies ahead; a late or repeated report leaves the
    /// phase as it is. Returns whether the phase changed (and is to be shown).
    pub fn advance(&mut self, next: CallPhase) -> (changed: bool)
        ensures
            changed == (phase_rank(next) > phase_rank(*old(self))),
            changed ==> *final(self) == next,
            !changed ==> *final(self) == *old(self),
            phase_rank(*final(self)) >= phase_rank(*old(self)),
    {
        if next.rank() > self.rank() {
            *self = next;
            true
        } else {
            false
        }
    }
}

/// The user-visible state of a call phase, if it has one.
pub open spec fn shown_state(p: CallPhase) -> Option<CallState> {
    match p {
        CallPhase::Calling => Some(CallState::Calling),
        CallPhase::Ringing => Some(CallState::Ringing),
        CallPhase::Connected => Some(CallState::Connected),
        CallPhase::Ended => Some(CallState::Ended),
        _ => None,
    }
}

/// The cancellation handles a hang-up releases: with an active call, the
/// handle filed under its dialog key; with none, every stored handle
/// (calls still ringing or being set up), each once, and none is left.
pub fn release_tokens<T>(tokens: &mut CallTokens<T>, had_active: bool, active_key: &String) -> (r: Vec<T>)
    requires
        old(tokens).wf(),
    ensures
        final(tokens).wf(),
        had_active ==> final(tokens).map() == old(tokens).map().remove(active_key@) && r@ == match old(
            tokens,
        ).map().get(active_key@) {
            Some(t) => seq![t],
            None => Seq::<T>::empty(),
        },
        !had_active ==> final(tokens).map() == Map::<Seq<char>, T>::empty() && r@.len() == old(
            tokens,
        ).map().dom().len() && (forall|k: Seq<char>| #[trigger] old(tokens).map().contains_key(k)
            ==> exists|i: int| 0 <= i < r@.len() && r@[i] == old(tokens).map()[k]) && (forall|i: int| 0 <= i < r@.len() ==> is_value_of(old(tokens).map(), #[trigger] r@[i])),
{
    if had_active {
        let mut out: Vec<T> = Vec::new();
        match tokens.remove(active_key) {
            Some(t) => {
                out.push(t);
                assert(out@ =~= seq![t]);
            },
            None => {
                assert(out@ =~= Seq::<T>::empty());
            },
        }
        out
    } else {
        tokens.drain()
    }
}

} // verus!
