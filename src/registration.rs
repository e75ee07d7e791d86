//! Registration timing: the expires the client works with, when the next
//! REGISTER goes out, and a Call-ID that stays the same for the whole
//! registration.
use vstd::prelude::*;

verus! {

/// The shortest registration the client keeps, in seconds.
pub const MIN_EXPIRES: u64 = 60;

/// Keepalive cap for connection-oriented transports, in seconds.
pub const CONNECTION_KEEPALIVE: u64 = 25;

/// The expires a successful REGISTER leaves: the server's value, at least 60 s.
pub fn effective_expires(server_expires: u64) -> (r: u64)
    ensures
        r == (if server_expires < MIN_EXPIRES {
            MIN_EXPIRES
        } else {
            server_expires
        }),
{
    if server_expires < MIN_EXPIRES {
        MIN_EXPIRES
    } else {
        server_expires
    }
}

/// Seconds until the next refresh: three quarters of `expires`, capped at
/// `max_keepalive` when one is set.
pub open spec fn refresh_delay(expires: u64, max_keepalive: Option<u64>) -> int {
    let t = expires as int * 3 / 4;
    match max_keepalive {
        Some(m) => if t < m {
            t
        } else {
            m as int
        },
        None => t,
    }
}

pub fn refresh_interval(expires: u64, max_keepalive: Option<u64>) -> (r: u64)
    ensures
        r == refresh_delay(expires, max_keepalive),
        4 * r <= 3 * expires,
        max_keepalive matches Some(m) ==> r <= m,
{
    let q = expires / 4;
    let rem = expires % 4;
    let t = q * 3 + rem * 3 / 4;
    assert(t == expires as int * 3 / 4) by (nonlinear_arith)
        requires
            q == expires / 4,
            rem == expires % 4,
            t == q * 3 + rem * 3 / 4,
    ;
    match max_keepalive {
        Some(m) => if t < m {
            t
        } else {
            m
        },
        None => t,
    }
}

/// Relies on uuid::Uuid::new_v4 and its Display: a random version-4 UUID in
/// the 36-character hyphenated form.
#[verifier::external_body]
pub(crate) fn fresh_call_id() -> (r: String)
    ensures
        r@.len() == 36,
{
    uuid::Uuid::new_v4().to_string()
}

/// What the registration task does next.
#[derive(Debug, Clone, PartialEq, Eq)]
pub enum RefreshAction {
    /// Send the next REGISTER after this many seconds.
    RefreshIn(u64),
    /// Send one REGISTER with `Expires: 0` under this Call-ID, then stop.
    Unregister(String),
    /// A refresh failed: report the registration lost and stop.
    Lost,
}

/// The state of one registration between REGISTER requests.
pub struct RefreshSchedule {
    call_id: String,
    expires: u64,
    max_keepalive: Option<u64>,
    active: bool,
}

impl RefreshSchedule {
    pub closed spec fn call_id_spec(&self) -> Seq<char> {
        self.call_id@
    }

    pub closed spec fn expires_spec(&self) -> u64 {
        self.expires
    }

    pub closed spec fn max_keepalive_spec(&self) -> Option<u64> {
        self.max_keepalive
    }

    pub closed spec fn is_active(&self) -> bool {
        self.active
    }

    /// A registration under a fresh UUID Call-ID, after a first REGISTER
    /// that left `initial_expires`.
    pub fn start(initial_expires: u64, max_keepalive: Option<u64>) -> (r: RefreshSchedule)
        ensures
            r.call_id_spec().len() == 36,
            r.expires_spec() == initial_expires,
            r.max_keepalive_spec() == max_keepalive,
            r.is_active(),
    {
        RefreshSchedule::with_call_id(fresh_call_id(), initial_expires, max_keepalive)
    }

    /// A registration under a given Call-ID.
    pub fn with_call_id(call_id: String, initial_expires: u64, max_keepalive: Option<u64>) -> (r:
        RefreshSchedule)
        ensures
            r.call_id_spec() == call_id@,
            r.expires_spec() == initial_expires,
            r.max_keepalive_spec() == max_keepalive,
            r.is_active(),
    {
        RefreshSchedule { call_id, expires: initial_expires, max_keepalive, active: true }
    }

    /// The Call-ID every REGISTER of this registration carries.
    pub fn call_id(&self) -> (r: String)
        ensures
            r@ == self.call_id_spec(),
    {
        self.call_id.clone()
    }

    /// When the first refresh goes out.
    pub fn first_delay(&self) -> (r: u64)
        ensures
            r == refresh_delay(self.expires_spec(), self.max_keepalive_spec()),
    {
        refresh_interval(self.expires, self.max_keepalive)
    }

    /// A refresh succeeded with `server_expires`: the next one is due after
    /// three quarters of the effective expires, or the keepalive cap.
    pub fn refreshed(&mut self, server_expires: u64) -> (r: RefreshAction)
        ensures
            final(self).call_id_spec() == old(self).call_id_spec(),
            final(self).max_keepalive_spec() == old(self).max_keepalive_spec(),
            final(self).is_active() == old(self).is_active(),
            final(self).expires_spec() == (if server_expires < MIN_EXPIRES {
                MIN_EXPIRES
            } else {
                server_expires
            }),
            r == RefreshAction::RefreshIn(
                refresh_delay(final(self).expires_spec(), old(self).max_keepalive_spec()) as u64,
            ),
    {
        self.expires = effective_expires(server_expires);
        RefreshAction::RefreshIn(refresh_interval(self.expires, self.max_keepalive))
    }

    /// A refresh failed: the registration is lost and the loop ends.
    pub fn failed(&mut self) -> (r: RefreshAction)
        ensures
            final(self).call_id_spec() == old(self).call_id_spec(),
            !final(self).is_active(),
            r == RefreshAction::Lost,
    {
        self.active = false;
        RefreshAction::Lost
    }

    /// The registration was cancelled: unregister under the same Call-ID.
    pub fn cancelled(&mut self) -> (r: RefreshAction)
        ensures
            final(self).call_id_spec() == old(self).call_id_spec(),
            !final(self).is_active(),
            r matches RefreshAction::Unregister(id) && id@ == old(self).call_id_spec(),
    {
        self.active = false;
        RefreshAction::Unregister(self.call_id.clone())
    }
}

/// Every refresh of a registration fires no later than three quarters of
/// the expires in force, and no later than the keepalive cap when one is set.
pub proof fn lemma_refresh_in_time(expires: u64, max_keepalive: Option<u64>)
    ensures
        4 * refresh_delay(expires, max_keepalive) <= 3 * expires,
        max_keepalive matches Some(m) ==> refresh_delay(expires, max_keepalive) <= m,
        refresh_delay(expires, max_keepalive) >= 0,
{
}

/// Over any run of a registration in which each step keeps the Call-ID (as
/// `refreshed`, `failed` and `cancelled` do), every REGISTER carries the
/// Call-ID of the first, byte for byte.
pub proof fn lemma_call_id_across_refreshes(steps: Seq<RefreshSchedule>)
    requires
        forall|i: int| 1 <= i < steps.len() ==> (#[trigger] steps[i]).call_id_spec() == steps[i - 1].call_id_spec(),
    ensures
        forall|i: int| 0 <= i < steps.len() ==> (#[trigger] steps[i]).call_id_spec() == steps[0].call_id_spec(),
    decreases steps.len(),
{
    if steps.len() > 1 {
        let prefix = steps.drop_last();
        assert forall|i: int| 1 <= i < prefix.len() implies (#[trigger] prefix[i]).call_id_spec()
            == prefix[i - 1].call_id_spec() by {
            assert(prefix[i] == steps[i]);
            assert(prefix[i - 1] == steps[i - 1]);
        }
        lemma_call_id_across_refreshes(prefix);
        assert forall|i: int| 0 <= i < steps.len() implies (#[trigger] steps[i]).call_id_spec()
            == steps[0].call_id_spec() by {
            if i < prefix.len() {
                assert(prefix[i] == steps[i]);
            } else {
                assert(steps[i].call_id_spec() == steps[i - 1].call_id_spec());
                assert(prefix[i - 1] == steps[i - 1]);
            }
        }
    }
}

} // verus!
