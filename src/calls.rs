//! Call bookkeeping: incoming calls waiting for the user, the one active
//! call, and the cancellation handles of calls being set up or running.
//!
//! The registry is generic over what it stores for a call, so the same
//! rules hold whatever dialog and media handles the caller keeps.
use vstd::prelude::*;

verus! {

/// No key appears twice.
pub open spec fn unique_keys<T>(v: Seq<(String, T)>) -> bool {
    forall|i: int, j: int| 0 <= i < j < v.len() ==> v[i].0@ != v[j].0@
}

/// `v` has an entry under `k`.
pub open spec fn has_key<T>(v: Seq<(String, T)>, k: Seq<char>) -> bool {
    exists|i: int| 0 <= i < v.len() && (#[trigger] v[i]).0@ == k
}

/// The entries of `v` as a map from key to value (a later entry under the
/// same key would win; keys are kept unique).
pub open spec fn map_of<T>(v: Seq<(String, T)>) -> Map<Seq<char>, T>
    decreases v.len(),
{
    if v.len() == 0 {
        Map::empty()
    } else {
        map_of(v.drop_last()).insert(v.last().0@, v.last().1)
    }
}

proof fn lemma_map_of_dom<T>(v: Seq<(String, T)>)
    ensures
        forall|k: Seq<char>| #[trigger] map_of(v).contains_key(k) <==> has_key(v, k),
    decreases v.len(),
{
    if v.len() > 0 {
        let p = v.drop_last();
        lemma_map_of_dom(p);
        assert(map_of(v) == map_of(p).insert(v.last().0@, v.last().1));
        assert forall|k: Seq<char>| #[trigger] map_of(v).contains_key(k) <==> has_key(v, k) by {
            if map_of(p).contains_key(k) {
                assert(has_key(p, k));
            }
            if has_key(p, k) {
                let i = choose|i: int| 0 <= i < p.len() && (#[trigger] p[i]).0@ == k;
                assert(v[i] == p[i]);
                assert(has_key(v, k));
            }
            if k == v.last().0@ {
                assert(v[v.len() - 1].0@ == k);
                assert(has_key(v, k));
            }
            if has_key(v, k) && k != v.last().0@ {
                let i = choose|i: int| 0 <= i < v.len() && (#[trigger] v[i]).0@ == k;
                if i == v.len() - 1 {
                    assert(v[i] == v.last());
                } else {
                    assert(p[i] == v[i]);
                    assert(has_key(p, k));
                    assert(map_of(p).contains_key(k));
                }
            }
        }
    }
}

proof fn lemma_map_of_at<T>(v: Seq<(String, T)>, i: int)
    requires
        unique_keys(v),
        0 <= i < v.len(),
    ensures
        map_of(v).contains_key(v[i].0@),
        map_of(v)[v[i].0@] == v[i].1,
    decreases v.len(),
{
    if i < v.len() - 1 {
        let p = v.drop_last();
        assert(p[i] == v[i]);
        lemma_map_of_at(p, i);
    }
}

proof fn lemma_map_of_remove<T>(v: Seq<(String, T)>, i: int)
    requires
        unique_keys(v),
        0 <= i < v.len(),
    ensures
        map_of(v.remove(i)) == map_of(v).remove(v[i].0@),
        unique_keys(v.remove(i)),
    decreases v.len(),
{
    let k = v[i].0@;
    let p = v.drop_last();
    if i == v.len() - 1 {
        assert(v.remove(i) =~= p);
        lemma_map_of_dom(p);
        assert(!has_key(p, k));
        assert(map_of(v).remove(k) =~= map_of(p));
    } else {
        assert(p[i] == v[i]);
        lemma_map_of_remove(p, i);
        assert(v.remove(i).drop_last() =~= p.remove(i));
        assert(v.remove(i).last() == v.last());
        assert(v.last().0@ != k);
        assert(map_of(v.remove(i)) =~= map_of(v).remove(k));
    }
}

/// `t` is stored in `m` under some key.
pub open spec fn is_value_of<T>(m: Map<Seq<char>, T>, t: T) -> bool {
    exists|k: Seq<char>| #[trigger] m.contains_key(k) && m[k] == t
}

/// Position of the entry under `k`, if there is one.
fn position<T>(v: &Vec<(String, T)>, k: &String) -> (r: Option<usize>)
    ensures
        r matches Some(i) ==> i < v@.len() && v@[i as int].0@ == k@,
        r is None ==> !has_key(v@, k@),
{
    let mut i: usize = 0;
    while i < v.len()
        invariant
            i <= v@.len(),
            forall|j: int| 0 <= j < i ==> v@[j].0@ != k@,
        decreases v@.len() - i,
    {
        if v[i].0 == *k {
            return Some(i);
        }
        i = i + 1;
    }
    None
}

/// Remove the entry under `k` from a keyed list, handing back its value.
fn take_keyed<T>(v: &mut Vec<(String, T)>, k: &String) -> (r: Option<T>)
    requires
        unique_keys(old(v)@),
    ensures
        unique_keys(final(v)@),
        r == map_of(old(v)@).get(k@),
        map_of(final(v)@) == map_of(old(v)@).remove(k@),
{
    proof {
        lemma_map_of_dom(v@);
    }
    match position(v, k) {
        None => {
            assert(map_of(v@).remove(k@) =~= map_of(v@));
            None
        },
        Some(i) => {
            proof {
                lemma_map_of_at(v@, i as int);
                lemma_map_of_remove(v@, i as int);
            }
            let (_, e) = v.remove(i);
            Some(e)
        },
    }
}

/// Add an entry under a key that is not present.
fn push_keyed<T>(v: &mut Vec<(String, T)>, k: String, x: T)
    requires
        unique_keys(old(v)@),
        !map_of(old(v)@).contains_key(k@),
    ensures
        unique_keys(final(v)@),
        map_of(final(v)@) == map_of(old(v)@).insert(k@, x),
{
    proof {
        lemma_map_of_dom(v@);
    }
    let ghost before = v@;
    v.push((k, x));
    assert(v@.drop_last() =~= before);
    assert forall|i: int, j: int| 0 <= i < j < v@.len() implies v@[i].0@ != v@[j].0@ by {
        if j == before.len() {
            assert(v@[i] == before[i]);
        } else {
            assert(v@[i] == before[i]);
            assert(v@[j] == before[j]);
        }
    }
}

/// Incoming calls waiting for the user and the active call, keyed by Call-ID.
pub struct CallRegistry<P, A> {
    pending: Vec<(String, P)>,
    active: Option<(String, A)>,
}

impl<P, A> CallRegistry<P, A> {
    /// The pending Call-IDs are distinct, and the active call is not among them.
    pub closed spec fn wf(&self) -> bool {
        &&& unique_keys(self.pending@)
        &&& (self.active matches Some(a) ==> !map_of(self.pending@).contains_key(a.0@))
    }

    /// The pending calls, by Call-ID.
    pub closed spec fn pending_map(&self) -> Map<Seq<char>, P> {
        map_of(self.pending@)
    }

    pub open spec fn pending_ids(&self) -> Set<Seq<char>> {
        self.pending_map().dom()
    }

    /// The active call and its Call-ID.
    pub closed spec fn active_call(&self) -> Option<(Seq<char>, A)> {
        match self.active {
            Some(a) => Some((a.0@, a.1)),
            None => None,
        }
    }

    pub open spec fn active_id(&self) -> Option<Seq<char>> {
        match self.active_call() {
            Some(a) => Some(a.0),
            None => None,
        }
    }

    pub fn new() -> (r: Self)
        ensures
            r.wf(),
            r.pending_map() == Map::<Seq<char>, P>::empty(),
            r.active_call() is None,
    {
        CallRegistry { pending: Vec::new(), active: None }
    }

    pub fn is_pending(&self, call_id: &String) -> (r: bool)
        ensures
            r == self.pending_ids().contains(call_id@),
    {
        proof {
            lemma_map_of_dom(self.pending@);
        }
        position(&self.pending, call_id).is_some()
    }

    /// Record an incoming call. A retransmitted INVITE (already pending) or
    /// one for the active call is refused and the entry handed back.
    pub fn add_pending(&mut self, call_id: String, entry: P) -> (r: Result<(), P>)
        requires
            old(self).wf(),
        ensures
            final(self).wf(),
            final(self).active_call() == old(self).active_call(),
            (old(self).pending_ids().contains(call_id@) || old(self).active_id() == Some(call_id@))
                ==> r == Err::<(), P>(entry) && final(self).pending_map() == old(self).pending_map(),
            !(old(self).pending_ids().contains(call_id@) || old(self).active_id() == Some(call_id@))
                ==> r is Ok && final(self).pending_map() == old(self).pending_map().insert(call_id@, entry),
    {
        proof {
            lemma_map_of_dom(self.pending@);
        }
        let known = match &self.active {
            Some(a) => a.0 == call_id,
            None => false,
        };
        if known || position(&self.pending, &call_id).is_some() {
            return Err(entry);
        }
        push_keyed(&mut self.pending, call_id, entry);
        Ok(())
    }

    /// Take the pending call `call_id` (the user answered or rejected it):
    /// the entry recorded under that Call-ID.
    pub fn take_pending(&mut self, call_id: &String) -> (r: Option<P>)
        requires
            old(self).wf(),
        ensures
            final(self).wf(),
            final(self).active_call() == old(self).active_call(),
            r == old(self).pending_map().get(call_id@),
            final(self).pending_map() == old(self).pending_map().remove(call_id@),
    {
        take_keyed(&mut self.pending, call_id)
    }

    /// Make `call_id` the active call. A call still pending under that
    /// Call-ID is refused and the entry handed back; otherwise the previous
    /// active call, if any, is handed back for teardown.
    pub fn set_active(&mut self, call_id: String, call: A) -> (r: Result<Option<(String, A)>, A>)
        requires
            old(self).wf(),
        ensures
            final(self).wf(),
            final(self).pending_map() == old(self).pending_map(),
            old(self).pending_ids().contains(call_id@) ==> r == Err::<Option<(String, A)>, A>(call)
                && final(self).active_call() == old(self).active_call(),
            !old(self).pending_ids().contains(call_id@) ==> final(self).active_call() == Some(
                (call_id@, call),
            ) && (r matches Ok(prev) && match prev {
                Some(p) => old(self).active_call() == Some((p.0@, p.1)),
                None => old(self).active_call() is None,
            }),
    {
        proof {
            lemma_map_of_dom(self.pending@);
        }
        if position(&self.pending, &call_id).is_some() {
            return Err(call);
        }
        let prev = self.active.take();
        self.active = Some((call_id, call));
        Ok(prev)
    }

    /// Take the active call (hang-up): afterwards there is none.
    pub fn take_active(&mut self) -> (r: Option<(String, A)>)
        requires
            old(self).wf(),
        ensures
            final(self).wf(),
            final(self).pending_map() == old(self).pending_map(),
            final(self).active_call() is None,
            match r {
                Some(a) => old(self).active_call() == Some((a.0@, a.1)),
                None => old(self).active_call() is None,
            },
    {
        self.active.take()
    }

    /// The active call, if any.
    pub fn active(&self) -> (r: Option<&A>)
        ensures
            match r {
                Some(a) => self.active_call() matches Some(c) && c.1 == *a,
                None => self.active_call() is None,
            },
    {
        match &self.active {
            Some(a) => Some(&a.1),
            None => None,
        }
    }
}

/// In every state the registry reaches, at most one call is active and it
/// is not also waiting as a pending incoming call.
pub proof fn lemma_active_excludes_pending<P, A>(r: CallRegistry<P, A>)
    requires
        r.wf(),
    ensures
        r.active_id() matches Some(id) ==> !r.pending_ids().contains(id),
{
}

/// The cancellation handles of calls being set up or running, keyed by
/// dialog id (or a fixed key for an outbound call before its dialog exists).
pub struct CallTokens<T> {
    entries: Vec<(String, T)>,
}

/// The key of an outbound call's handle until its dialog id is known.
pub open spec fn pending_outbound_key() -> Seq<char> {
    "pending_outbound"@
}

impl<T> CallTokens<T> {
    pub closed spec fn wf(&self) -> bool {
        unique_keys(self.entries@)
    }

    /// The handles, by key.
    pub closed spec fn map(&self) -> Map<Seq<char>, T> {
        map_of(self.entries@)
    }

    pub open spec fn keys(&self) -> Set<Seq<char>> {
        self.map().dom()
    }

    pub fn new() -> (r: Self)
        ensures
            r.wf(),
            r.map() == Map::<Seq<char>, T>::empty(),
    {
        CallTokens { entries: Vec::new() }
    }

    /// Remove and return the handle filed under `key`.
    pub fn remove(&mut self, key: &String) -> (r: Option<T>)
        requires
            old(self).wf(),
        ensures
            final(self).wf(),
            r == old(self).map().get(key@),
            final(self).map() == old(self).map().remove(key@),
    {
        take_keyed(&mut self.entries, key)
    }

    /// File `token` under `key`, handing back the handle it replaces.
    pub fn insert(&mut self, key: String, token: T) -> (r: Option<T>)
        requires
            old(self).wf(),
        ensures
            final(self).wf(),
            r == old(self).map().get(key@),
            final(self).map() == old(self).map().insert(key@, token),
    {
        let prev = take_keyed(&mut self.entries, &key);
        let ghost mid = map_of(self.entries@);
        push_keyed(&mut self.entries, key, token);
        assert(mid.insert(key@, token) =~= old(self).map().insert(key@, token));
        prev
    }

    /// Take every handle (hang-up while no call is active): exactly the
    /// stored handles come back, each once, and none is left.
    pub fn drain(&mut self) -> (r: Vec<T>)
        requires
            old(self).wf(),
        ensures
            final(self).wf(),
            final(self).map() == Map::<Seq<char>, T>::empty(),
            r@.len() == old(self).map().dom().len(),
            forall|k: Seq<char>| #[trigger] old(self).map().contains_key(k) ==> exists|i: int|
                0 <= i < r@.len() && r@[i] == old(self).map()[k],
            forall|i: int| 0 <= i < r@.len() ==> is_value_of(old(self).map(), #[trigger] r@[i]),
    {
        let ghost orig = self.entries@;
        proof {
            lemma_map_of_dom(orig);
            lemma_map_of_card(orig);
        }
        let mut out: Vec<T> = Vec::new();
        while self.entries.len() > 0
            invariant
                unique_keys(self.entries@),
                self.entries@ == orig.subrange(0, self.entries@.len() as int),
                orig.len() == self.entries@.len() + out@.len(),
                forall|i: int| 0 <= i < out@.len() ==> out@[i] == orig[orig.len() - 1 - i].1,
            decreases self.entries@.len(),
        {
            let ghost before = self.entries@;
            let e = self.entries.pop().unwrap();
            assert(self.entries@ =~= orig.subrange(0, self.entries@.len() as int));
            out.push(e.1);
        }
        proof {
            assert forall|k: Seq<char>| #[trigger] map_of(orig).contains_key(k) implies exists|i: int|
                0 <= i < out@.len() && out@[i] == map_of(orig)[k] by {
                let j = choose|j: int| 0 <= j < orig.len() && (#[trigger] orig[j]).0@ == k;
                lemma_map_of_at(orig, j);
                assert(out@[orig.len() - 1 - j] == orig[j].1);
            }
            assert forall|i: int| 0 <= i < out@.len() implies is_value_of(map_of(orig), #[trigger] out@[i]) by {
                let j = orig.len() - 1 - i;
                lemma_map_of_at(orig, j);
            }
        }
        out
    }

    pub fn len(&self) -> (r: usize)
        requires
            self.wf(),
        ensures
            r == self.map().dom().len(),
    {
        proof {
            lemma_map_of_card(self.entries@);
        }
        self.entries.len()
    }
}

proof fn lemma_map_of_card<T>(v: Seq<(String, T)>)
    requires
        unique_keys(v),
    ensures
        map_of(v).dom().finite(),
        map_of(v).dom().len() == v.len(),
    decreases v.len(),
{
    if v.len() > 0 {
        let p = v.drop_last();
        assert(unique_keys(p));
        lemma_map_of_card(p);
        lemma_map_of_dom(p);
        assert(!has_key(p, v.last().0@));
        assert(map_of(v).dom() =~= map_of(p).dom().insert(v.last().0@));
    }
}

} // verus!
