//! The process-wide session store.
//!
//! Maps client identity to its session, owns every session exclusively,
//! creates entries on first contact, and treats entries that have not been
//! reached for `IDLE_WINDOW` time units as absent: a later call finds a
//! fresh, unbound session with no memory of the old one.

use vstd::prelude::*;

use crate::assoc::{assoc_map, distinct_keys, find_index, has_key, lemma_assoc_dom,
    lemma_assoc_index, lemma_assoc_len, lemma_assoc_push, lemma_assoc_update};
use crate::bucket::RateBucket;
use crate::errors::GateError;
use crate::liveness::LivenessIndex;
use crate::rules::{RuleRegistry, ServiceRule};
use crate::session::{ClientState, ClientStateView};

verus! {

/// Entries unreached for this many time units are treated as gone.
pub const IDLE_WINDOW: u64 = 600;

/// The session list with each session replaced by its abstract state.
spec fn vpairs(s: Seq<(String, ClientState)>) -> Seq<(String, ClientStateView)> {
    s.map_values(|p: (String, ClientState)| (p.0, p.1@))
}

proof fn lemma_vp(s: Seq<(String, ClientState)>)
    ensures
        vpairs(s).len() == s.len(),
        forall|i: int| 0 <= i < s.len() ==> #[trigger] vpairs(s)[i] == (s[i].0, s[i].1@),
{
}

proof fn lemma_store_dom(s: Seq<(String, ClientState)>)
    ensures
        forall|k: Seq<char>| #[trigger] assoc_map(vpairs(s)).dom().contains(k) <==> has_key(s, k),
{
    lemma_vp(s);
    lemma_assoc_dom(vpairs(s));
    assert forall|k: Seq<char>| #[trigger] assoc_map(vpairs(s)).dom().contains(k) implies has_key(
        s,
        k,
    ) by {
        let i = choose|i: int| 0 <= i < vpairs(s).len() && vpairs(s)[i].0@ == k;
        assert(s[i].0@ == k);
    }
    assert forall|k: Seq<char>| has_key(s, k) implies #[trigger] assoc_map(
        vpairs(s),
    ).dom().contains(k) by {
        let i = choose|i: int| 0 <= i < s.len() && s[i].0@ == k;
        assert(vpairs(s)[i].0@ == k);
    }
}

proof fn lemma_store_index(s: Seq<(String, ClientState)>, i: int)
    requires
        distinct_keys(s),
        0 <= i < s.len(),
    ensures
        assoc_map(vpairs(s)).dom().contains(s[i].0@),
        assoc_map(vpairs(s))[s[i].0@] == s[i].1@,
{
    lemma_vp(s);
    assert(distinct_keys(vpairs(s)));
    lemma_assoc_index(vpairs(s), i);
}

proof fn lemma_store_update(s: Seq<(String, ClientState)>, i: int, cs: ClientState)
    requires
        distinct_keys(s),
        0 <= i < s.len(),
    ensures
        distinct_keys(s.update(i, (s[i].0, cs))),
        assoc_map(vpairs(s.update(i, (s[i].0, cs)))) == assoc_map(vpairs(s)).insert(
            s[i].0@,
            cs@,
        ),
{
    lemma_vp(s);
    let s2 = s.update(i, (s[i].0, cs));
    lemma_vp(s2);
    assert(distinct_keys(vpairs(s)));
    assert(vpairs(s2) =~= vpairs(s).update(i, (s[i].0, cs@)));
    lemma_assoc_update(vpairs(s), i, cs@);
}

proof fn lemma_store_push(s: Seq<(String, ClientState)>, key: String, cs: ClientState)
    requires
        distinct_keys(s),
        !has_key(s, key@),
    ensures
        distinct_keys(s.push((key, cs))),
        assoc_map(vpairs(s.push((key, cs)))) == assoc_map(vpairs(s)).insert(key@, cs@),
{
    lemma_vp(s);
    let s2 = s.push((key, cs));
    lemma_vp(s2);
    assert(distinct_keys(vpairs(s)));
    if has_key(vpairs(s), key@) {
        let i = choose|i: int| 0 <= i < vpairs(s).len() && vpairs(s)[i].0@ == key@;
        assert(s[i].0@ == key@);
        assert(false);
    }
    assert(vpairs(s2) =~= vpairs(s).push((key, cs@)));
    lemma_assoc_push(vpairs(s), key, cs@);
}

/// Whether the store, seen as a map, still holds a usable entry for `k` at
/// `now`: present and reached within the idle window.
pub open spec fn spec_live(m: Map<Seq<char>, ClientStateView>, k: Seq<char>, now: u64) -> bool {
    m.dom().contains(k) && !m[k].spec_is_idle(now, IDLE_WINDOW)
}

/// The session a lookup at `now` finds: the stored one while it is live,
/// else a fresh session with no memory of the old binding or buckets.
pub open spec fn spec_entry_or_fresh(
    m: Map<Seq<char>, ClientStateView>,
    k: Seq<char>,
    now: u64,
) -> ClientStateView {
    if spec_live(m, k, now) {
        m[k]
    } else {
        ClientStateView::spec_new(now)
    }
}

/// One admit-and-bind step on a session: refresh the stamp, then bind the
/// address first-writer-wins, marking the session connected on success.
pub open spec fn spec_admit(s0: ClientStateView, ip: Seq<char>, now: u64) -> (ClientStateView,
    Result<(), GateError>) {
    let s1 = s0.touched(now);
    match s1.bound_ip {
        None => (
            ClientStateView { bound_ip: Some(ip), connected: true, ..s1 },
            Ok::<(), GateError>(()),
        ),
        Some(b) => if b == ip {
            (ClientStateView { connected: true, ..s1 }, Ok::<(), GateError>(()))
        } else {
            (s1, Err::<(), GateError>(GateError::AddressMismatch))
        },
    }
}

/// The session provisioned for a client's very first contact: bound,
/// connected, and holding one full bucket for the named service.
pub open spec fn spec_provisioned(
    ip: Seq<char>,
    service: Seq<char>,
    rule: ServiceRule,
    now: u64,
) -> ClientStateView {
    ClientStateView {
        bound_ip: Some(ip),
        connected: true,
        buckets: Map::<Seq<char>, RateBucket>::empty().insert(
            service,
            RateBucket::spec_new(rule, now),
        ),
        last_active: now,
    }
}

/// The store: client identity to session, sole owner of every session.
pub struct GlobalStateManager {
    entries: Vec<(String, ClientState)>,
}

impl View for GlobalStateManager {
    type V = Map<Seq<char>, ClientStateView>;

    closed spec fn view(&self) -> Map<Seq<char>, ClientStateView> {
        assoc_map(vpairs(self.entries@))
    }
}

impl GlobalStateManager {
    pub closed spec fn inv(&self) -> bool {
        distinct_keys(self.entries@) && forall|i: int|
            0 <= i < self.entries@.len() ==> (#[trigger] self.entries@[i].1).inv()
    }

    /// An empty store.
    pub fn new() -> (r: GlobalStateManager)
        ensures
            r.inv(),
            r@ == Map::<Seq<char>, ClientStateView>::empty(),
    {
        GlobalStateManager { entries: Vec::new() }
    }

    /// Place the entry for `uuid` at a definite index, creating a fresh
    /// session when none is live, and hand back that index.
    fn settle(&mut self, uuid: &String, now: u64) -> (r: usize)
        requires
            old(self).inv(),
        ensures
            final(self).inv(),
            r < final(self).entries@.len(),
            final(self).entries@[r as int].0@ == uuid@,
            final(self).entries@[r as int].1@ == spec_entry_or_fresh(old(self)@, uuid@, now),
            final(self).entries@[r as int].1.inv(),
            final(self)@ == old(self)@.insert(uuid@, spec_entry_or_fresh(old(self)@, uuid@, now)),
    {
        match find_index(&self.entries, uuid) {
            Some(i) => {
                proof {
                    lemma_store_index(self.entries@, i as int);
                }
                if self.entries[i].1.is_expired(now, IDLE_WINDOW) {
                    let fresh = ClientState::new(now);
                    proof {
                        lemma_store_update(self.entries@, i as int, fresh);
                    }
                    self.entries[i].1 = fresh;
                    proof {
                        assert(self.entries@ =~= old(self).entries@.update(
                            i as int,
                            (old(self).entries@[i as int].0, fresh),
                        ));
                    }
                } else {
                    proof {
                        assert(self@ =~= old(self)@.insert(
                            uuid@,
                            spec_entry_or_fresh(old(self)@, uuid@, now),
                        ));
                    }
                }
                i
            },
            None => {
                let fresh = ClientState::new(now);
                proof {
                    lemma_store_dom(self.entries@);
                    lemma_store_push(self.entries@, *uuid, fresh);
                }
                self.entries.push((uuid.clone(), fresh));
                self.entries.len() - 1
            },
        }
    }

    /// Look the session for `uuid` up, creating it if absent or idle-expired;
    /// never constructs a second session for an identity that is still live.
    pub fn get_or_create(&mut self, uuid: &String, now: u64) -> (r: &ClientState)
        requires
            old(self).inv(),
        ensures
            final(self).inv(),
            final(self)@ == old(self)@.insert(uuid@, spec_entry_or_fresh(old(self)@, uuid@, now)),
            r@ == spec_entry_or_fresh(old(self)@, uuid@, now),
    {
        let i = self.settle(uuid, now);
        &self.entries[i].1
    }

    /// Fetch or create the session, refresh its stamp and the liveness
    /// index, then bind or verify the caller's address; an address change
    /// is refused and nothing else of the session is altered.
    pub fn update_client_state(
        &mut self,
        liveness: &mut LivenessIndex,
        uuid: &String,
        ip: &String,
        now: u64,
    ) -> (r: Result<(), GateError>)
        requires
            old(self).inv(),
            old(liveness).inv(),
        ensures
            final(self).inv(),
            final(liveness).inv(),
            final(liveness)@ == old(liveness)@.insert(uuid@, now),
            final(self)@ == old(self)@.insert(
                uuid@,
                spec_admit(spec_entry_or_fresh(old(self)@, uuid@, now), ip@, now).0,
            ),
            r == spec_admit(spec_entry_or_fresh(old(self)@, uuid@, now), ip@, now).1,
    {
        let ghost s0 = spec_entry_or_fresh(old(self)@, uuid@, now);
        let i = self.settle(uuid, now);
        let ghost pre1 = self.entries@;
        self.entries[i].1.update_last_active(now);
        proof {
            lemma_store_update(pre1, i as int, self.entries@[i as int].1);
            let ghost cs1 = self.entries@[i as int].1;
            assert(self.entries@ =~= pre1.update(i as int, (pre1[i as int].0, cs1)));
        }
        liveness.touch(uuid, now);
        let ghost pre2 = self.entries@;
        let bound = self.entries[i].1.bind_or_verify_address(ip);
        proof {
            lemma_store_update(pre2, i as int, self.entries@[i as int].1);
            let ghost cs2 = self.entries@[i as int].1;
            assert(self.entries@ =~= pre2.update(i as int, (pre2[i as int].0, cs2)));
        }
        match bound {
            Ok(()) => {
                let ghost pre3 = self.entries@;
                self.entries[i].1.mark_connected();
                proof {
                    lemma_store_update(pre3, i as int, self.entries@[i as int].1);
                    assert(self.entries@ =~= pre3.update(i as int, (pre3[i as int].0,
                        self.entries@[i as int].1)));
                    assert(self.entries@[i as int].1@ =~= spec_admit(s0, ip@, now).0);
                    assert(self@ =~= old(self)@.insert(uuid@, spec_admit(s0, ip@, now).0));
                }
                Ok(())
            },
            Err(e) => {
                proof {
                    assert(self.entries@[i as int].1@ =~= spec_admit(s0, ip@, now).0);
                    assert(self@ =~= old(self)@.insert(uuid@, spec_admit(s0, ip@, now).0));
                }
                Err(e)
            },
        }
    }

    /// Provision a client's very first contact for a named service: bind
    /// the address, build the one bucket eagerly, mark connected, note the
    /// client on the liveness index. Consumes no token: the first call of a
    /// brand-new client is admitted regardless of quota.
    pub fn init_client_state(
        &mut self,
        liveness: &mut LivenessIndex,
        uuid: &String,
        ip: &String,
        service_name: &String,
        rules: &RuleRegistry,
        now: u64,
    ) -> (r: Result<(), GateError>)
        requires
            old(self).inv(),
            old(liveness).inv(),
            rules.wf(),
        ensures
            final(self).inv(),
            final(liveness).inv(),
            match r {
                Ok(()) => rules@.dom().contains(service_name@) && final(self)@ == old(
                    self,
                )@.insert(
                    uuid@,
                    spec_provisioned(ip@, service_name@, rules@[service_name@], now),
                ) && final(liveness)@ == old(liveness)@.insert(uuid@, now),
                Err(e) => e == GateError::RuleNotFound && !rules@.dom().contains(service_name@)
                    && final(self)@ == old(self)@ && final(liveness)@ == old(liveness)@,
            },
    {
        match rules.get(service_name) {
            None => Err(GateError::RuleNotFound),
            Some(_) => {
                let mut cs = ClientState::new(now);
                let bind_ok = cs.bind_or_verify_address(ip);
                proof {
                    assert(bind_ok is Ok);
                }
                let bucket_ok = cs.get_or_create_bucket(service_name, rules, now);
                proof {
                    assert(bucket_ok is Ok);
                }
                cs.mark_connected();
                proof {
                    assert(cs@ =~= spec_provisioned(
                        ip@,
                        service_name@,
                        rules@[service_name@],
                        now,
                    ));
                }
                match find_index(&self.entries, uuid) {
                    Some(i) => {
                        proof {
                            lemma_store_update(self.entries@, i as int, cs);
                        }
                        self.entries[i].1 = cs;
                        proof {
                            assert(self.entries@ =~= old(self).entries@.update(
                                i as int,
                                (old(self).entries@[i as int].0, cs),
                            ));
                        }
                    },
                    None => {
                        proof {
                            lemma_store_dom(self.entries@);
                            lemma_store_push(self.entries@, *uuid, cs);
                        }
                        self.entries.push((uuid.clone(), cs));
                    },
                }
                liveness.touch(uuid, now);
                Ok(())
            },
        }
    }

    /// Flip the liveness flag off and take the identity off the liveness
    /// index; the session entry itself, its binding and its buckets stay
    /// until idle expiry.
    pub fn release_conn(&mut self, liveness: &mut LivenessIndex, uuid: &String, now: u64)
        requires
            old(self).inv(),
            old(liveness).inv(),
        ensures
            final(self).inv(),
            final(liveness).inv(),
            spec_live(old(self)@, uuid@, now) ==> final(self)@ == old(self)@.insert(
                uuid@,
                (ClientStateView { connected: false, ..old(self)@[uuid@] }),
            ) && final(liveness)@ == old(liveness)@.remove(uuid@),
            !spec_live(old(self)@, uuid@, now) ==> final(self)@ == old(self)@ && final(liveness)@
                == old(liveness)@,
    {
        match find_index(&self.entries, uuid) {
            Some(i) => {
                proof {
                    lemma_store_index(self.entries@, i as int);
                }
                if !self.entries[i].1.is_expired(now, IDLE_WINDOW) {
                    let ghost pre = self.entries@;
                    self.entries[i].1.mark_disconnected();
                    proof {
                        lemma_store_update(pre, i as int, self.entries@[i as int].1);
                        assert(self.entries@ =~= pre.update(i as int, (pre[i as int].0,
                            self.entries@[i as int].1)));
                        assert(self.entries@[i as int].1@ =~= (ClientStateView {
                            connected: false,
                            ..old(self)@[uuid@]
                        }));
                    }
                    liveness.remove(uuid);
                }
            },
            None => {
                proof {
                    lemma_store_dom(self.entries@);
                }
            },
        }
    }

    /// `release_conn`, under the name used when the server side forces the
    /// disconnect rather than the client signalling it.
    pub fn force_disconnect(&mut self, liveness: &mut LivenessIndex, uuid: &String, now: u64)
        requires
            old(self).inv(),
            old(liveness).inv(),
        ensures
            final(self).inv(),
            final(liveness).inv(),
            spec_live(old(self)@, uuid@, now) ==> final(self)@ == old(self)@.insert(
                uuid@,
                (ClientStateView { connected: false, ..old(self)@[uuid@] }),
            ) && final(liveness)@ == old(liveness)@.remove(uuid@),
            !spec_live(old(self)@, uuid@, now) ==> final(self)@ == old(self)@ && final(liveness)@
                == old(liveness)@,
    {
        self.release_conn(liveness, uuid, now)
    }

    /// Whether a live entry for the identity exists at `now`.
    pub fn contains_live(&self, uuid: &String, now: u64) -> (r: bool)
        requires
            self.inv(),
        ensures
            r == spec_live(self@, uuid@, now),
    {
        proof {
            lemma_store_dom(self.entries@);
        }
        match find_index(&self.entries, uuid) {
            Some(i) => {
                proof {
                    lemma_store_index(self.entries@, i as int);
                }
                !self.entries[i].1.is_expired(now, IDLE_WINDOW)
            },
            None => false,
        }
    }

    /// Try to take one token from the live session's bucket for `service`,
    /// building the bucket from the quota table on first use. Touches
    /// nothing else of the session: no stamp, no binding, no flag.
    pub fn consume_token(
        &mut self,
        uuid: &String,
        service: &String,
        rules: &RuleRegistry,
        now: u64,
    ) -> (r: Result<(), GateError>)
        requires
            old(self).inv(),
            rules.wf(),
            spec_live(old(self)@, uuid@, now),
        ensures
            final(self).inv(),
            !rules@.dom().contains(service@) && !old(self)@[uuid@].buckets.dom().contains(service@)
                ==> r == Err::<(), GateError>(GateError::RuleNotFound) && final(self)@ == old(
                self,
            )@,
            rules@.dom().contains(service@) || old(self)@[uuid@].buckets.dom().contains(service@)
                ==> {
                let s = old(self)@[uuid@];
                let before = ClientState::bucket_before(s, rules@[service@], service@, now);
                let (granted, after) = before.spec_consume(now);
                &&& r == if granted {
                    Ok::<(), GateError>(())
                } else {
                    Err::<(), GateError>(GateError::QuotaExceeded)
                }
                &&& final(self)@ == old(self)@.insert(
                    uuid@,
                    (ClientStateView { buckets: s.buckets.insert(service@, after), ..s }),
                )
            },
    {
        proof {
            lemma_store_dom(self.entries@);
        }
        match find_index(&self.entries, uuid) {
            Some(i) => {
                proof {
                    lemma_store_index(self.entries@, i as int);
                }
                let ghost pre = self.entries@;
                let r = self.entries[i].1.try_consume_token(service, rules, now);
                proof {
                    lemma_store_update(pre, i as int, self.entries@[i as int].1);
                    let ghost cs = self.entries@[i as int].1;
                    assert(self.entries@ =~= pre.update(i as int, (pre[i as int].0, cs)));
                    if r is Err && r->Err_0 == GateError::RuleNotFound {
                        assert(self@ =~= old(self)@);
                    }
                }
                r
            },
            None => {
                proof {
                    assert(false);
                }
                Err(GateError::Internal)
            },
        }
    }

    /// True iff a live entry exists for the identity and its flag says
    /// connected.
    pub fn is_connection_valid(&self, uuid: &String, now: u64) -> (r: bool)
        requires
            self.inv(),
        ensures
            r == (spec_live(self@, uuid@, now) && self@[uuid@].connected),
    {
        proof {
            lemma_store_dom(self.entries@);
        }
        match find_index(&self.entries, uuid) {
            Some(i) => {
                proof {
                    lemma_store_index(self.entries@, i as int);
                }
                !self.entries[i].1.is_expired(now, IDLE_WINDOW) && self.entries[i].1.is_connected()
            },
            None => false,
        }
    }

    /// How many identities the store physically holds, live or idle.
    pub fn session_count(&self) -> (r: usize)
        requires
            self.inv(),
        ensures
            r == self@.dom().len(),
    {
        proof {
            lemma_vp(self.entries@);
            assert(distinct_keys(vpairs(self.entries@)));
            lemma_assoc_len(vpairs(self.entries@));
        }
        self.entries.len()
    }

    /// The token count of the bucket for (`uuid`, `service`), if both exist.
    pub fn bucket_tokens(&self, uuid: &String, service: &String) -> (r: Option<u64>)
        requires
            self.inv(),
        ensures
            match r {
                Some(t) => self@.dom().contains(uuid@) && self@[uuid@].buckets.dom().contains(
                    service@,
                ) && t == self@[uuid@].buckets[service@].tokens,
                None => !self@.dom().contains(uuid@) || !self@[uuid@].buckets.dom().contains(
                    service@,
                ),
            },
    {
        proof {
            lemma_store_dom(self.entries@);
        }
        match find_index(&self.entries, uuid) {
            Some(i) => {
                proof {
                    lemma_store_index(self.entries@, i as int);
                }
                self.entries[i].1.bucket_tokens(service)
            },
            None => None,
        }
    }

    /// The address the identity is bound to, if it is stored and bound.
    pub fn bound_ip_of(&self, uuid: &String) -> (r: Option<String>)
        requires
            self.inv(),
        ensures
            match r {
                Some(ip) => self@.dom().contains(uuid@) && self@[uuid@].bound_ip == Some(ip@),
                None => !self@.dom().contains(uuid@) || self@[uuid@].bound_ip is None,
            },
    {
        proof {
            lemma_store_dom(self.entries@);
        }
        match find_index(&self.entries, uuid) {
            Some(i) => {
                proof {
                    lemma_store_index(self.entries@, i as int);
                }
                match self.entries[i].1.bound_ip() {
                    Some(ip) => Some(ip.clone()),
                    None => None,
                }
            },
            None => None,
        }
    }

    /// When a call last reached the stored session, if one is stored.
    pub fn last_active_of(&self, uuid: &String) -> (r: Option<u64>)
        requires
            self.inv(),
        ensures
            match r {
                Some(t) => self@.dom().contains(uuid@) && t == self@[uuid@].last_active,
                None => !self@.dom().contains(uuid@),
            },
    {
        proof {
            lemma_store_dom(self.entries@);
        }
        match find_index(&self.entries, uuid) {
            Some(i) => {
                proof {
                    lemma_store_index(self.entries@, i as int);
                }
                Some(self.entries[i].1.last_active())
            },
            None => None,
        }
    }
}

} // verus!
