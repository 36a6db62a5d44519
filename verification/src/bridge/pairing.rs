//! One-time pairing of local companions: short-lived challenges are issued,
//! each can be redeemed once for a session credential, and credentials are
//! recognised until they expire. Both sets are bounded; when full, the entry
//! that expires first gives way.
use vstd::prelude::*;
use crate::bridge::auth::{nonce_of, opaque_nonce, MAX_PAIRING_SESSIONS, MAX_PENDING_PAIRING_CHALLENGES, PAIRING_CHALLENGE_TTL_MS, PAIRING_SESSION_TTL_MS};

verus! {

/// Each credential occurs once.
pub open spec fn keys_unique(v: Seq<(String, i64)>) -> bool {
    forall|a: int, b: int| 0 <= a < b < v.len() ==> (#[trigger] v[a]).0@ != (#[trigger] v[b]).0@
}

/// When the credential `k` expires, if it is held.
pub open spec fn expiry_of(v: Seq<(String, i64)>, k: Seq<char>) -> Option<i64> {
    if exists|i: int| 0 <= i < v.len() && (#[trigger] v[i]).0@ == k {
        Some(v[choose|i: int| 0 <= i < v.len() && (#[trigger] v[i]).0@ == k].1)
    } else {
        None
    }
}

/// An expiry that is still in the future at `now`.
pub open spec fn unexpired(e: Option<i64>, now: i64) -> Option<i64> {
    if e is Some && e->0 > now { e } else { None }
}

/// The saturating sum of two `i64` values.
pub open spec fn sat_add_i64(a: i64, b: i64) -> i64 {
    if a + b > i64::MAX { i64::MAX } else if a + b < i64::MIN { i64::MIN } else { (a + b) as i64 }
}

pub proof fn lemma_expiry_at(v: Seq<(String, i64)>, i: int)
    requires
        keys_unique(v),
        0 <= i < v.len(),
    ensures
        expiry_of(v, v[i].0@) == Some(v[i].1),
{
    let k = v[i].0@;
    assert(v[i].0@ == k);
    let j = choose|j: int| 0 <= j < v.len() && (#[trigger] v[j]).0@ == k;
    if j != i {
        if j < i {
            assert(v[j].0@ != v[i].0@);
        } else {
            assert(v[i].0@ != v[j].0@);
        }
    }
}

/// Removing one entry forgets its credential and keeps the others.
pub proof fn lemma_expiry_remove(v: Seq<(String, i64)>, i: int)
    requires
        keys_unique(v),
        0 <= i < v.len(),
    ensures
        keys_unique(v.remove(i)),
        forall|k: Seq<char>| expiry_of(v.remove(i), k) == if k == v[i].0@ { None } else { expiry_of(v, k) },
{
    let t = v.remove(i);
    assert forall|a: int, b: int| 0 <= a < b < t.len() implies (#[trigger] t[a]).0@ != (#[trigger] t[b]).0@ by {
        let x = if a < i { a } else { a + 1 };
        let y = if b < i { b } else { b + 1 };
        assert(t[a] == v[x] && t[b] == v[y]);
        assert(v[x].0@ != v[y].0@);
    }
    assert forall|k: Seq<char>| expiry_of(t, k) == if k == v[i].0@ { None } else { expiry_of(v, k) } by {
        if exists|a: int| 0 <= a < t.len() && (#[trigger] t[a]).0@ == k {
            let a = choose|a: int| 0 <= a < t.len() && (#[trigger] t[a]).0@ == k;
            let x = if a < i { a } else { a + 1 };
            assert(t[a] == v[x]);
            lemma_expiry_at(t, a);
            lemma_expiry_at(v, x);
            if k == v[i].0@ {
                assert(x != i);
                if x < i { assert(v[x].0@ != v[i].0@); } else { assert(v[i].0@ != v[x].0@); }
            }
        } else {
            if k != v[i].0@ && exists|x: int| 0 <= x < v.len() && (#[trigger] v[x]).0@ == k {
                let x = choose|x: int| 0 <= x < v.len() && (#[trigger] v[x]).0@ == k;
                let a = if x < i { x } else { x - 1 };
                assert(x != i);
                assert(t[a] == v[x]);
            }
        }
    }
}

/// The position of credential `key`, if held.
fn find_entry(v: &Vec<(String, i64)>, key: &String) -> (r: Option<usize>)
    requires
        keys_unique(v@),
    ensures
        r matches Some(i) ==> i < v@.len() && v@[i as int].0@ == key@,
        r is None <==> expiry_of(v@, key@) is None,
{
    let mut i: usize = 0;
    while i < v.len()
        invariant
            i <= v@.len(),
            forall|k: int| 0 <= k < i ==> (#[trigger] v@[k]).0@ != key@,
        decreases v@.len() - i,
    {
        if v[i].0 == *key {
            return Some(i);
        }
        i = i + 1;
    }
    None
}

/// Forgets the entries that have expired at `now`.
fn expire_entries(v: &mut Vec<(String, i64)>, now: i64)
    requires
        keys_unique(old(v)@),
    ensures
        keys_unique(final(v)@),
        final(v)@.len() <= old(v)@.len(),
        forall|k: Seq<char>| expiry_of(final(v)@, k) == unexpired(expiry_of(old(v)@, k), now),
        forall|i: int| 0 <= i < final(v)@.len() ==> (#[trigger] final(v)@[i]).1 > now,
{
    let ghost original = v@;
    let mut i: usize = 0;
    while i < v.len()
        invariant
            i <= v@.len(),
            v@.len() <= original.len(),
            keys_unique(v@),
            forall|k: Seq<char>| #[trigger] expiry_of(v@, k) is None ==> unexpired(expiry_of(original, k), now) is None,
            forall|a: int| 0 <= a < i ==> (#[trigger] v@[a]).1 > now,
            forall|a: int| 0 <= a < v@.len() ==> expiry_of(original, (#[trigger] v@[a]).0@) == Some(v@[a].1),
        decreases v@.len() - i,
    {
        let ghost before = v@;
        proof { lemma_expiry_at(before, i as int); }
        if v[i].1 <= now {
            proof { lemma_expiry_remove(before, i as int); }
            v.remove(i);
            proof {
                assert forall|a: int| 0 <= a < v@.len() implies expiry_of(original, (#[trigger] v@[a]).0@) == Some(v@[a].1) by {
                    let x = if a < i { a } else { a + 1 };
                    assert(v@[a] == before[x]);
                }
                assert forall|a: int| 0 <= a < i implies (#[trigger] v@[a]).1 > now by {
                    assert(v@[a] == before[a]);
                }
            }
        } else {
            i = i + 1;
        }
    }
    proof {
        assert forall|k: Seq<char>| expiry_of(v@, k) == unexpired(expiry_of(original, k), now) by {
            if exists|a: int| 0 <= a < v@.len() && (#[trigger] v@[a]).0@ == k {
                let a = choose|a: int| 0 <= a < v@.len() && (#[trigger] v@[a]).0@ == k;
                lemma_expiry_at(v@, a);
            }
        }
    }
}

/// Makes room for one more entry: while the bound is reached, the entry that
/// expires first (the earliest such) gives way.
fn evict_earliest(v: &mut Vec<(String, i64)>, cap: usize)
    requires
        keys_unique(old(v)@),
        cap >= 1,
    ensures
        keys_unique(final(v)@),
        final(v)@.len() == if old(v)@.len() >= cap { (cap - 1) as nat } else { old(v)@.len() },
        forall|k: Seq<char>| expiry_of(final(v)@, k) is Some ==> expiry_of(final(v)@, k) == expiry_of(old(v)@, k),
        forall|k: Seq<char>, j: Seq<char>| #![trigger expiry_of(old(v)@, k), expiry_of(final(v)@, j)]
            expiry_of(old(v)@, k) is Some && expiry_of(final(v)@, k) is None && expiry_of(final(v)@, j) is Some
            ==> expiry_of(old(v)@, k)->0 <= expiry_of(final(v)@, j)->0,
{
    let ghost original = v@;
    while v.len() >= cap
        invariant
            cap >= 1,
            keys_unique(v@),
            v@.len() == original.len() || (original.len() >= cap && v@.len() >= cap - 1),
            v@.len() <= original.len(),
            forall|k: Seq<char>| expiry_of(v@, k) is Some ==> expiry_of(v@, k) == expiry_of(original, k),
            forall|k: Seq<char>, j: Seq<char>| #![trigger expiry_of(original, k), expiry_of(v@, j)]
                expiry_of(original, k) is Some && expiry_of(v@, k) is None && expiry_of(v@, j) is Some
                ==> expiry_of(original, k)->0 <= expiry_of(v@, j)->0,
        decreases v@.len(),
    {
        let mut m: usize = 0;
        let mut i: usize = 1;
        while i < v.len()
            invariant
                m < v@.len(),
                1 <= i <= v@.len(),
                m < i,
                forall|a: int| 0 <= a < i ==> v@[m as int].1 <= (#[trigger] v@[a]).1,
            decreases v@.len() - i,
        {
            if v[i].1 < v[m].1 {
                m = i;
            }
            i = i + 1;
        }
        let ghost before = v@;
        proof {
            lemma_expiry_remove(before, m as int);
            lemma_expiry_at(before, m as int);
        }
        v.remove(m);
        proof {
            assert forall|k: Seq<char>, j: Seq<char>| #![trigger expiry_of(original, k), expiry_of(v@, j)]
                expiry_of(original, k) is Some && expiry_of(v@, k) is None && expiry_of(v@, j) is Some
                implies expiry_of(original, k)->0 <= expiry_of(v@, j)->0 by {
                assert(expiry_of(before, j) == expiry_of(v@, j));
                let x = choose|x: int| 0 <= x < before.len() && (#[trigger] before[x]).0@ == j;
                lemma_expiry_at(before, x);
                if k == before[m as int].0@ {
                    assert(expiry_of(original, k) == Some(before[m as int].1));
                } else {
                    assert(expiry_of(before, k) is None);
                }
            }
        }
    }
}

/// Holds `key` with expiry `e`, replacing an entry with the same credential.
fn put_entry(v: &mut Vec<(String, i64)>, key: String, e: i64)
    requires
        keys_unique(old(v)@),
    ensures
        keys_unique(final(v)@),
        final(v)@.len() <= old(v)@.len() + 1,
        forall|k: Seq<char>| expiry_of(final(v)@, k) == if k == key@ { Some(e) } else { expiry_of(old(v)@, k) },
{
    let ghost key_view = key@;
    let found = find_entry(v, &key);
    let ghost before = v@;
    match found {
        Some(i) => {
            proof { lemma_expiry_remove(before, i as int); }
            v.remove(i);
            let ghost mid = v@;
            v.push((key, e));
            proof {
                assert(v@[mid.len() as int].0@ == key_view);
                assert(forall|a: int| 0 <= a < mid.len() ==> v@[a] == mid[a]);
                assert forall|a: int, b: int| 0 <= a < b < v@.len() implies (#[trigger] v@[a]).0@ != (#[trigger] v@[b]).0@ by {
                    if b == mid.len() {
                        assert(expiry_of(mid, key_view) is None);
                        if v@[a].0@ == key_view { assert(mid[a].0@ == key_view); }
                    } else {
                        assert(v@[a] == mid[a] && v@[b] == mid[b]);
                    }
                }
                lemma_expiry_at(v@, mid.len() as int);
                assert(mid == before.remove(i as int));
                assert(before[i as int].0@ == key_view);
                assert forall|k: Seq<char>| expiry_of(v@, k) == if k == key_view { Some(e) } else { expiry_of(before, k) } by {
                    if k != key_view {
                        assert(expiry_of(mid, k) == expiry_of(before, k));
                        if exists|a: int| 0 <= a < mid.len() && (#[trigger] mid[a]).0@ == k {
                            let a = choose|a: int| 0 <= a < mid.len() && (#[trigger] mid[a]).0@ == k;
                            lemma_expiry_at(mid, a);
                            assert(v@[a] == mid[a]);
                            lemma_expiry_at(v@, a);
                        } else if exists|a: int| 0 <= a < v@.len() && (#[trigger] v@[a]).0@ == k {
                            let a = choose|a: int| 0 <= a < v@.len() && (#[trigger] v@[a]).0@ == k;
                            assert(a < mid.len());
                            assert(v@[a] == mid[a]);
                        }
                    }
                }
            }
        },
        None => {
            v.push((key, e));
            proof {
                assert forall|a: int, b: int| 0 <= a < b < v@.len() implies (#[trigger] v@[a]).0@ != (#[trigger] v@[b]).0@ by {
                    if b == before.len() {
                        if v@[a].0@ == key_view { assert(before[a].0@ == key_view); }
                    } else {
                        assert(v@[a] == before[a] && v@[b] == before[b]);
                    }
                }
                lemma_expiry_at(v@, before.len() as int);
                assert forall|k: Seq<char>| expiry_of(v@, k) == if k == key_view { Some(e) } else { expiry_of(before, k) } by {
                    if k != key_view {
                        if exists|a: int| 0 <= a < before.len() && (#[trigger] before[a]).0@ == k {
                            let a = choose|a: int| 0 <= a < before.len() && (#[trigger] before[a]).0@ == k;
                            lemma_expiry_at(before, a);
                            assert(v@[a] == before[a]);
                            lemma_expiry_at(v@, a);
                        } else if exists|a: int| 0 <= a < v@.len() && (#[trigger] v@[a]).0@ == k {
                            let a = choose|a: int| 0 <= a < v@.len() && (#[trigger] v@[a]).0@ == k;
                            assert(a < before.len());
                            assert(v@[a] == before[a]);
                        }
                    }
                }
            }
        },
    }
}


/// `now + ttl`, saturating.
fn expiry_after(now: i64, ttl: i64) -> (r: i64)
    requires
        ttl >= 0,
    ensures
        r == sat_add_i64(now, ttl),
{
    match now.checked_add(ttl) {
        Some(x) => x,
        None => i64::MAX,
    }
}

/// What redeeming a challenge does.
pub open spec fn redeem_outcome(p: PairingState, challenge: Seq<char>, now: i64, q: PairingState, r: Option<(String, i64)>) -> bool {
    &&& r is Some <==> unexpired(expiry_of(p.challenges_spec(), challenge), now) is Some
    &&& forall|k: Seq<char>| expiry_of(q.challenges_spec(), k) == if k == challenge {
        None
    } else {
        unexpired(expiry_of(p.challenges_spec(), k), now)
    }
    &&& r is None ==> forall|k: Seq<char>| expiry_of(q.sessions_spec(), k) == unexpired(expiry_of(p.sessions_spec(), k), now)
    &&& r matches Some((token, expires)) ==> {
        &&& expires == sat_add_i64(now, PAIRING_SESSION_TTL_MS)
        &&& exists|id: Seq<u8>| id.len() == 16 && token@ == #[trigger] nonce_of("session"@, id)
        &&& expiry_of(q.sessions_spec(), token@) == Some(expires)
        &&& forall|k: Seq<char>| k != token@ && #[trigger] expiry_of(q.sessions_spec(), k) is Some
            ==> expiry_of(q.sessions_spec(), k) == unexpired(expiry_of(p.sessions_spec(), k), now)
        &&& q.sessions_spec().len() <= MAX_PAIRING_SESSIONS
    }
}

/// What checking a session credential does.
pub open spec fn matches_outcome(p: PairingState, candidate: Seq<char>, now: i64, q: PairingState, r: bool) -> bool {
    &&& r == unexpired(expiry_of(p.sessions_spec(), candidate), now) is Some
    &&& forall|k: Seq<char>| expiry_of(q.challenges_spec(), k) == unexpired(expiry_of(p.challenges_spec(), k), now)
    &&& forall|k: Seq<char>| expiry_of(q.sessions_spec(), k) == unexpired(expiry_of(p.sessions_spec(), k), now)
}

/// Pending challenges and issued session credentials, each with its expiry.
pub struct PairingState {
    challenges: Vec<(String, i64)>,
    sessions: Vec<(String, i64)>,
}

impl PairingState {
    pub closed spec fn challenges_spec(&self) -> Seq<(String, i64)> {
        self.challenges@
    }

    pub closed spec fn sessions_spec(&self) -> Seq<(String, i64)> {
        self.sessions@
    }

    pub open spec fn wf(&self) -> bool {
        keys_unique(self.challenges_spec()) && keys_unique(self.sessions_spec())
    }

    pub fn new() -> (r: PairingState)
        ensures
            r.wf(),
            r.challenges_spec().len() == 0,
            r.sessions_spec().len() == 0,
    {
        PairingState { challenges: Vec::new(), sessions: Vec::new() }
    }

    /// Forgets every challenge and credential that has expired at `now`.
    pub fn expire(&mut self, now: i64)
        requires
            old(self).wf(),
        ensures
            final(self).wf(),
            forall|k: Seq<char>| expiry_of(final(self).challenges_spec(), k) == unexpired(expiry_of(old(self).challenges_spec(), k), now),
            forall|k: Seq<char>| expiry_of(final(self).sessions_spec(), k) == unexpired(expiry_of(old(self).sessions_spec(), k), now),
    {
        expire_entries(&mut self.challenges, now);
        expire_entries(&mut self.sessions, now);
    }

    /// Issues a fresh challenge valid for thirty seconds; when the bound of
    /// pending challenges is reached, the one that expires first gives way.
    pub fn issue_challenge(&mut self, now: i64) -> (r: (String, i64))
        requires
            old(self).wf(),
        ensures
            final(self).wf(),
            r.1 == sat_add_i64(now, PAIRING_CHALLENGE_TTL_MS),
            exists|id: Seq<u8>| id.len() == 16 && r.0@ == #[trigger] nonce_of("challenge"@, id),
            expiry_of(final(self).challenges_spec(), r.0@) == Some(r.1),
            forall|k: Seq<char>| k != r.0@ && #[trigger] expiry_of(final(self).challenges_spec(), k) is Some
                ==> expiry_of(final(self).challenges_spec(), k) == unexpired(expiry_of(old(self).challenges_spec(), k), now),
            final(self).challenges_spec().len() <= MAX_PENDING_PAIRING_CHALLENGES,
            forall|k: Seq<char>| expiry_of(final(self).sessions_spec(), k) == unexpired(expiry_of(old(self).sessions_spec(), k), now),
    {
        self.expire(now);
        evict_earliest(&mut self.challenges, MAX_PENDING_PAIRING_CHALLENGES);
        let challenge = opaque_nonce("challenge");
        let expires = expiry_after(now, PAIRING_CHALLENGE_TTL_MS);
        let ghost text = challenge@;
        put_entry(&mut self.challenges, challenge.clone(), expires);
        (challenge, expires)
    }

    /// Redeems a pending challenge, once, for a session credential valid for
    /// twelve hours; when the bound of credentials is reached, the one that
    /// expires first gives way.
    pub fn redeem(&mut self, challenge: &str, now: i64) -> (r: Option<(String, i64)>)
        requires
            old(self).wf(),
        ensures
            final(self).wf(),
            redeem_outcome(*old(self), challenge@, now, *final(self), r),
    {
        self.expire(now);
        let key = challenge.to_owned();
        let found = find_entry(&self.challenges, &key);
        let i = match found {
            None => {
                return None;
            },
            Some(i) => i,
        };
        let ghost before = self.challenges@;
        proof { lemma_expiry_remove(before, i as int); }
        self.challenges.remove(i);
        evict_earliest(&mut self.sessions, MAX_PAIRING_SESSIONS);
        let token = opaque_nonce("session");
        let expires = expiry_after(now, PAIRING_SESSION_TTL_MS);
        put_entry(&mut self.sessions, token.clone(), expires);
        Some((token, expires))
    }

    /// Whether `candidate` is a session credential that has not expired.
    pub fn matches(&mut self, candidate: &str, now: i64) -> (r: bool)
        requires
            old(self).wf(),
        ensures
            final(self).wf(),
            matches_outcome(*old(self), candidate@, now, *final(self), r),
    {
        self.expire(now);
        let key = candidate.to_owned();
        let found = find_entry(&self.sessions, &key);
        match found {
            None => false,
            Some(i) => self.sessions[i].1 > now,
        }
    }
}

/// A challenge pairs once: redeeming it again fails, whenever that is.
pub proof fn law_challenge_redeems_once(
    p0: PairingState,
    p1: PairingState,
    p2: PairingState,
    challenge: Seq<char>,
    now1: i64,
    now2: i64,
    first: Option<(String, i64)>,
    second: Option<(String, i64)>,
)
    requires
        redeem_outcome(p0, challenge, now1, p1, first),
        redeem_outcome(p1, challenge, now2, p2, second),
    ensures
        second is None,
{
    assert(expiry_of(p1.challenges_spec(), challenge) is None);
}

/// A credential obtained by pairing is recognised until it expires.
pub proof fn law_paired_credential_is_recognised(
    p0: PairingState,
    p1: PairingState,
    p2: PairingState,
    challenge: Seq<char>,
    now1: i64,
    now2: i64,
    paired: Option<(String, i64)>,
    recognised: bool,
)
    requires
        redeem_outcome(p0, challenge, now1, p1, paired),
        paired matches Some((token, expires)) && now2 < expires
            && matches_outcome(p1, token@, now2, p2, recognised),
    ensures
        recognised,
{
}

} // verus!
