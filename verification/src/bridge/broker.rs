//! The broker between Lattice and plugin sessions: registration, explicit
//! binding, ordered reports, bounded command queues and event retention.
//!
//! Time is an argument (`now`, Unix milliseconds); waiting for a command's
//! result is left to the caller, which routes the results that
//! [`StudioBridgeBroker::report`] hands back.
use vstd::prelude::*;
use crate::bridge::auth::{small_identifier, validate_protocol, validate_small_identifier};
use crate::bridge::model::{backend_model, command_model, commands_model, is_default_backend, response_model, StudioBridgeBackendState, StudioBridgeBinding, StudioBridgeCommand, StudioBridgeCommandId, StudioBridgeCommandPayload, StudioBridgeCommandResult, StudioBridgeError, StudioBridgeEvent, StudioBridgeLimits, StudioBridgeRegistration, StudioBridgeRegistrationResponse, StudioBridgeReport, StudioBridgeReportResponse, StudioBridgeSessionId, StudioBridgeSessionSnapshot, StudioBridgeSessionState, BRIDGE_PROTOCOL_VERSION};
use crate::resource::LatticeId;
use crate::order::{byte_ints, bytes_less, lemma_lex_irreflexive, lemma_sorted_position, lex_less, strictly_sorted};

verus! {

/// One registered plugin session with its queues.
pub struct StudioBridgeSessionRecord<P> {
    pub snapshot: StudioBridgeSessionSnapshot,
    pub queued_commands: Vec<StudioBridgeCommand>,
    pub in_flight_commands: Vec<StudioBridgeCommand>,
    pub events: Vec<StudioBridgeEvent<P>>,
    pub last_response: Option<StudioBridgeReportResponse>,
}

pub struct StudioBridgeBroker<P> {
    limits: StudioBridgeLimits,
    sessions: Vec<StudioBridgeSessionRecord<P>>,
    backend: StudioBridgeBackendState,
}

/// The ordering key of a command: its identity bytes.
pub open spec fn command_key(c: StudioBridgeCommand) -> Seq<int> {
    byte_ints(c.id.0@)
}

pub open spec fn command_keys(s: Seq<StudioBridgeCommand>) -> Seq<Seq<int>> {
    s.map_values(|c: StudioBridgeCommand| command_key(c))
}

/// The command with identity `k` in a list whose identities are distinct.
pub open spec fn command_with_key(s: Seq<StudioBridgeCommand>, k: Seq<int>) -> Option<StudioBridgeCommand> {
    if exists|i: int| 0 <= i < s.len() && command_key(#[trigger] s[i]) == k {
        Some(s[choose|i: int| 0 <= i < s.len() && command_key(#[trigger] s[i]) == k])
    } else {
        None
    }
}

/// The last command with identity `k` in a list.
pub open spec fn last_with_key(s: Seq<StudioBridgeCommand>, k: Seq<int>) -> Option<StudioBridgeCommand>
    decreases s.len(),
{
    if s.len() == 0 {
        None
    } else if command_key(s.last()) == k {
        Some(s.last())
    } else {
        last_with_key(s.drop_last(), k)
    }
}

/// The command identities that a report's results answer.
pub open spec fn ids_of<V>(results: Seq<StudioBridgeCommandResult<V>>) -> Seq<Seq<u8>> {
    results.map_values(|r: StudioBridgeCommandResult<V>| r.command_id.0@)
}

/// The saturating value of `x` in `i64`.
pub open spec fn sat_i64(x: int) -> i64 {
    if x > i64::MAX { i64::MAX } else if x < i64::MIN { i64::MIN } else { x as i64 }
}

/// The saturating value of `x` in `u64`.
pub open spec fn sat_u64(x: int) -> u64 {
    if x > u64::MAX { u64::MAX } else if x < 0 { 0 } else { x as u64 }
}

/// The session lifetime in milliseconds, as a signed duration.
pub open spec fn ttl_ms(l: StudioBridgeLimits) -> int {
    if l.session_ttl_ms > i64::MAX { i64::MAX as int } else { l.session_ttl_ms as int }
}

/// A session not seen for longer than its lifetime.
pub open spec fn is_expired(s: StudioBridgeSessionSnapshot, l: StudioBridgeLimits, now: i64) -> bool {
    sat_i64(now - s.last_seen_unix_ms) > ttl_ms(l)
}

pub open spec fn record_wf<P>(r: StudioBridgeSessionRecord<P>, l: StudioBridgeLimits) -> bool {
    &&& r.events@.len() <= l.max_events_per_session
    &&& strictly_sorted(command_keys(r.in_flight_commands@))
    &&& r.snapshot.queued_commands == r.queued_commands@.len()
    &&& r.snapshot.in_flight_commands == r.in_flight_commands@.len()
    &&& r.snapshot.retained_events == r.events@.len()
    &&& (r.snapshot.last_report_sequence matches Some(s) ==> r.last_response matches Some(resp)
        && resp.accepted_sequence == s)
}

/// Session identities and plugin-owned identities each occur once.
pub open spec fn records_wf<P>(s: Seq<StudioBridgeSessionRecord<P>>, l: StudioBridgeLimits) -> bool {
    &&& forall|i: int| 0 <= i < s.len() ==> record_wf(#[trigger] s[i], l)
    &&& forall|i: int, j: int| 0 <= i < j < s.len() ==> (#[trigger] s[i]).snapshot.id.0@ != (#[trigger] s[j]).snapshot.id.0@
    &&& forall|i: int, j: int| 0 <= i < j < s.len() ==> (#[trigger] s[i]).snapshot.external_session_id@
        != (#[trigger] s[j]).snapshot.external_session_id@
}

/// The position of the session with identity `id`, or -1.
pub open spec fn session_index<P>(s: Seq<StudioBridgeSessionRecord<P>>, id: Seq<u8>) -> int {
    if exists|i: int| 0 <= i < s.len() && (#[trigger] s[i]).snapshot.id.0@ == id {
        choose|i: int| 0 <= i < s.len() && (#[trigger] s[i]).snapshot.id.0@ == id
    } else {
        -1
    }
}

/// The position of the session owned by plugin identity `ext`, or -1.
pub open spec fn external_index<P>(s: Seq<StudioBridgeSessionRecord<P>>, ext: Seq<char>) -> int {
    if exists|i: int| 0 <= i < s.len() && (#[trigger] s[i]).snapshot.external_session_id@ == ext {
        choose|i: int| 0 <= i < s.len() && (#[trigger] s[i]).snapshot.external_session_id@ == ext
    } else {
        -1
    }
}

pub proof fn lemma_session_index<P>(s: Seq<StudioBridgeSessionRecord<P>>, l: StudioBridgeLimits, i: int)
    requires
        records_wf(s, l),
        0 <= i < s.len(),
    ensures
        session_index(s, s[i].snapshot.id.0@) == i,
{
    let k = session_index(s, s[i].snapshot.id.0@);
    if k != i {
        if k < i {
            assert(s[k].snapshot.id.0@ != s[i].snapshot.id.0@);
        } else {
            assert(s[i].snapshot.id.0@ != s[k].snapshot.id.0@);
        }
    }
}

pub proof fn lemma_external_index<P>(s: Seq<StudioBridgeSessionRecord<P>>, l: StudioBridgeLimits, i: int)
    requires
        records_wf(s, l),
        0 <= i < s.len(),
    ensures
        external_index(s, s[i].snapshot.external_session_id@) == i,
{
    let k = external_index(s, s[i].snapshot.external_session_id@);
    if k != i {
        if k < i {
            assert(s[k].snapshot.external_session_id@ != s[i].snapshot.external_session_id@);
        } else {
            assert(s[i].snapshot.external_session_id@ != s[k].snapshot.external_session_id@);
        }
    }
}

pub proof fn lemma_command_with_key(s: Seq<StudioBridgeCommand>, i: int)
    requires
        strictly_sorted(command_keys(s)),
        0 <= i < s.len(),
    ensures
        command_with_key(s, command_key(s[i])) == Some(s[i]),
{
    let k = command_key(s[i]);
    assert(command_key(s[i]) == k);
    let j = choose|j: int| 0 <= j < s.len() && command_key(#[trigger] s[j]) == k;
    if j != i {
        assert(command_keys(s)[i] == command_key(s[i]));
        assert(command_keys(s)[j] == command_key(s[j]));
        if j < i {
            assert(lex_less(command_keys(s)[j], command_keys(s)[i]));
        } else {
            assert(lex_less(command_keys(s)[i], command_keys(s)[j]));
        }
        lemma_lex_irreflexive(k);
    }
}

impl<P> StudioBridgeBroker<P> {
    pub closed spec fn limits_spec(&self) -> StudioBridgeLimits {
        self.limits
    }

    pub closed spec fn records(&self) -> Seq<StudioBridgeSessionRecord<P>> {
        self.sessions@
    }

    pub closed spec fn backend_spec(&self) -> StudioBridgeBackendState {
        self.backend
    }

    pub open spec fn wf(&self) -> bool {
        records_wf(self.records(), self.limits_spec())
    }

    /// An empty broker with the given bounds.
    pub fn new(limits: StudioBridgeLimits) -> (r: StudioBridgeBroker<P>)
        ensures
            r.wf(),
            r.limits_spec() == limits,
            r.records().len() == 0,
            is_default_backend(r.backend_spec()),
    {
        StudioBridgeBroker { limits, sessions: Vec::new(), backend: StudioBridgeBackendState::default() }
    }
}


/// The record after a binding has been attached to it.
pub open spec fn with_binding<P>(r: StudioBridgeSessionRecord<P>, b: StudioBridgeBinding) -> StudioBridgeSessionRecord<P> {
    StudioBridgeSessionRecord {
        snapshot: StudioBridgeSessionSnapshot {
            binding: Some(b),
            state: StudioBridgeSessionState::Bound,
            ..r.snapshot
        },
        ..r
    }
}

impl<P> StudioBridgeBroker<P> {
    /// The position of a session by identity.
    fn find_session(&self, id: &StudioBridgeSessionId) -> (r: Option<usize>)
        requires
            self.wf(),
        ensures
            r matches Some(i) ==> i < self.records().len() && session_index(self.records(), id.0@) == i,
            r is None ==> session_index(self.records(), id.0@) == -1,
    {
        let mut i: usize = 0;
        while i < self.sessions.len()
            invariant
                i <= self.sessions@.len(),
                self.wf(),
                forall|k: int| 0 <= k < i ==> (#[trigger] self.sessions@[k]).snapshot.id.0@ != id.0@,
            decreases self.sessions@.len() - i,
        {
            if self.sessions[i].snapshot.id.same(id) {
                proof { lemma_session_index(self.records(), self.limits, i as int); }
                return Some(i);
            }
            i = i + 1;
        }
        None
    }

    /// Replaces the daemon-owned state shown to plugins.
    pub fn set_backend_state(&mut self, backend: StudioBridgeBackendState)
        ensures
            final(self).records() == old(self).records(),
            final(self).limits_spec() == old(self).limits_spec(),
            final(self).backend_spec() == backend,
    {
        self.backend = backend;
    }

    /// Associates a session with an already-resolved Studio; the broker
    /// never guesses this association, and a different one is refused.
    pub fn bind_session(&mut self, session_id: StudioBridgeSessionId, binding: StudioBridgeBinding) -> (r: Result<(), StudioBridgeError>)
        requires
            old(self).wf(),
        ensures
            final(self).wf(),
            final(self).limits_spec() == old(self).limits_spec(),
            final(self).backend_spec() == old(self).backend_spec(),
            ({
                let s = old(self).records();
                let i = session_index(s, session_id.0@);
                if i < 0 {
                    r == Err::<(), StudioBridgeError>(StudioBridgeError::SessionNotFound(session_id))
                        && final(self).records() == s
                } else if s[i].snapshot.binding matches Some(b) && !(b.studio_session_id@ == binding.studio_session_id@
                    && b.environment_id.0@ == binding.environment_id.0@ && b.process_id == binding.process_id) {
                    r == Err::<(), StudioBridgeError>(StudioBridgeError::BindingConflict) && final(self).records() == s
                } else {
                    r is Ok && final(self).records() == s.update(i, with_binding(s[i], binding))
                }
            }),
    {
        let found = self.find_session(&session_id);
        match found {
            None => Err(StudioBridgeError::SessionNotFound(session_id)),
            Some(i) => {
                if let Some(existing) = &self.sessions[i].snapshot.binding {
                    if !existing.same(&binding) {
                        return Err(StudioBridgeError::BindingConflict);
                    }
                }
                let ghost s = self.sessions@;
                let mut record = self.sessions.remove(i);
                record.snapshot.binding = Some(binding);
                record.snapshot.state = StudioBridgeSessionState::Bound;
                self.sessions.insert(i, record);
                proof {
                    assert(self.sessions@ =~= s.update(i as int, with_binding(s[i as int], binding)));
                    assert forall|a: int, b: int| 0 <= a < b < s.len() implies (#[trigger] self.sessions@[a]).snapshot.id.0@
                        != (#[trigger] self.sessions@[b]).snapshot.id.0@ by {
                        assert(s[a].snapshot.id.0@ != s[b].snapshot.id.0@);
                    }
                    assert forall|a: int, b: int| 0 <= a < b < s.len() implies (#[trigger] self.sessions@[a]).snapshot.external_session_id@
                        != (#[trigger] self.sessions@[b]).snapshot.external_session_id@ by {
                        assert(s[a].snapshot.external_session_id@ != s[b].snapshot.external_session_id@);
                    }
                    assert forall|a: int| 0 <= a < s.len() implies record_wf(#[trigger] self.sessions@[a], self.limits) by {
                        assert(record_wf(s[a], self.limits));
                    }
                }
                Ok(())
            },
        }
    }
}

/// Replacing a session by one with the same identities keeps the registry well formed.
pub proof fn lemma_replace_record<P>(s: Seq<StudioBridgeSessionRecord<P>>, l: StudioBridgeLimits, i: int, r: StudioBridgeSessionRecord<P>)
    requires
        records_wf(s, l),
        0 <= i < s.len(),
        r.snapshot.id.0@ == s[i].snapshot.id.0@,
        r.snapshot.external_session_id@ == s[i].snapshot.external_session_id@,
        record_wf(r, l),
    ensures
        records_wf(s.update(i, r), l),
{
    let t = s.update(i, r);
    assert forall|a: int, b: int| 0 <= a < b < t.len() implies (#[trigger] t[a]).snapshot.id.0@ != (#[trigger] t[b]).snapshot.id.0@ by {
        assert(s[a].snapshot.id.0@ != s[b].snapshot.id.0@);
    }
    assert forall|a: int, b: int| 0 <= a < b < t.len() implies (#[trigger] t[a]).snapshot.external_session_id@
        != (#[trigger] t[b]).snapshot.external_session_id@ by {
        assert(s[a].snapshot.external_session_id@ != s[b].snapshot.external_session_id@);
    }
    assert forall|a: int| 0 <= a < t.len() implies record_wf(#[trigger] t[a], l) by {
        if a != i {
            assert(record_wf(s[a], l));
        }
    }
}

/// Whether a command carries the given identity.
pub open spec fn has_id(c: StudioBridgeCommand, id: Seq<u8>) -> bool {
    c.id.0@ == id
}

impl<P> StudioBridgeBroker<P> {
    /// Queues a command for one explicit, bound session; there is no fallback
    /// to another session. Waiting for its result is the caller's part.
    pub fn enqueue_command(&mut self, session_id: StudioBridgeSessionId, payload: StudioBridgeCommandPayload) -> (r: Result<StudioBridgeCommandId, StudioBridgeError>)
        requires
            old(self).wf(),
        ensures
            final(self).wf(),
            final(self).limits_spec() == old(self).limits_spec(),
            final(self).backend_spec() == old(self).backend_spec(),
            ({
                let s = old(self).records();
                let t = final(self).records();
                let i = session_index(s, session_id.0@);
                if i < 0 {
                    r == Err::<StudioBridgeCommandId, StudioBridgeError>(StudioBridgeError::SessionNotFound(session_id)) && t == s
                } else if s[i].snapshot.binding is None {
                    r == Err::<StudioBridgeCommandId, StudioBridgeError>(StudioBridgeError::SessionUnbound(session_id)) && t == s
                } else if s[i].queued_commands@.len() + s[i].in_flight_commands@.len() >= old(self).limits_spec().max_pending_commands_per_session {
                    r == Err::<StudioBridgeCommandId, StudioBridgeError>(StudioBridgeError::CommandCapacityExceeded(session_id)) && t == s
                } else {
                    &&& r matches Ok(cid)
                    &&& t.len() == s.len()
                    &&& forall|j: int| 0 <= j < s.len() && j != i ==> t[j] == s[j]
                    &&& t[i].queued_commands@ == s[i].queued_commands@.push(StudioBridgeCommand { id: cid, payload })
                    &&& t[i].snapshot == (StudioBridgeSessionSnapshot { queued_commands: (s[i].queued_commands@.len() + 1) as usize, ..s[i].snapshot })
                    &&& t[i].in_flight_commands == s[i].in_flight_commands
                    &&& t[i].events == s[i].events
                    &&& t[i].last_response == s[i].last_response
                }
            }),
    {
        let found = self.find_session(&session_id);
        match found {
            None => Err(StudioBridgeError::SessionNotFound(session_id)),
            Some(i) => {
                if self.sessions[i].snapshot.binding.is_none() {
                    return Err(StudioBridgeError::SessionUnbound(session_id));
                }
                let queued = self.sessions[i].queued_commands.len();
                let in_flight = self.sessions[i].in_flight_commands.len();
                let max = self.limits.max_pending_commands_per_session;
                if queued >= max || in_flight >= max - queued {
                    return Err(StudioBridgeError::CommandCapacityExceeded(session_id));
                }
                let command_id = StudioBridgeCommandId::new();
                let ghost s = self.sessions@;
                let mut record = self.sessions.remove(i);
                record.queued_commands.push(StudioBridgeCommand { id: command_id, payload });
                record.snapshot.queued_commands = record.queued_commands.len();
                proof { lemma_replace_record(s, self.limits, i as int, record); }
                self.sessions.insert(i, record);
                proof { assert(self.sessions@ =~= s.update(i as int, record)); }
                Ok(command_id)
            },
        }
    }

    /// Forgets a command that will no longer be waited for.
    pub fn remove_command(&mut self, session_id: StudioBridgeSessionId, command_id: StudioBridgeCommandId)
        requires
            old(self).wf(),
        ensures
            final(self).wf(),
            final(self).limits_spec() == old(self).limits_spec(),
            final(self).backend_spec() == old(self).backend_spec(),
            ({
                let s = old(self).records();
                let t = final(self).records();
                let i = session_index(s, session_id.0@);
                if i < 0 {
                    t == s
                } else {
                    &&& t.len() == s.len()
                    &&& forall|j: int| 0 <= j < s.len() && j != i ==> t[j] == s[j]
                    &&& t[i].queued_commands@ == s[i].queued_commands@.filter(|c: StudioBridgeCommand| !has_id(c, command_id.0@))
                    &&& t[i].in_flight_commands@ == s[i].in_flight_commands@.filter(|c: StudioBridgeCommand| !has_id(c, command_id.0@))
                    &&& t[i].snapshot == (StudioBridgeSessionSnapshot {
                        queued_commands: t[i].queued_commands@.len() as usize,
                        in_flight_commands: t[i].in_flight_commands@.len() as usize,
                        ..s[i].snapshot
                    })
                    &&& t[i].events == s[i].events
                    &&& t[i].last_response == s[i].last_response
                }
            }),
    {
        let found = self.find_session(&session_id);
        if let Some(i) = found {
            let ghost s = self.sessions@;
            let mut record = self.sessions.remove(i);
            let ghost before = record;
            remove_with_id(&mut record.queued_commands, &command_id);
            remove_with_id(&mut record.in_flight_commands, &command_id);
            proof { lemma_filter_keeps_sorted(before.in_flight_commands@, |c: StudioBridgeCommand| !has_id(c, command_id.0@)); }
            record.snapshot.queued_commands = record.queued_commands.len();
            record.snapshot.in_flight_commands = record.in_flight_commands.len();
            proof { lemma_replace_record(s, self.limits, i as int, record); }
            self.sessions.insert(i, record);
            proof { assert(self.sessions@ =~= s.update(i as int, record)); }
        }
    }

    /// Takes at most `limit` of a session's retained events, oldest first.
    pub fn drain_events(&mut self, session_id: StudioBridgeSessionId, limit: usize) -> (r: Result<Vec<StudioBridgeEvent<P>>, StudioBridgeError>)
        requires
            old(self).wf(),
        ensures
            final(self).wf(),
            final(self).limits_spec() == old(self).limits_spec(),
            final(self).backend_spec() == old(self).backend_spec(),
            ({
                let s = old(self).records();
                let t = final(self).records();
                let i = session_index(s, session_id.0@);
                if i < 0 {
                    r matches Err(e) && e == StudioBridgeError::SessionNotFound(session_id) && t == s
                } else {
                    let n = if limit < s[i].events@.len() { limit as int } else { s[i].events@.len() as int };
                    &&& r matches Ok(v) && v@ == s[i].events@.take(n)
                    &&& t.len() == s.len()
                    &&& forall|j: int| 0 <= j < s.len() && j != i ==> t[j] == s[j]
                    &&& t[i].events@ == s[i].events@.skip(n)
                    &&& t[i].snapshot == (StudioBridgeSessionSnapshot { retained_events: t[i].events@.len() as usize, ..s[i].snapshot })
                    &&& t[i].queued_commands == s[i].queued_commands
                    &&& t[i].in_flight_commands == s[i].in_flight_commands
                    &&& t[i].last_response == s[i].last_response
                }
            }),
    {
        let found = self.find_session(&session_id);
        match found {
            None => Err(StudioBridgeError::SessionNotFound(session_id)),
            Some(i) => {
                let ghost s = self.sessions@;
                let mut record = self.sessions.remove(i);
                let count = if limit < record.events.len() { limit } else { record.events.len() };
                let mut rest = record.events.split_off(count);
                std::mem::swap(&mut record.events, &mut rest);
                record.snapshot.retained_events = record.events.len();
                proof { lemma_replace_record(s, self.limits, i as int, record); }
                self.sessions.insert(i, record);
                proof { assert(self.sessions@ =~= s.update(i as int, record)); }
                Ok(rest)
            },
        }
    }
}

/// Removes every command with the given identity, keeping the others in order.
fn remove_with_id(v: &mut Vec<StudioBridgeCommand>, id: &StudioBridgeCommandId)
    ensures
        final(v)@ == old(v)@.filter(|c: StudioBridgeCommand| !has_id(c, id.0@)),
{
    let ghost pred = |c: StudioBridgeCommand| !has_id(c, id.0@);
    let ghost original = v@;
    let n0 = v.len();
    let mut i: usize = 0;
    let mut j: usize = 0;
    while i < v.len()
        invariant
            i <= v@.len(),
            j <= original.len(),
            v@.subrange(0, i as int) == original.subrange(0, j as int).filter(pred),
            v@.subrange(i as int, v@.len() as int) == original.subrange(j as int, original.len() as int),
            v@.len() - i == original.len() - j,
            original.len() == n0,
            pred == (|c: StudioBridgeCommand| !has_id(c, id.0@)),
        decreases v@.len() - i,
    {
        let ghost before = v@;
        proof {
            assert(original.subrange(0, j + 1) =~= original.subrange(0, j as int).push(original[j as int]));
            original.subrange(0, j as int).lemma_filter_push(original[j as int], pred);
            assert(before[i as int] == original[j as int]) by {
                assert(before.subrange(i as int, before.len() as int)[0] == before[i as int]);
                assert(original.subrange(j as int, original.len() as int)[0] == original[j as int]);
            }
        }
        if v[i].id.same(id) {
            v.remove(i);
            proof {
                assert(v@.subrange(0, i as int) =~= before.subrange(0, i as int));
                let tail = before.subrange(i as int, before.len() as int);
                assert(tail == original.subrange(j as int, original.len() as int));
                assert(v@.subrange(i as int, v@.len() as int) =~= tail.subrange(1, tail.len() as int));
                assert(tail.subrange(1, tail.len() as int) =~= original.subrange(j + 1, original.len() as int));
            }
        } else {
            i = i + 1;
            proof {
                assert(v@.subrange(0, i as int) =~= before.subrange(0, i - 1).push(before[i - 1]));
                let tail = before.subrange(i - 1, before.len() as int);
                assert(tail == original.subrange(j as int, original.len() as int));
                assert(v@.subrange(i as int, v@.len() as int) =~= tail.subrange(1, tail.len() as int));
                assert(tail.subrange(1, tail.len() as int) =~= original.subrange(j + 1, original.len() as int));
            }
        }
        j = j + 1;
    }
    proof {
        assert(v@ =~= v@.subrange(0, i as int));
        assert(original.subrange(j as int, original.len() as int).len() == 0);
        assert(original.subrange(0, j as int) =~= original);
    }
}

/// Removing commands keeps the remaining identities in order.
proof fn lemma_filter_keeps_sorted(s: Seq<StudioBridgeCommand>, pred: spec_fn(StudioBridgeCommand) -> bool)
    requires
        strictly_sorted(command_keys(s)),
    ensures
        strictly_sorted(command_keys(s.filter(pred))),
    decreases s.len(),
{
    if s.len() > 0 {
        let init = s.drop_last();
        assert(init.push(s.last()) =~= s);
        assert(command_keys(init) =~= command_keys(s).subrange(0, init.len() as int));
        lemma_filter_keeps_sorted(init, pred);
        init.lemma_filter_push(s.last(), pred);
        let f = init.filter(pred);
        if pred(s.last()) {
            broadcast use vstd::seq_lib::group_filter_ensures;
            let g = f.push(s.last());
            assert forall|a: int, b: int| 0 <= a < b < g.len() implies lex_less(#[trigger] command_keys(g)[a], #[trigger] command_keys(g)[b]) by {
                if b == g.len() - 1 {
                    assert(f.contains(f[a]));
                    init.lemma_filter_contains_rev(pred, f[a]);
                    let k = choose|k: int| 0 <= k < init.len() && init[k] == f[a];
                    assert(command_keys(s)[k] == command_key(f[a]));
                    assert(command_keys(s)[s.len() - 1] == command_key(s.last()));
                } else {
                    assert(command_keys(g)[a] == command_keys(f)[a]);
                    assert(command_keys(g)[b] == command_keys(f)[b]);
                }
            }
        }
    } else {
        assert(s.filter(pred) =~= s) by { reveal(Seq::filter); }
    }
}


/// Whether some result answers the command with identity `id`.
fn answered<V>(results: &[StudioBridgeCommandResult<V>], id: &StudioBridgeCommandId) -> (r: bool)
    ensures
        r == ids_of(results@).contains(id.0@),
{
    let mut i: usize = 0;
    while i < results.len()
        invariant
            i <= results@.len(),
            forall|k: int| 0 <= k < i ==> (#[trigger] results@[k]).command_id.0@ != id.0@,
        decreases results@.len() - i,
    {
        if results[i].command_id.same(id) {
            proof { assert(ids_of(results@)[i as int] == id.0@); }
            return true;
        }
        i = i + 1;
    }
    proof {
        if ids_of(results@).contains(id.0@) {
            let k = choose|k: int| 0 <= k < ids_of(results@).len() && ids_of(results@)[k] == id.0@;
            assert(results@[k].command_id.0@ == id.0@);
        }
    }
    false
}

/// Removes the commands that some result answers, keeping the others in order.
fn remove_answered<V>(v: &mut Vec<StudioBridgeCommand>, results: &[StudioBridgeCommandResult<V>])
    ensures
        final(v)@ == old(v)@.filter(|c: StudioBridgeCommand| !ids_of(results@).contains(c.id.0@)),
{
    let ghost pred = |c: StudioBridgeCommand| !ids_of(results@).contains(c.id.0@);
    let ghost original = v@;
    let n0 = v.len();
    let mut i: usize = 0;
    let mut j: usize = 0;
    while i < v.len()
        invariant
            i <= v@.len(),
            j <= original.len(),
            v@.subrange(0, i as int) == original.subrange(0, j as int).filter(pred),
            v@.subrange(i as int, v@.len() as int) == original.subrange(j as int, original.len() as int),
            v@.len() - i == original.len() - j,
            original.len() == n0,
            pred == (|c: StudioBridgeCommand| !ids_of(results@).contains(c.id.0@)),
        decreases v@.len() - i,
    {
        let ghost before = v@;
        proof {
            assert(original.subrange(0, j + 1) =~= original.subrange(0, j as int).push(original[j as int]));
            original.subrange(0, j as int).lemma_filter_push(original[j as int], pred);
            assert(before[i as int] == original[j as int]) by {
                assert(before.subrange(i as int, before.len() as int)[0] == before[i as int]);
                assert(original.subrange(j as int, original.len() as int)[0] == original[j as int]);
            }
        }
        if answered(results, &v[i].id) {
            v.remove(i);
            proof {
                assert(v@.subrange(0, i as int) =~= before.subrange(0, i as int));
                let tail = before.subrange(i as int, before.len() as int);
                assert(v@.subrange(i as int, v@.len() as int) =~= tail.subrange(1, tail.len() as int));
                assert(tail.subrange(1, tail.len() as int) =~= original.subrange(j + 1, original.len() as int));
            }
        } else {
            i = i + 1;
            proof {
                assert(v@.subrange(0, i as int) =~= before.subrange(0, i - 1).push(before[i - 1]));
                let tail = before.subrange(i - 1, before.len() as int);
                assert(v@.subrange(i as int, v@.len() as int) =~= tail.subrange(1, tail.len() as int));
                assert(tail.subrange(1, tail.len() as int) =~= original.subrange(j + 1, original.len() as int));
            }
        }
        j = j + 1;
    }
    proof {
        assert(v@ =~= v@.subrange(0, i as int));
        assert(original.subrange(0, j as int) =~= original);
    }
}

/// Puts a command in the in-flight list by identity, replacing one with the
/// same identity.
fn insert_in_flight(v: &mut Vec<StudioBridgeCommand>, c: StudioBridgeCommand)
    requires
        strictly_sorted(command_keys(old(v)@)),
    ensures
        strictly_sorted(command_keys(final(v)@)),
        forall|k: Seq<int>| command_with_key(final(v)@, k) == if k == command_key(c) {
            Some(c)
        } else {
            command_with_key(old(v)@, k)
        },
{
    let ghost original = v@;
    let ghost keys = command_keys(original);
    let ghost x = command_key(c);
    let cid = c.id.0.as_bytes();
    let mut pos: usize = 0;
    while pos < v.len()
        invariant
            pos <= v@.len(),
            v@ == original,
            keys == command_keys(original),
            x == command_key(c),
            cid@ == c.id.0@,
            forall|k: int| 0 <= k < pos ==> lex_less(#[trigger] keys[k], x),
        ensures
            pos <= v@.len(),
            v@ == original,
            forall|k: int| 0 <= k < pos ==> lex_less(#[trigger] keys[k], x),
            pos < v@.len() ==> !lex_less(keys[pos as int], x),
        decreases v@.len() - pos,
    {
        let vid = v[pos].id.0.as_bytes();
        if !bytes_less(&vid, &cid) {
            proof { assert(keys[pos as int] == command_key(v@[pos as int])); }
            break;
        }
        proof { assert(keys[pos as int] == command_key(v@[pos as int])); }
        pos = pos + 1;
    }
    proof {
        if pos < v@.len() {
            assert(keys[pos as int] == command_key(v@[pos as int]));
        }
        lemma_sorted_position(keys, pos as int, x);
    }
    let present = pos < v.len() && v[pos].id.same(&c.id);
    proof {
        if pos < v@.len() {
            assert(keys[pos as int] == byte_ints(v@[pos as int].id.0@));
            if keys[pos as int] == x {
                assert(v@[pos as int].id.0@ =~= c.id.0@) by {
                    assert forall|t: int| 0 <= t < c.id.0@.len() implies v@[pos as int].id.0@[t] == c.id.0@[t] by {
                        assert(byte_ints(v@[pos as int].id.0@)[t] == byte_ints(c.id.0@)[t]);
                    }
                    LatticeId::lemma_view_len(v@[pos as int].id.0);
                    LatticeId::lemma_view_len(c.id.0);
                }
            }
        }
    }
    if present {
        v.remove(pos);
        v.insert(pos, c);
        proof { assert(v@ =~= original.update(pos as int, c)); assert(command_keys(v@) =~= keys); }
    } else {
        v.insert(pos, c);
        proof { assert(command_keys(v@) =~= keys.insert(pos as int, x)); }
    }
    proof {
        let t = v@;
        assert forall|k: Seq<int>| command_with_key(t, k) == if k == x { Some(c) } else { command_with_key(original, k) } by {
            assert(t[pos as int] == c);
            lemma_command_with_key(t, pos as int);
            if k != x {
                if exists|a: int| 0 <= a < original.len() && command_key(#[trigger] original[a]) == k {
                    let a = choose|a: int| 0 <= a < original.len() && command_key(#[trigger] original[a]) == k;
                    lemma_command_with_key(original, a);
                    let b = if a < pos { a } else if present { a } else { a + 1 };
                    assert(t[b] == original[a]);
                    lemma_command_with_key(t, b);
                } else {
                    if exists|b: int| 0 <= b < t.len() && command_key(#[trigger] t[b]) == k {
                        let b = choose|b: int| 0 <= b < t.len() && command_key(#[trigger] t[b]) == k;
                        let a = if b < pos { b } else if present { b } else { b - 1 };
                        assert(b != pos);
                        assert(t[b] == original[a]);
                    }
                }
            }
        }
    }
}

/// A copy of the first `n` commands.
fn clone_prefix(cs: &[StudioBridgeCommand], n: usize) -> (r: Vec<StudioBridgeCommand>)
    requires
        n <= cs@.len(),
    ensures
        commands_model(r@) == commands_model(cs@.take(n as int)),
{
    let mut out: Vec<StudioBridgeCommand> = Vec::new();
    let mut i: usize = 0;
    while i < n
        invariant
            i <= n,
            n <= cs@.len(),
            out@.len() == i,
            forall|k: int| 0 <= k < i ==> command_model(#[trigger] out@[k]) == command_model(cs@[k]),
        decreases n - i,
    {
        out.push(cs[i].clone());
        i = i + 1;
    }
    proof { assert(commands_model(out@) =~= commands_model(cs@.take(n as int))); }
    out
}

/// The events retained after `incoming` arrive: the newest, at most `max`.
pub open spec fn retained_events<E>(kept: Seq<E>, incoming: Seq<E>, max: nat) -> Seq<E> {
    let all = kept + incoming;
    let keep = if all.len() < max { all.len() } else { max };
    all.subrange(all.len() - keep, all.len() as int)
}

/// How many queued commands a report dispatches, given how many stay in flight.
pub open spec fn dispatch_count(l: StudioBridgeLimits, in_flight: nat, queued: nat) -> nat {
    let available: nat = if l.max_commands_per_report > in_flight { (l.max_commands_per_report - in_flight) as nat } else { 0 };
    if available < queued { available } else { queued }
}

/// The in-flight commands that no result of the report answers.
pub open spec fn unanswered<V>(s: Seq<StudioBridgeCommand>, results: Seq<StudioBridgeCommandResult<V>>) -> Seq<StudioBridgeCommand> {
    s.filter(|c: StudioBridgeCommand| !ids_of(results).contains(c.id.0@))
}

/// How an accepted report changes its session `a` into `z`, answering `resp`.
pub open spec fn report_applied<P, V>(
    a: StudioBridgeSessionRecord<P>,
    rep: StudioBridgeReport<P, V>,
    now: i64,
    l: StudioBridgeLimits,
    backend: StudioBridgeBackendState,
    z: StudioBridgeSessionRecord<P>,
    resp: StudioBridgeReportResponse,
) -> bool {
    let remaining = unanswered(a.in_flight_commands@, rep.command_results@);
    let n = dispatch_count(l, remaining.len(), a.queued_commands@.len());
    let moved = a.queued_commands@.take(n as int);
    let total = a.events@.len() + rep.events@.len();
    let shown = if z.in_flight_commands@.len() < l.max_commands_per_report {
        z.in_flight_commands@.len() as int
    } else {
        l.max_commands_per_report as int
    };
    &&& z.queued_commands@ == a.queued_commands@.skip(n as int)
    &&& strictly_sorted(command_keys(z.in_flight_commands@))
    &&& forall|k: Seq<int>| command_with_key(z.in_flight_commands@, k) == match last_with_key(moved, k) {
        Some(c) => Some(c),
        None => command_with_key(remaining, k),
    }
    &&& z.events@ == retained_events(a.events@, rep.events@, l.max_events_per_session as nat)
    &&& z.snapshot == (StudioBridgeSessionSnapshot {
        data_model: rep.data_model,
        place_id: rep.place_id,
        universe_id: rep.universe_id,
        is_running: rep.is_running,
        last_seen_unix_ms: now,
        last_report_sequence: Some(rep.report_sequence),
        state: if a.snapshot.binding is Some { StudioBridgeSessionState::Bound } else { StudioBridgeSessionState::Unbound },
        queued_commands: z.queued_commands@.len() as usize,
        in_flight_commands: z.in_flight_commands@.len() as usize,
        retained_events: z.events@.len() as usize,
        dropped_events_total: sat_u64(a.snapshot.dropped_events_total + total - z.events@.len()),
        ..a.snapshot
    })
    &&& resp.accepted_sequence == rep.report_sequence
    &&& commands_model(resp.commands@) == commands_model(z.in_flight_commands@.take(shown))
    &&& resp.dropped_events_total == z.snapshot.dropped_events_total
    &&& backend_model(resp.backend) == backend_model(backend)
    &&& z.last_response matches Some(last) && response_model(last) == response_model(resp)
}

/// What a report does: it is checked against the protocol, the bounds and
/// the session's order; a repeat of the last report is answered as before;
/// otherwise results, events and queued commands are taken in.
pub open spec fn report_outcome<P, V>(
    b: StudioBridgeBroker<P>,
    rep: StudioBridgeReport<P, V>,
    now: i64,
    c: StudioBridgeBroker<P>,
    r: Result<(StudioBridgeReportResponse, Vec<StudioBridgeCommandResult<V>>), StudioBridgeError>,
) -> bool {
    let s = b.records();
    let l = b.limits_spec();
    let i = session_index(s, rep.session_id.0@);
    &&& c.limits_spec() == l
    &&& c.backend_spec() == b.backend_spec()
    &&& if rep.protocol_version != BRIDGE_PROTOCOL_VERSION {
        &&& r matches Err(e) && e == (StudioBridgeError::ProtocolMismatch {
            expected: BRIDGE_PROTOCOL_VERSION,
            received: rep.protocol_version,
        })
        &&& c.records() == s
    } else if rep.events@.len() > l.max_events_per_report || rep.command_results@.len() > l.max_command_results_per_report {
        r matches Err(e) && e is ReportLimitExceeded && c.records() == s
    } else if i < 0 {
        r matches Err(e) && e == StudioBridgeError::SessionNotFound(rep.session_id) && c.records() == s
    } else if s[i].snapshot.last_report_sequence is Some && rep.report_sequence < s[i].snapshot.last_report_sequence->0 {
        &&& r matches Err(e) && e == (StudioBridgeError::OutOfOrderReport {
            previous: s[i].snapshot.last_report_sequence->0,
            received: rep.report_sequence,
        })
        &&& c.records() == s
    } else if s[i].snapshot.last_report_sequence == Some(rep.report_sequence) {
        &&& c.records() == s
        &&& s[i].last_response matches Some(last) && r matches Ok((resp, routed)) && response_model(resp) == response_model(last)
            && routed@.len() == 0
    } else {
        &&& r matches Ok((resp, routed)) && routed@ == rep.command_results@
        &&& c.records().len() == s.len()
        &&& forall|j: int| 0 <= j < s.len() && j != i ==> c.records()[j] == s[j]
        &&& report_applied(s[i], rep, now, l, b.backend_spec(), c.records()[i], r->Ok_0.0)
    }
}

impl<P> StudioBridgeBroker<P> {
    /// Accepts one ordered plugin report and answers with the commands in
    /// flight for that exact session; dispatched commands stay in flight until
    /// a result arrives, so a repeated report is answered as before. The
    /// results taken in are handed back for routing to their waiters.
    pub fn report<V>(&mut self, report: StudioBridgeReport<P, V>, now: i64)
        -> (r: Result<(StudioBridgeReportResponse, Vec<StudioBridgeCommandResult<V>>), StudioBridgeError>)
        requires
            old(self).wf(),
        ensures
            final(self).wf(),
            report_outcome(*old(self), report, now, *final(self), r),
    {
        let ghost rep = report;
        let StudioBridgeReport {
            protocol_version,
            session_id,
            report_sequence,
            data_model,
            place_id,
            universe_id,
            is_running,
            events,
            command_results,
        } = report;
        if let Err(e) = validate_protocol(protocol_version) {
            return Err(e);
        }
        if events.len() > self.limits.max_events_per_report
            || command_results.len() > self.limits.max_command_results_per_report {
            return Err(StudioBridgeError::ReportLimitExceeded);
        }
        let found = self.find_session(&session_id);
        let i = match found {
            None => {
                return Err(StudioBridgeError::SessionNotFound(session_id));
            },
            Some(i) => i,
        };
        proof { assert(record_wf(self.sessions@[i as int], self.limits)); }
        if let Some(previous) = self.sessions[i].snapshot.last_report_sequence {
            if report_sequence < previous {
                return Err(StudioBridgeError::OutOfOrderReport { previous, received: report_sequence });
            }
            if report_sequence == previous {
                return match &self.sessions[i].last_response {
                    Some(last) => Ok((last.clone(), Vec::new())),
                    None => Err(StudioBridgeError::DuplicateReportUnavailable),
                };
            }
        }
        let ghost s = self.sessions@;
        let ghost l = self.limits;
        let ghost a = s[i as int];
        let mut record = self.sessions.remove(i);
        record.snapshot.data_model = data_model;
        record.snapshot.place_id = place_id;
        record.snapshot.universe_id = universe_id;
        record.snapshot.is_running = is_running;
        record.snapshot.last_seen_unix_ms = now;
        record.snapshot.last_report_sequence = Some(report_sequence);
        record.snapshot.state = if record.snapshot.binding.is_some() {
            StudioBridgeSessionState::Bound
        } else {
            StudioBridgeSessionState::Unbound
        };

        // Results retire the commands they answer.
        remove_answered(&mut record.in_flight_commands, command_results.as_slice());
        proof {
            lemma_filter_keeps_sorted(a.in_flight_commands@, |c: StudioBridgeCommand| !ids_of(rep.command_results@).contains(c.id.0@));
        }
        let ghost remaining = record.in_flight_commands@;

        // Events are retained up to the session's bound; the oldest give way.
        let mut incoming = events;
        record.events.append(&mut incoming);
        let total = record.events.len();
        let max_events = self.limits.max_events_per_session;
        let keep = if total < max_events { total } else { max_events };
        let dropped = total - keep;
        let mut kept = record.events.split_off(dropped);
        std::mem::swap(&mut record.events, &mut kept);
        record.snapshot.dropped_events_total = record.snapshot.dropped_events_total.saturating_add(dropped as u64);

        // Queued commands move into flight while there is room.
        let in_flight = record.in_flight_commands.len();
        let max_commands = self.limits.max_commands_per_report;
        let available = if max_commands > in_flight { max_commands - in_flight } else { 0 };
        let n = if available < record.queued_commands.len() { available } else { record.queued_commands.len() };
        let ghost queued = record.queued_commands@;
        let rest = record.queued_commands.split_off(n);
        let mut moving = record.queued_commands;
        record.queued_commands = rest;
        let ghost moved = moving@;
        let ghost pre = record;
        let n_moved = moving.len();
        let mut k: usize = 0;
        while moving.len() > 0
            invariant
                k <= moved.len(),
                moved.len() == n_moved,
                record.snapshot == pre.snapshot,
                record.events == pre.events,
                record.queued_commands == pre.queued_commands,
                record.last_response == pre.last_response,
                moving@ == moved.skip(k as int),
                strictly_sorted(command_keys(record.in_flight_commands@)),
                forall|key: Seq<int>| command_with_key(record.in_flight_commands@, key) == match last_with_key(moved.take(k as int), key) {
                    Some(c) => Some(c),
                    None => command_with_key(remaining, key),
                },
            decreases moving@.len(),
        {
            let c = moving.remove(0);
            let ghost before = record.in_flight_commands@;
            proof {
                assert(c == moved[k as int]);
                assert(moved.take(k + 1) =~= moved.take(k as int).push(c));
                assert(moved.take(k + 1).drop_last() =~= moved.take(k as int));
            }
            insert_in_flight(&mut record.in_flight_commands, c);
            k = k + 1;
            proof { assert(moving@ =~= moved.skip(k as int)); }
        }
        proof {
            assert(k == moved.len());
            assert(moved.take(k as int) =~= moved);
        }

        record.snapshot.queued_commands = record.queued_commands.len();
        record.snapshot.in_flight_commands = record.in_flight_commands.len();
        record.snapshot.retained_events = record.events.len();
        let shown = if record.in_flight_commands.len() < max_commands { record.in_flight_commands.len() } else { max_commands };
        let response = StudioBridgeReportResponse {
            accepted_sequence: report_sequence,
            commands: clone_prefix(record.in_flight_commands.as_slice(), shown),
            dropped_events_total: record.snapshot.dropped_events_total,
            backend: self.backend.clone(),
        };
        record.last_response = Some(response.clone());
        proof {
            assert(record.events@ =~= retained_events(a.events@, rep.events@, l.max_events_per_session as nat));
            lemma_replace_record(s, l, i as int, record);
        }
        self.sessions.insert(i, record);
        proof { assert(self.sessions@ =~= s.update(i as int, record)); }
        Ok((response, command_results))
    }
}

/// Removing a session keeps the registry well formed.
pub proof fn lemma_remove_record<P>(s: Seq<StudioBridgeSessionRecord<P>>, l: StudioBridgeLimits, i: int)
    requires
        records_wf(s, l),
        0 <= i < s.len(),
    ensures
        records_wf(s.remove(i), l),
{
    let t = s.remove(i);
    assert forall|a: int, b: int| 0 <= a < b < t.len() implies (#[trigger] t[a]).snapshot.id.0@ != (#[trigger] t[b]).snapshot.id.0@ by {
        let x = if a < i { a } else { a + 1 };
        let y = if b < i { b } else { b + 1 };
        assert(t[a] == s[x] && t[b] == s[y]);
        assert(s[x].snapshot.id.0@ != s[y].snapshot.id.0@);
    }
    assert forall|a: int, b: int| 0 <= a < b < t.len() implies (#[trigger] t[a]).snapshot.external_session_id@
        != (#[trigger] t[b]).snapshot.external_session_id@ by {
        let x = if a < i { a } else { a + 1 };
        let y = if b < i { b } else { b + 1 };
        assert(t[a] == s[x] && t[b] == s[y]);
        assert(s[x].snapshot.external_session_id@ != s[y].snapshot.external_session_id@);
    }
    assert forall|a: int| 0 <= a < t.len() implies record_wf(#[trigger] t[a], l) by {
        let x = if a < i { a } else { a + 1 };
        assert(t[a] == s[x]);
        assert(record_wf(s[x], l));
    }
}

/// The sessions that have not outlived their lifetime, in order.
pub open spec fn live<P>(s: Seq<StudioBridgeSessionRecord<P>>, l: StudioBridgeLimits, now: i64) -> Seq<StudioBridgeSessionRecord<P>> {
    s.filter(|r: StudioBridgeSessionRecord<P>| !is_expired(r.snapshot, l, now))
}

/// The record after being marked stale when it has outlived its lifetime.
pub open spec fn marked<P>(r: StudioBridgeSessionRecord<P>, l: StudioBridgeLimits, now: i64) -> StudioBridgeSessionRecord<P> {
    if is_expired(r.snapshot, l, now) {
        StudioBridgeSessionRecord {
            snapshot: StudioBridgeSessionSnapshot { state: StudioBridgeSessionState::Stale, ..r.snapshot },
            ..r
        }
    } else {
        r
    }
}

/// Every session, marked stale where it has outlived its lifetime.
pub open spec fn all_marked<P>(s: Seq<StudioBridgeSessionRecord<P>>, l: StudioBridgeLimits, now: i64) -> Seq<StudioBridgeSessionRecord<P>> {
    s.map_values(|r: StudioBridgeSessionRecord<P>| marked(r, l, now))
}

/// `now - then`, saturating at the bounds of `i64`.
fn elapsed_ms(now: i64, then: i64) -> (r: i64)
    ensures
        r == sat_i64(now - then),
{
    match now.checked_sub(then) {
        Some(d) => d,
        None => if then > 0 { i64::MIN } else { i64::MAX },
    }
}

fn session_ttl(l: &StudioBridgeLimits) -> (r: i64)
    ensures
        r == ttl_ms(*l),
{
    if l.session_ttl_ms > 9223372036854775807u64 {
        9223372036854775807i64
    } else {
        l.session_ttl_ms as i64
    }
}

impl<P> StudioBridgeBroker<P> {
    /// Forgets every session that has outlived its lifetime.
    fn expire_sessions(&mut self, now: i64)
        requires
            old(self).wf(),
        ensures
            final(self).wf(),
            final(self).limits_spec() == old(self).limits_spec(),
            final(self).backend_spec() == old(self).backend_spec(),
            final(self).records() == live(old(self).records(), old(self).limits_spec(), now),
    {
        let ghost l = self.limits;
        let ghost pred = |r: StudioBridgeSessionRecord<P>| !is_expired(r.snapshot, l, now);
        let ghost original = self.sessions@;
        let ttl = session_ttl(&self.limits);
        let n0 = self.sessions.len();
        let mut i: usize = 0;
        let mut j: usize = 0;
        while i < self.sessions.len()
            invariant
                i <= self.sessions@.len(),
                j <= original.len(),
                self.limits == l,
                self.backend == old(self).backend,
                ttl == ttl_ms(l),
                records_wf(self.sessions@, l),
                self.sessions@.subrange(0, i as int) == original.subrange(0, j as int).filter(pred),
                self.sessions@.subrange(i as int, self.sessions@.len() as int) == original.subrange(j as int, original.len() as int),
                self.sessions@.len() - i == original.len() - j,
                original.len() == n0,
                pred == (|r: StudioBridgeSessionRecord<P>| !is_expired(r.snapshot, l, now)),
            decreases self.sessions@.len() - i,
        {
            let ghost before = self.sessions@;
            proof {
                assert(original.subrange(0, j + 1) =~= original.subrange(0, j as int).push(original[j as int]));
                original.subrange(0, j as int).lemma_filter_push(original[j as int], pred);
                assert(before[i as int] == original[j as int]) by {
                    assert(before.subrange(i as int, before.len() as int)[0] == before[i as int]);
                    assert(original.subrange(j as int, original.len() as int)[0] == original[j as int]);
                }
            }
            if elapsed_ms(now, self.sessions[i].snapshot.last_seen_unix_ms) > ttl {
                proof { lemma_remove_record(before, l, i as int); }
                self.sessions.remove(i);
                proof {
                    assert(self.sessions@.subrange(0, i as int) =~= before.subrange(0, i as int));
                    let tail = before.subrange(i as int, before.len() as int);
                    assert(self.sessions@.subrange(i as int, self.sessions@.len() as int) =~= tail.subrange(1, tail.len() as int));
                    assert(tail.subrange(1, tail.len() as int) =~= original.subrange(j + 1, original.len() as int));
                }
            } else {
                i = i + 1;
                proof {
                    assert(self.sessions@.subrange(0, i as int) =~= before.subrange(0, i - 1).push(before[i - 1]));
                    let tail = before.subrange(i - 1, before.len() as int);
                    assert(self.sessions@.subrange(i as int, self.sessions@.len() as int) =~= tail.subrange(1, tail.len() as int));
                    assert(tail.subrange(1, tail.len() as int) =~= original.subrange(j + 1, original.len() as int));
                }
            }
            j = j + 1;
        }
        proof {
            assert(self.sessions@ =~= self.sessions@.subrange(0, i as int));
            assert(original.subrange(0, j as int) =~= original);
        }
    }

    /// Marks every session that has outlived its lifetime as stale.
    fn mark_stale_sessions(&mut self, now: i64)
        requires
            old(self).wf(),
        ensures
            final(self).wf(),
            final(self).limits_spec() == old(self).limits_spec(),
            final(self).backend_spec() == old(self).backend_spec(),
            final(self).records() == all_marked(old(self).records(), old(self).limits_spec(), now),
    {
        let ghost original = self.sessions@;
        let ghost l = self.limits;
        let ttl = session_ttl(&self.limits);
        let mut i: usize = 0;
        while i < self.sessions.len()
            invariant
                i <= self.sessions@.len(),
                self.sessions@.len() == original.len(),
                self.limits == l,
                self.backend == old(self).backend,
                ttl == ttl_ms(l),
                records_wf(self.sessions@, l),
                forall|k: int| 0 <= k < i ==> self.sessions@[k] == marked(#[trigger] original[k], l, now),
                forall|k: int| i <= k < original.len() ==> self.sessions@[k] == original[k],
            decreases self.sessions@.len() - i,
        {
            if elapsed_ms(now, self.sessions[i].snapshot.last_seen_unix_ms) > ttl {
                let ghost before = self.sessions@;
                let mut record = self.sessions.remove(i);
                record.snapshot.state = StudioBridgeSessionState::Stale;
                proof { lemma_replace_record(before, l, i as int, record); }
                self.sessions.insert(i, record);
                proof { assert(self.sessions@ =~= before.update(i as int, record)); }
            }
            i = i + 1;
        }
        proof {
            assert(self.sessions@ =~= all_marked(original, l, now));
        }
    }
}

/// Putting a session at position `i` keeps the registry well formed when no
/// other session shares its identities.
pub proof fn lemma_set_record<P>(s: Seq<StudioBridgeSessionRecord<P>>, l: StudioBridgeLimits, i: int, r: StudioBridgeSessionRecord<P>)
    requires
        records_wf(s, l),
        0 <= i <= s.len(),
        forall|j: int| 0 <= j < s.len() && j != i ==> (#[trigger] s[j]).snapshot.id.0@ != r.snapshot.id.0@
            && s[j].snapshot.external_session_id@ != r.snapshot.external_session_id@,
        record_wf(r, l),
    ensures
        records_wf(if i < s.len() { s.update(i, r) } else { s.push(r) }, l),
{
    let t = if i < s.len() { s.update(i, r) } else { s.push(r) };
    assert forall|a: int, b: int| 0 <= a < b < t.len() implies (#[trigger] t[a]).snapshot.id.0@ != (#[trigger] t[b]).snapshot.id.0@ by {
        if a != i && b != i {
            assert(s[a].snapshot.id.0@ != s[b].snapshot.id.0@);
        } else if a == i {
            assert(s[b].snapshot.id.0@ != r.snapshot.id.0@);
        } else {
            assert(s[a].snapshot.id.0@ != r.snapshot.id.0@);
        }
    }
    assert forall|a: int, b: int| 0 <= a < b < t.len() implies (#[trigger] t[a]).snapshot.external_session_id@
        != (#[trigger] t[b]).snapshot.external_session_id@ by {
        if a != i && b != i {
            assert(s[a].snapshot.external_session_id@ != s[b].snapshot.external_session_id@);
        } else if a == i {
            assert(s[b].snapshot.external_session_id@ != r.snapshot.external_session_id@);
        } else {
            assert(s[a].snapshot.external_session_id@ != r.snapshot.external_session_id@);
        }
    }
    assert forall|a: int| 0 <= a < t.len() implies record_wf(#[trigger] t[a], l) by {
        if a != i {
            assert(record_wf(s[a], l));
        }
    }
}

/// The session's state after a registration refreshed it.
pub open spec fn refreshed<P>(r: StudioBridgeSessionRecord<P>, reg: StudioBridgeRegistration, now: i64) -> StudioBridgeSessionRecord<P> {
    StudioBridgeSessionRecord {
        snapshot: StudioBridgeSessionSnapshot {
            plugin_version: reg.plugin_version,
            data_model: reg.data_model,
            place_id: reg.place_id,
            universe_id: reg.universe_id,
            is_running: reg.is_running,
            last_seen_unix_ms: now,
            state: if r.snapshot.binding is Some { StudioBridgeSessionState::Bound } else { StudioBridgeSessionState::Unbound },
            ..r.snapshot
        },
        ..r
    }
}

/// A session just created by a registration: unbound, with nothing queued.
pub open spec fn is_fresh_record<P>(r: StudioBridgeSessionRecord<P>, reg: StudioBridgeRegistration, id: StudioBridgeSessionId, now: i64) -> bool {
    &&& r.snapshot == (StudioBridgeSessionSnapshot {
        id,
        external_session_id: reg.external_session_id,
        plugin_version: reg.plugin_version,
        data_model: reg.data_model,
        place_id: reg.place_id,
        universe_id: reg.universe_id,
        is_running: reg.is_running,
        state: StudioBridgeSessionState::Unbound,
        binding: None,
        created_unix_ms: now,
        last_seen_unix_ms: now,
        last_report_sequence: None,
        queued_commands: 0,
        in_flight_commands: 0,
        retained_events: 0,
        dropped_events_total: 0,
    })
    &&& r.queued_commands@.len() == 0
    &&& r.in_flight_commands@.len() == 0
    &&& r.events@.len() == 0
    &&& r.last_response is None
}

/// The answer to a registration of session `id`.
pub open spec fn answers_registration(resp: StudioBridgeRegistrationResponse, id: StudioBridgeSessionId, l: StudioBridgeLimits, backend: StudioBridgeBackendState) -> bool {
    &&& resp.protocol_version == BRIDGE_PROTOCOL_VERSION
    &&& resp.session_id == id
    &&& resp.report_interval_ms == l.report_interval_ms
    &&& resp.max_events_per_report == l.max_events_per_report
    &&& resp.max_commands_per_report == l.max_commands_per_report
    &&& backend_model(resp.backend) == backend_model(backend)
}

/// How a valid registration changes the live sessions `m` into `t`.
pub open spec fn registration_outcome<P>(
    m: Seq<StudioBridgeSessionRecord<P>>,
    reg: StudioBridgeRegistration,
    now: i64,
    l: StudioBridgeLimits,
    backend: StudioBridgeBackendState,
    t: Seq<StudioBridgeSessionRecord<P>>,
    r: Result<StudioBridgeRegistrationResponse, StudioBridgeError>,
) -> bool {
    let k = external_index(m, reg.external_session_id@);
    if k >= 0 {
        &&& r matches Ok(resp) && answers_registration(resp, m[k].snapshot.id, l, backend)
        &&& t == m.update(k, refreshed(m[k], reg, now))
    } else if m.len() >= l.max_sessions {
        r == Err::<StudioBridgeRegistrationResponse, StudioBridgeError>(StudioBridgeError::SessionCapacityExceeded) && t == m
    } else {
        &&& r matches Ok(resp) && answers_registration(resp, resp.session_id, l, backend)
        &&& ({
            let id = r->Ok_0.session_id;
            let idx = session_index(m, id.0@);
            if idx >= 0 {
                &&& t.len() == m.len()
                &&& forall|j: int| 0 <= j < m.len() && j != idx ==> t[j] == m[j]
                &&& is_fresh_record(t[idx], reg, id, now)
            } else {
                &&& t.len() == m.len() + 1
                &&& t.subrange(0, m.len() as int) == m
                &&& is_fresh_record(t[m.len() as int], reg, id, now)
            }
        })
    }
}

/// What a registration does: it is checked, expired sessions are dropped, and
/// the plugin's session is refreshed or created.
pub open spec fn register_outcome<P>(
    b: StudioBridgeBroker<P>,
    reg: StudioBridgeRegistration,
    now: i64,
    c: StudioBridgeBroker<P>,
    r: Result<StudioBridgeRegistrationResponse, StudioBridgeError>,
) -> bool {
    let s = b.records();
    let l = b.limits_spec();
    &&& c.limits_spec() == l
    &&& c.backend_spec() == b.backend_spec()
    &&& if reg.protocol_version != BRIDGE_PROTOCOL_VERSION {
        r == Err::<StudioBridgeRegistrationResponse, StudioBridgeError>(StudioBridgeError::ProtocolMismatch {
            expected: BRIDGE_PROTOCOL_VERSION,
            received: reg.protocol_version,
        }) && c.records() == s
    } else if !small_identifier(reg.external_session_id@) || !small_identifier(reg.plugin_version@) {
        r == Err::<StudioBridgeRegistrationResponse, StudioBridgeError>(StudioBridgeError::InvalidRegistration) && c.records() == s
    } else {
        registration_outcome(live(s, l, now), reg, now, l, b.backend_spec(), c.records(), r)
    }
}

impl<P> StudioBridgeBroker<P> {
    /// The position of the session owned by a plugin identity.
    fn find_external(&self, ext: &String) -> (r: Option<usize>)
        requires
            self.wf(),
        ensures
            r matches Some(i) ==> i < self.records().len() && external_index(self.records(), ext@) == i,
            r is None ==> external_index(self.records(), ext@) == -1,
    {
        let mut i: usize = 0;
        while i < self.sessions.len()
            invariant
                i <= self.sessions@.len(),
                self.wf(),
                forall|k: int| 0 <= k < i ==> (#[trigger] self.sessions@[k]).snapshot.external_session_id@ != ext@,
            decreases self.sessions@.len() - i,
        {
            if self.sessions[i].snapshot.external_session_id == *ext {
                proof { lemma_external_index(self.records(), self.limits, i as int); }
                return Some(i);
            }
            i = i + 1;
        }
        None
    }

    fn registration_response(&self, session_id: StudioBridgeSessionId) -> (r: StudioBridgeRegistrationResponse)
        ensures
            answers_registration(r, session_id, self.limits, self.backend),
    {
        StudioBridgeRegistrationResponse {
            protocol_version: BRIDGE_PROTOCOL_VERSION,
            session_id,
            report_interval_ms: self.limits.report_interval_ms,
            max_events_per_report: self.limits.max_events_per_report,
            max_commands_per_report: self.limits.max_commands_per_report,
            backend: self.backend.clone(),
        }
    }

    /// Registers or refreshes one plugin-owned Studio session; one plugin
    /// identity keeps one session while it stays alive.
    pub fn register(&mut self, registration: StudioBridgeRegistration, now: i64) -> (r: Result<StudioBridgeRegistrationResponse, StudioBridgeError>)
        requires
            old(self).wf(),
        ensures
            final(self).wf(),
            register_outcome(*old(self), registration, now, *final(self), r),
    {
        if let Err(e) = validate_protocol(registration.protocol_version) {
            return Err(e);
        }
        if let Err(e) = validate_small_identifier(registration.external_session_id.as_str()) {
            return Err(e);
        }
        if let Err(e) = validate_small_identifier(registration.plugin_version.as_str()) {
            return Err(e);
        }
        self.expire_sessions(now);
        let ghost m = self.sessions@;
        let ghost l = self.limits;
        let found = self.find_external(&registration.external_session_id);
        if let Some(k) = found {
            let mut record = self.sessions.remove(k);
            record.snapshot.plugin_version = registration.plugin_version;
            record.snapshot.data_model = registration.data_model;
            record.snapshot.place_id = registration.place_id;
            record.snapshot.universe_id = registration.universe_id;
            record.snapshot.is_running = registration.is_running;
            record.snapshot.last_seen_unix_ms = now;
            record.snapshot.state = if record.snapshot.binding.is_some() {
                StudioBridgeSessionState::Bound
            } else {
                StudioBridgeSessionState::Unbound
            };
            let session_id = record.snapshot.id;
            proof {
                assert(record == refreshed(m[k as int], registration, now));
                lemma_replace_record(m, l, k as int, record);
            }
            self.sessions.insert(k, record);
            proof { assert(self.sessions@ =~= m.update(k as int, record)); }
            return Ok(self.registration_response(session_id));
        }
        if self.sessions.len() >= self.limits.max_sessions {
            return Err(StudioBridgeError::SessionCapacityExceeded);
        }
        let session_id = StudioBridgeSessionId::new();
        let snapshot = StudioBridgeSessionSnapshot {
            id: session_id,
            external_session_id: registration.external_session_id,
            plugin_version: registration.plugin_version,
            data_model: registration.data_model,
            place_id: registration.place_id,
            universe_id: registration.universe_id,
            is_running: registration.is_running,
            state: StudioBridgeSessionState::Unbound,
            binding: None,
            created_unix_ms: now,
            last_seen_unix_ms: now,
            last_report_sequence: None,
            queued_commands: 0,
            in_flight_commands: 0,
            retained_events: 0,
            dropped_events_total: 0,
        };
        let record = StudioBridgeSessionRecord {
            snapshot,
            queued_commands: Vec::new(),
            in_flight_commands: Vec::new(),
            events: Vec::new(),
            last_response: None,
        };
        proof {
            assert(command_keys(record.in_flight_commands@) =~= Seq::<Seq<int>>::empty());
            assert(record_wf(record, l));
        }
        let at = self.find_session(&session_id);
        match at {
            Some(idx) => {
                proof {
                    assert forall|j: int| 0 <= j < m.len() && j != idx implies (#[trigger] m[j]).snapshot.id.0@ != record.snapshot.id.0@
                        && m[j].snapshot.external_session_id@ != record.snapshot.external_session_id@ by {
                        if j < idx {
                            assert(m[j].snapshot.id.0@ != m[idx as int].snapshot.id.0@);
                        } else {
                            assert(m[idx as int].snapshot.id.0@ != m[j].snapshot.id.0@);
                        }
                    }
                    lemma_set_record(m, l, idx as int, record);
                }
                self.sessions.remove(idx);
                self.sessions.insert(idx, record);
                proof { assert(self.sessions@ =~= m.update(idx as int, record)); }
            },
            None => {
                proof { lemma_set_record(m, l, m.len() as int, record); }
                self.sessions.push(record);
                proof { assert(self.sessions@.subrange(0, m.len() as int) =~= m); }
            },
        }
        let resp = self.registration_response(session_id);
        proof {
            assert(external_index(m, registration.external_session_id@) == -1);
            assert(is_fresh_record(record, registration, session_id, now));
        }
        Ok(resp)
    }
}

pub open spec fn snapshots_of<P>(s: Seq<StudioBridgeSessionRecord<P>>) -> Seq<StudioBridgeSessionSnapshot> {
    s.map_values(|r: StudioBridgeSessionRecord<P>| r.snapshot)
}

/// Snapshots ordered by creation time.
pub open spec fn by_creation(s: Seq<StudioBridgeSessionSnapshot>) -> bool {
    forall|a: int, b: int| 0 <= a < b < s.len() ==> (#[trigger] s[a]).created_unix_ms <= (#[trigger] s[b]).created_unix_ms
}

impl<P> StudioBridgeBroker<P> {
    /// Every session, oldest first; those that outlived their lifetime are
    /// marked stale.
    pub fn session_snapshots(&mut self, now: i64) -> (r: Vec<StudioBridgeSessionSnapshot>)
        requires
            old(self).wf(),
        ensures
            final(self).wf(),
            final(self).limits_spec() == old(self).limits_spec(),
            final(self).backend_spec() == old(self).backend_spec(),
            final(self).records() == all_marked(old(self).records(), old(self).limits_spec(), now),
            r@.to_multiset() == snapshots_of(final(self).records()).to_multiset(),
            by_creation(r@),
    {
        self.mark_stale_sessions(now);
        let ghost snaps = snapshots_of(self.sessions@);
        let mut out: Vec<StudioBridgeSessionSnapshot> = Vec::new();
        proof { assert(snaps.take(0) =~= out@); }
        let mut i: usize = 0;
        while i < self.sessions.len()
            invariant
                i <= self.sessions@.len(),
                snaps == snapshots_of(self.sessions@),
                by_creation(out@),
                out@.to_multiset() == snaps.take(i as int).to_multiset(),
            decreases self.sessions@.len() - i,
        {
            let snap = self.sessions[i].snapshot.clone();
            let mut pos: usize = 0;
            while pos < out.len()
                invariant
                    pos <= out@.len(),
                    forall|a: int| 0 <= a < pos ==> (#[trigger] out@[a]).created_unix_ms <= snap.created_unix_ms,
                ensures
                    pos <= out@.len(),
                    forall|a: int| 0 <= a < pos ==> (#[trigger] out@[a]).created_unix_ms <= snap.created_unix_ms,
                    pos < out@.len() ==> out@[pos as int].created_unix_ms > snap.created_unix_ms,
                decreases out@.len() - pos,
            {
                if out[pos].created_unix_ms > snap.created_unix_ms {
                    break;
                }
                pos = pos + 1;
            }
            let ghost before = out@;
            out.insert(pos, snap);
            proof {
                vstd::seq_lib::to_multiset_insert(before, pos as int, snap);
                assert(snaps.take(i + 1) =~= snaps.take(i as int).push(snaps[i as int]));
                vstd::seq_lib::to_multiset_build(snaps.take(i as int), snaps[i as int]);
                assert forall|a: int, b: int| 0 <= a < b < out@.len() implies (#[trigger] out@[a]).created_unix_ms
                    <= (#[trigger] out@[b]).created_unix_ms by {
                    if b < pos {
                    } else if b == pos {
                    } else if a == pos {
                        assert(out@[b] == before[b - 1]);
                        if b - 1 > pos {
                            assert(before[pos as int].created_unix_ms <= before[b - 1].created_unix_ms);
                        }
                    } else if a < pos {
                        assert(out@[b] == before[b - 1]);
                    } else {
                        assert(out@[a] == before[a - 1] && out@[b] == before[b - 1]);
                    }
                }
            }
            i = i + 1;
        }
        proof { assert(snaps.take(i as int) =~= snaps); }
        out
    }
}

/// The last command with an identity is one of the list's commands.
pub proof fn lemma_last_with_key_member(s: Seq<StudioBridgeCommand>, k: Seq<int>)
    ensures
        last_with_key(s, k) matches Some(c) ==> s.contains(c),
    decreases s.len(),
{
    if s.len() > 0 && command_key(s.last()) != k {
        lemma_last_with_key_member(s.drop_last(), k);
        if last_with_key(s.drop_last(), k) is Some {
            let c = last_with_key(s.drop_last(), k)->0;
            let j = choose|j: int| 0 <= j < s.drop_last().len() && s.drop_last()[j] == c;
            assert(s[j] == c);
        }
    } else if s.len() > 0 {
        assert(s[s.len() - 1] == s.last());
    }
}

/// Every command of `cmds` is one of `own`.
pub open spec fn drawn_from(own: Seq<StudioBridgeCommand>, cmds: Seq<StudioBridgeCommand>) -> bool {
    forall|x: int| 0 <= x < cmds.len() ==> #[trigger] commands_model(own).contains(command_model(cmds[x]))
}

/// A plugin identity keeps its session: registering it again while the
/// session is alive answers with the same session identity.
pub proof fn law_registration_is_stable<P>(
    b0: StudioBridgeBroker<P>,
    b1: StudioBridgeBroker<P>,
    b2: StudioBridgeBroker<P>,
    first: StudioBridgeRegistration,
    second: StudioBridgeRegistration,
    now1: i64,
    now2: i64,
    r1: Result<StudioBridgeRegistrationResponse, StudioBridgeError>,
    r2: Result<StudioBridgeRegistrationResponse, StudioBridgeError>,
)
    requires
        b0.wf(),
        b1.wf(),
        register_outcome(b0, first, now1, b1, r1),
        register_outcome(b1, second, now2, b2, r2),
        r1 is Ok,
        second.protocol_version == BRIDGE_PROTOCOL_VERSION,
        small_identifier(second.external_session_id@),
        small_identifier(second.plugin_version@),
        second.external_session_id@ == first.external_session_id@,
        sat_i64(now2 - now1) <= ttl_ms(b0.limits_spec()),
    ensures
        r2 matches Ok(x) && x.session_id == r1->Ok_0.session_id,
{
    broadcast use vstd::seq_lib::group_filter_ensures;
    let l = b0.limits_spec();
    let s0 = b0.records();
    let m = live(s0, l, now1);
    let t = b1.records();
    let id = r1->Ok_0.session_id;
    let ext = first.external_session_id@;
    // The registered session sits somewhere in `t`, seen at `now1`.
    let k = external_index(m, ext);
    let j: int = if k >= 0 {
        k
    } else {
        let idx = session_index(m, id.0@);
        if idx >= 0 { idx } else { m.len() as int }
    };
    assert(0 <= j < t.len());
    assert(t[j].snapshot.id == id && t[j].snapshot.external_session_id@ == ext && t[j].snapshot.last_seen_unix_ms == now1);
    // It outlives the second registration's expiry.
    let pred = |r: StudioBridgeSessionRecord<P>| !is_expired(r.snapshot, l, now2);
    assert(pred(t[j]));
    t.lemma_filter_contains(pred, j);
    let m2 = live(t, l, now2);
    assert(m2.contains(t[j]));
    let w = choose|w: int| 0 <= w < m2.len() && m2[w] == t[j];
    assert(m2[w].snapshot.external_session_id@ == ext);
    let k2 = external_index(m2, ext);
    assert(k2 >= 0);
    // Only one session has that plugin identity.
    assert(m2.contains(m2[k2]));
    t.lemma_filter_contains_rev(pred, m2[k2]);
    let q = choose|q: int| 0 <= q < t.len() && t[q] == m2[k2];
    lemma_external_index(t, l, q);
    lemma_external_index(t, l, j);
}

/// A repeated report is answered exactly as before and changes nothing, so a
/// response lost in transit never dispatches a command twice.
pub proof fn law_report_replay_is_stable<P, V>(
    b0: StudioBridgeBroker<P>,
    b1: StudioBridgeBroker<P>,
    b2: StudioBridgeBroker<P>,
    first: StudioBridgeReport<P, V>,
    again: StudioBridgeReport<P, V>,
    now1: i64,
    now2: i64,
    r1: Result<(StudioBridgeReportResponse, Vec<StudioBridgeCommandResult<V>>), StudioBridgeError>,
    r2: Result<(StudioBridgeReportResponse, Vec<StudioBridgeCommandResult<V>>), StudioBridgeError>,
)
    requires
        b0.wf(),
        b1.wf(),
        report_outcome(b0, first, now1, b1, r1),
        report_outcome(b1, again, now2, b2, r2),
        r1 is Ok,
        again.protocol_version == BRIDGE_PROTOCOL_VERSION,
        again.events@.len() <= b0.limits_spec().max_events_per_report,
        again.command_results@.len() <= b0.limits_spec().max_command_results_per_report,
        again.session_id == first.session_id,
        again.report_sequence == first.report_sequence,
    ensures
        r2 matches Ok((resp, routed)) && response_model(resp) == response_model(r1->Ok_0.0) && routed@.len() == 0,
        b2.records() == b1.records(),
{
    let s = b0.records();
    let i = session_index(s, first.session_id.0@);
    assert(i >= 0);
    lemma_session_index(b1.records(), b1.limits_spec(), i);
}

/// A report answers only with commands of its own session: those queued or
/// in flight for it, or its previous answer; every other session is left as it was.
pub proof fn law_commands_stay_in_their_session<P, V>(
    b: StudioBridgeBroker<P>,
    rep: StudioBridgeReport<P, V>,
    now: i64,
    c: StudioBridgeBroker<P>,
    r: Result<(StudioBridgeReportResponse, Vec<StudioBridgeCommandResult<V>>), StudioBridgeError>,
)
    requires
        b.wf(),
        c.wf(),
        report_outcome(b, rep, now, c, r),
        r is Ok,
    ensures
        ({
            let s = b.records();
            let i = session_index(s, rep.session_id.0@);
            let own = s[i].queued_commands@ + s[i].in_flight_commands@;
            &&& 0 <= i < s.len()
            &&& c.records().len() == s.len()
            &&& forall|j: int| 0 <= j < s.len() && j != i ==> c.records()[j] == s[j]
            &&& if s[i].snapshot.last_report_sequence == Some(rep.report_sequence) {
                s[i].last_response matches Some(last) && commands_model(r->Ok_0.0.commands@) == commands_model(last.commands@)
            } else {
                drawn_from(own, r->Ok_0.0.commands@)
            }
        }),
{
    broadcast use vstd::seq_lib::group_filter_ensures;
    let s = b.records();
    let i = session_index(s, rep.session_id.0@);
    let a = s[i];
    let resp = r->Ok_0.0;
    assert(0 <= i < s.len());
    assert(c.records().len() == s.len());
    assert(forall|j: int| 0 <= j < s.len() && j != i ==> c.records()[j] == s[j]);
    if s[i].snapshot.last_report_sequence != Some(rep.report_sequence) {
        let z = c.records()[i];
        let own = a.queued_commands@ + a.in_flight_commands@;
        let remaining = unanswered(a.in_flight_commands@, rep.command_results@);
        let n = dispatch_count(b.limits_spec(), remaining.len(), a.queued_commands@.len());
        let moved = a.queued_commands@.take(n as int);
        let shown = z.in_flight_commands@.take(if z.in_flight_commands@.len() < b.limits_spec().max_commands_per_report {
            z.in_flight_commands@.len() as int
        } else {
            b.limits_spec().max_commands_per_report as int
        });
        assert forall|x: int| 0 <= x < resp.commands@.len() implies #[trigger] commands_model(own).contains(command_model(resp.commands@[x])) by {
            assert(commands_model(resp.commands@).len() == resp.commands@.len());
            assert(commands_model(shown).len() == shown.len());
            assert(x < shown.len());
            assert(commands_model(resp.commands@)[x] == commands_model(shown)[x]);
            let e = shown[x];
            assert(e == z.in_flight_commands@[x]);
            lemma_command_with_key(z.in_flight_commands@, x);
            let key = command_key(e);
            lemma_last_with_key_member(moved, key);
            if last_with_key(moved, key) is Some {
                let q = choose|q: int| 0 <= q < moved.len() && moved[q] == e;
                assert(own[q] == e);
                assert(commands_model(own)[q] == command_model(e));
            } else {
                assert(command_with_key(remaining, key) == Some(e));
                let q = choose|q: int| 0 <= q < remaining.len() && command_key(#[trigger] remaining[q]) == key;
                assert(remaining[q] == e);
                assert(remaining.contains(e));
                a.in_flight_commands@.lemma_filter_contains_rev(|c: StudioBridgeCommand| !ids_of(rep.command_results@).contains(c.id.0@), e);
                let p = choose|p: int| 0 <= p < a.in_flight_commands@.len() && a.in_flight_commands@[p] == e;
                assert(own[a.queued_commands@.len() + p] == e);
                assert(commands_model(own)[a.queued_commands@.len() + p] == command_model(e));
            }
        }
        assert(drawn_from(own, resp.commands@));
    } else {
        let last = s[i].last_response->0;
        assert(response_model(resp) == response_model(last));
        assert(response_model(resp).1 == commands_model(resp.commands@));
        assert(response_model(last).1 == commands_model(last.commands@));
    }
}

/// Event retention is bounded and counted: an accepted report keeps at most
/// the session's bound of events, the newest ones, and every event that is
/// not kept adds one to the dropped total (which saturates).
pub proof fn law_event_retention_is_bounded_and_counted<P, V>(
    b: StudioBridgeBroker<P>,
    rep: StudioBridgeReport<P, V>,
    now: i64,
    c: StudioBridgeBroker<P>,
    r: Result<(StudioBridgeReportResponse, Vec<StudioBridgeCommandResult<V>>), StudioBridgeError>,
)
    requires
        b.wf(),
        c.wf(),
        report_outcome(b, rep, now, c, r),
        r is Ok,
        ({
            let i = session_index(b.records(), rep.session_id.0@);
            b.records()[i].snapshot.last_report_sequence != Some(rep.report_sequence)
        }),
    ensures
        ({
            let i = session_index(b.records(), rep.session_id.0@);
            let a = b.records()[i];
            let z = c.records()[i];
            let all = a.events@ + rep.events@;
            let max = b.limits_spec().max_events_per_session;
            &&& z.events@.len() == if all.len() < max { all.len() } else { max as nat }
            &&& z.events@ == all.subrange(all.len() - z.events@.len(), all.len() as int)
            &&& z.snapshot.dropped_events_total == sat_u64(a.snapshot.dropped_events_total + (all.len() - z.events@.len()))
            &&& r->Ok_0.0.dropped_events_total == z.snapshot.dropped_events_total
        }),
{
}
} // verus!
