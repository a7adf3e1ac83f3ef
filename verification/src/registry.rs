//! The registry of retained upstream sessions, and the leases on them.
//!
//! The registry is generic in the handle `U` of a live connection. Points in time are numbers that
//! grow with time.

use crate::codex_ws::{is_uuid_text, new_session, window_id_of, Session, UpstreamSessionDescriptor};
use crate::text::{copy_text, optional_text, same_text, texts};
use crate::ws_pump::{Terminal, UpstreamTerminalState};
use std::collections::HashMap;
use vstd::hash_map::StringHashMap;
use vstd::prelude::*;

verus! {

broadcast use vstd::std_specs::hash::group_hash_axioms;

/// Why no session could be acquired.
#[derive(Debug, Clone, Copy, PartialEq, Eq, Structural)]
pub enum RegistryAcquireError {
    PreviousResponseNotFound,
    RetainedSessionConflict,
    RetainedSessionCapacityExceeded,
    UpstreamInboundBufferOverflow,
}

/// A retained session.
pub struct RegistryEntry<U> {
    pub session: UpstreamSessionDescriptor,
    pub window_generation: u64,
    pub upstream: Option<U>,
    pub in_use: bool,
    pub recoverable: bool,
    pub liveness_timed_out: bool,
    pub last_used: u64,
    pub markers: Vec<String>,
}

/// The contents of a [`RegistryEntry`].
#[verifier::ext_equal]
pub struct Entry<U> {
    pub session: Session,
    pub window_generation: u64,
    pub upstream: Option<U>,
    pub in_use: bool,
    pub recoverable: bool,
    pub liveness_timed_out: bool,
    pub last_used: u64,
    pub markers: Seq<Seq<char>>,
}

impl<U> View for RegistryEntry<U> {
    type V = Entry<U>;

    open spec fn view(&self) -> Entry<U> {
        Entry {
            session: self.session@,
            window_generation: self.window_generation,
            upstream: self.upstream,
            in_use: self.in_use,
            recoverable: self.recoverable,
            liveness_timed_out: self.liveness_timed_out,
            last_used: self.last_used,
            markers: texts(self.markers@),
        }
    }
}

/// The retained sessions, and the response markers that lead to them.
pub struct RetainedSessionRegistry<U> {
    pub capacity: usize,
    pub next_entry_id: u64,
    pub entries: HashMap<u64, RegistryEntry<U>>,
    pub markers: StringHashMap<u64>,
}

/// The contents of a [`RetainedSessionRegistry`].
#[verifier::ext_equal]
pub struct Registry<U> {
    pub capacity: usize,
    pub next_entry_id: u64,
    pub entries: Map<u64, Entry<U>>,
    pub markers: Map<Seq<char>, u64>,
}

/// The views of the entries of a registry.
pub open spec fn entries_view<U>(entries: Map<u64, RegistryEntry<U>>) -> Map<u64, Entry<U>> {
    Map::new(|id: u64| entries.contains_key(id), |id: u64| entries[id]@)
}

impl<U> View for RetainedSessionRegistry<U> {
    type V = Registry<U>;

    open spec fn view(&self) -> Registry<U> {
        Registry {
            capacity: self.capacity,
            next_entry_id: self.next_entry_id,
            entries: entries_view(self.entries@),
            markers: self.markers@,
        }
    }
}

/// A registry holds no more sessions than its capacity, hands out each id once, and every marker
/// leads to a session that lists it.
pub open spec fn registry_wf<U>(registry: Registry<U>) -> bool {
    &&& registry.entries.dom().finite()
    &&& registry.entries.len() <= registry.capacity
    &&& forall|id: u64| #[trigger]
        registry.entries.contains_key(id) ==> id < registry.next_entry_id
    &&& forall|marker: Seq<char>| #[trigger]
        registry.markers.contains_key(marker) ==> registry.entries.contains_key(
            registry.markers[marker],
        ) && registry.entries[registry.markers[marker]].markers.contains(marker)
}

/// A lease on a session, for one turn.
pub struct RetainedSessionLease<U> {
    pub entry_id: u64,
    pub session: UpstreamSessionDescriptor,
    pub upstream: Option<U>,
    pub armed: bool,
    pub removed: bool,
    pub released: bool,
}

/// The contents of a [`RetainedSessionLease`].
#[verifier::ext_equal]
pub struct Lease<U> {
    pub entry_id: u64,
    pub session: Session,
    pub upstream: Option<U>,
    pub armed: bool,
    pub removed: bool,
    pub released: bool,
}

impl<U> View for RetainedSessionLease<U> {
    type V = Lease<U>;

    open spec fn view(&self) -> Lease<U> {
        Lease {
            entry_id: self.entry_id,
            session: self.session@,
            upstream: self.upstream,
            armed: self.armed,
            removed: self.removed,
            released: self.released,
        }
    }
}

/// `copy` is a clone of `original`, or both are absent.
pub open spec fn is_handle_copy<U: Clone>(original: Option<U>, copy: Option<U>) -> bool {
    match (original, copy) {
        (Some(handle), Some(other)) => cloned(handle, other),
        (None, None) => true,
        _ => false,
    }
}

/// `lease` is a new lease on an entry.
pub open spec fn is_new_lease<U: Clone>(lease: Lease<U>, id: u64, entry: Entry<U>) -> bool {
    &&& lease.entry_id == id
    &&& lease.session == entry.session
    &&& is_handle_copy(entry.upstream, lease.upstream)
    &&& !lease.armed
    &&& !lease.removed
    &&& !lease.released
}

/// The registry with one entry replaced.
pub open spec fn with_entry<U>(registry: Registry<U>, id: u64, entry: Entry<U>) -> Registry<U> {
    Registry { entries: registry.entries.insert(id, entry), ..registry }
}

/// The registry without an entry and the markers that lead to it.
pub open spec fn without_entry<U>(registry: Registry<U>, id: u64) -> Registry<U> {
    Registry {
        entries: registry.entries.remove(id),
        markers: Map::new(
            |marker: Seq<char>|
                registry.markers.contains_key(marker) && registry.markers[marker] != id,
            |marker: Seq<char>| registry.markers[marker],
        ),
        ..registry
    }
}

/// The registry once a session is forgotten.
pub open spec fn forgotten<U>(registry: Registry<U>, id: u64) -> Registry<U> {
    if registry.entries.contains_key(id) {
        without_entry(registry, id)
    } else {
        registry
    }
}

/// The entry for a new session.
pub open spec fn new_entry<U>(session: Session, now: u64) -> Entry<U> {
    Entry {
        session,
        window_generation: 0,
        upstream: None,
        in_use: true,
        recoverable: true,
        liveness_timed_out: false,
        last_used: now,
        markers: Seq::empty(),
    }
}

/// The registry with a new session.
pub open spec fn with_new_session<U>(registry: Registry<U>, session: Session, now: u64) -> Registry<
    U,
> {
    Registry {
        next_entry_id: (registry.next_entry_id + 1) as u64,
        entries: registry.entries.insert(registry.next_entry_id, new_entry(session, now)),
        ..registry
    }
}

/// An entry that may make room for a new one: of those not in use, none was used less recently.
pub open spec fn is_evictable<U>(registry: Registry<U>, id: u64) -> bool {
    &&& registry.entries.contains_key(id)
    &&& !registry.entries[id].in_use
    &&& forall|other: u64| #[trigger]
        registry.entries.contains_key(other) && !registry.entries[other].in_use
            ==> registry.entries[id].last_used <= registry.entries[other].last_used
}

/// There is no room for a new session, and none can be made.
pub open spec fn is_exhausted<U>(registry: Registry<U>) -> bool {
    ||| registry.capacity == 0
    ||| registry.entries.len() >= registry.capacity && forall|id: u64| #[trigger]
        registry.entries.contains_key(id) ==> registry.entries[id].in_use
}

/// `after` is the registry with a new session, for which an entry made room where it had to.
pub open spec fn admits_session<U>(
    before: Registry<U>,
    after: Registry<U>,
    session: Session,
    now: u64,
) -> bool {
    if before.entries.len() < before.capacity {
        after == with_new_session(before, session, now)
    } else {
        exists|evicted: u64| #[trigger]
            is_evictable(before, evicted) && after == with_new_session(
                without_entry(before, evicted),
                session,
                now,
            )
    }
}

proof fn lemma_without_entry_wf<U>(registry: Registry<U>, id: u64)
    requires
        registry_wf(registry),
    ensures
        registry_wf(without_entry(registry, id)),
{
    let after = without_entry(registry, id);
    assert(after.entries.dom() =~= registry.entries.dom().remove(id));
}

proof fn lemma_with_entry_wf<U>(registry: Registry<U>, id: u64, entry: Entry<U>)
    requires
        registry_wf(registry),
        registry.entries.contains_key(id),
        entry.markers == registry.entries[id].markers,
    ensures
        registry_wf(with_entry(registry, id, entry)),
{
    let after = with_entry(registry, id, entry);
    assert(after.entries.dom() =~= registry.entries.dom());
}

/// What becomes of a request for an earlier session, given how its connection stands: the registry
/// afterwards, and the id of the entry or the reason for refusal.
pub open spec fn acquisition<U>(
    registry: Registry<U>,
    marker: Seq<char>,
    state: Terminal,
    now: u64,
) -> (Registry<U>, Result<u64, RegistryAcquireError>) {
    if !registry.markers.contains_key(marker) {
        (registry, Err(RegistryAcquireError::PreviousResponseNotFound))
    } else {
        let id = registry.markers[marker];
        let entry = registry.entries[id];
        if entry.in_use {
            (registry, Err(RegistryAcquireError::RetainedSessionConflict))
        } else if !entry.recoverable {
            (registry, Err(RegistryAcquireError::UpstreamInboundBufferOverflow))
        } else if entry.liveness_timed_out {
            (registry, Err(RegistryAcquireError::PreviousResponseNotFound))
        } else if entry.upstream is Some && state is InboundBufferOverflow {
            (
                with_entry(registry, id, Entry { upstream: None, recoverable: false, ..entry }),
                Err(RegistryAcquireError::UpstreamInboundBufferOverflow),
            )
        } else if entry.upstream is Some && state is LivenessTimeout {
            (
                with_entry(
                    registry,
                    id,
                    Entry { upstream: None, liveness_timed_out: true, ..entry },
                ),
                Err(RegistryAcquireError::PreviousResponseNotFound),
            )
        } else {
            let upstream = if state is Closed {
                None
            } else {
                entry.upstream
            };
            (
                with_entry(
                    registry,
                    id,
                    Entry { upstream, in_use: true, last_used: now, ..entry },
                ),
                Ok(id),
            )
        }
    }
}

fn copy_handle<U: Clone>(handle: &Option<U>) -> (copy: Option<U>)
    ensures
        is_handle_copy(*handle, copy),
{
    match handle {
        Some(inner) => Some(inner.clone()),
        None => None,
    }
}

fn lists_marker(markers: &Vec<String>, marker: &str) -> (found: bool)
    ensures
        found == texts(markers@).contains(marker@),
{
    let mut i: usize = 0;
    while i < markers.len()
        invariant
            i <= markers@.len(),
            forall|j: int| 0 <= j < i ==> (#[trigger] markers@[j])@ != marker@,
        decreases markers@.len() - i,
    {
        if same_text(markers[i].as_str(), marker) {
            assert(texts(markers@)[i as int] == marker@);
            return true;
        }
        i += 1;
    }
    assert forall|j: int| 0 <= j < texts(markers@).len() implies texts(markers@)[j] != marker@ by {
        assert(texts(markers@)[j] == markers@[j]@);
    }
    false
}

impl<U: Clone> RetainedSessionRegistry<U> {
    /// The contents obey the rules of a registry.
    pub open spec fn wf(&self) -> bool {
        registry_wf(self@)
    }

    /// An empty registry.
    pub fn new(capacity: usize) -> (registry: Self)
        ensures
            registry.wf(),
            registry@ == (Registry::<U> {
                capacity,
                next_entry_id: 1,
                entries: Map::empty(),
                markers: Map::empty(),
            }),
    {
        let registry = RetainedSessionRegistry {
            capacity,
            next_entry_id: 1,
            entries: HashMap::new(),
            markers: StringHashMap::new(),
        };
        assert(registry@.entries =~= Map::empty());
        registry
    }

    fn put_entry(&mut self, id: u64, entry: RegistryEntry<U>)
        ensures
            final(self)@ == with_entry(old(self)@, id, entry@),
    {
        let ghost before = self@;
        self.entries.insert(id, entry);
        assert(self@.entries =~= before.entries.insert(id, entry@));
    }

    fn take_entry(&mut self, id: u64) -> (entry: Option<RegistryEntry<U>>)
        ensures
            match entry {
                Some(taken) => old(self)@.entries.contains_key(id) && taken@
                    == old(self)@.entries[id] && final(self)@ == (Registry {
                    entries: old(self)@.entries.remove(id),
                    ..old(self)@
                }),
                None => !old(self)@.entries.contains_key(id) && final(self)@ == old(self)@,
            },
    {
        let ghost before = self@;
        let taken = self.entries.remove(&id);
        proof {
            if taken is Some {
                assert(self@.entries =~= before.entries.remove(id));
            } else {
                assert(self@.entries =~= before.entries);
            }
        }
        taken
    }

    /// Forgets a session and the markers that lead to it.
    pub fn remove_entry(&mut self, id: u64)
        requires
            old(self).wf(),
        ensures
            final(self).wf(),
            final(self)@ == forgotten(old(self)@, id),
    {
        let ghost before = self@;
        let entry = match self.take_entry(id) {
            Some(entry) => entry,
            None => return ,
        };
        let mut i: usize = 0;
        while i < entry.markers.len()
            invariant
                i <= entry.markers@.len(),
                self@.capacity == before.capacity,
                self@.next_entry_id == before.next_entry_id,
                self@.entries == before.entries.remove(id),
                entry@ == before.entries[id],
                forall|marker: Seq<char>| #[trigger]
                    self@.markers.contains_key(marker) ==> before.markers.contains_key(marker)
                        && self@.markers[marker] == before.markers[marker],
                forall|marker: Seq<char>| #[trigger]
                    before.markers.contains_key(marker) && before.markers[marker] != id
                        ==> self@.markers.contains_key(marker),
                forall|j: int|
                    0 <= j < i ==> !(self@.markers.contains_key((#[trigger] entry.markers@[j])@)
                        && self@.markers[entry.markers@[j]@] == id),
            decreases entry.markers@.len() - i,
        {
            let marker = entry.markers[i].as_str();
            let leads_here = match self.markers.get(marker) {
                Some(found) => *found == id,
                None => false,
            };
            let ghost previous = self@.markers;
            if leads_here {
                self.markers.remove(marker);
                assert(self@.markers =~= previous.remove(marker@));
                assert forall|other: Seq<char>| #[trigger]
                    self@.markers.contains_key(other) implies before.markers.contains_key(other)
                    && self@.markers[other] == before.markers[other] by {
                    assert(previous.contains_key(other));
                }
            }
            i += 1;
        }
        proof {
            assert forall|marker: Seq<char>| #[trigger]
                self@.markers.contains_key(marker) implies self@.markers[marker] != id by {
                if self@.markers[marker] == id {
                    let listed = before.entries[id].markers;
                    assert(listed.contains(marker));
                    let j = choose|j: int| 0 <= j < listed.len() && listed[j] == marker;
                    assert(entry.markers@[j]@ == marker);
                }
            }
            assert(self@.markers =~= without_entry(before, id).markers);
            lemma_without_entry_wf(before, id);
        }
    }

    fn least_recently_used(&self) -> (found: Option<u64>)
        ensures
            match found {
                Some(id) => is_evictable(self@, id),
                None => forall|id: u64| #[trigger]
                    self@.entries.contains_key(id) ==> self@.entries[id].in_use,
            },
    {
        let mut best: Option<(u64, u64)> = None;
        for key in iter: self.entries.keys()
            invariant
                iter.seq().unref().to_set() == self.entries@.dom(),
                match best {
                    Some((id, last_used)) => {
                        &&& self@.entries.contains_key(id)
                        &&& !self@.entries[id].in_use
                        &&& self@.entries[id].last_used == last_used
                        &&& forall|j: int|
                            0 <= j < iter.index() ==> self@.entries[*#[trigger] iter.seq()[j]].in_use
                                || last_used <= self@.entries[*iter.seq()[j]].last_used
                    },
                    None => forall|j: int|
                        0 <= j < iter.index() ==> self@.entries[*#[trigger] iter.seq()[j]].in_use,
                },
        {
            proof {
                let keys = iter.seq().unref();
                assert(keys[iter.index()] == *key);
                assert(keys.to_set().contains(*key));
            }
            let ghost id = *key;
            assert(self@.entries.contains_key(id));
            if let Some(entry) = self.entries.get(key) {
                if !entry.in_use {
                    let better = match best {
                        Some((_, last_used)) => entry.last_used < last_used,
                        None => true,
                    };
                    if better {
                        best = Some((*key, entry.last_used));
                    }
                }
            }
        }
        proof {
            let all = self.entries@.dom();
            assert forall|id: u64| #[trigger] self@.entries.contains_key(id) implies (match best {
                Some((_, last_used)) => self@.entries[id].in_use || last_used
                    <= self@.entries[id].last_used,
                None => self@.entries[id].in_use,
            }) by {
                assert(all.contains(id));
            }
        }
        match best {
            Some((id, _)) => Some(id),
            None => None,
        }
    }

    /// Takes up a new session, in the place of the least recently used one where there is no room.
    pub fn admit_session(&mut self, session: UpstreamSessionDescriptor, now: u64) -> (lease: Result<
        RetainedSessionLease<U>,
        RegistryAcquireError,
    >)
        requires
            old(self).wf(),
            old(self).next_entry_id < u64::MAX,
        ensures
            final(self).wf(),
            match lease {
                Ok(acquired) => !is_exhausted(old(self)@) && admits_session(
                    old(self)@,
                    final(self)@,
                    session@,
                    now,
                ) && is_new_lease(
                    acquired@,
                    old(self)@.next_entry_id,
                    new_entry(session@, now),
                ),
                Err(error) => error == RegistryAcquireError::RetainedSessionCapacityExceeded
                    && is_exhausted(old(self)@) && final(self)@ == old(self)@,
            },
    {
        let ghost before = self@;
        assert(self.entries@.dom() =~= before.entries.dom());
        if self.capacity == 0 {
            return Err(RegistryAcquireError::RetainedSessionCapacityExceeded);
        }
        if self.entries.len() >= self.capacity {
            match self.least_recently_used() {
                Some(id) => {
                    self.remove_entry(id);
                    assert(self@.entries.dom() =~= before.entries.dom().remove(id));
                    assert(self@ == without_entry(before, id) && is_evictable(before, id));
                },
                None => return Err(RegistryAcquireError::RetainedSessionCapacityExceeded),
            }
        }
        let ghost room = self@;
        let entry_id = self.next_entry_id;
        self.next_entry_id = entry_id + 1;
        let copy = session.copy();
        let entry = RegistryEntry {
            session: copy,
            window_generation: 0,
            upstream: None,
            in_use: true,
            recoverable: true,
            liveness_timed_out: false,
            last_used: now,
            markers: Vec::new(),
        };
        assert(texts(entry.markers@) =~= Seq::empty());
        self.put_entry(entry_id, entry);
        proof {
            assert(self@ == with_new_session(room, session@, now));
            assert(self@.entries.dom() =~= room.entries.dom().insert(entry_id));
            assert(!room.entries.contains_key(entry_id));
        }
        Ok(
            RetainedSessionLease {
                entry_id,
                session,
                upstream: None,
                armed: false,
                removed: false,
                released: false,
            },
        )
    }

    /// Acquires a new session.
    pub fn acquire_new(&mut self, now: u64) -> (lease: Result<
        RetainedSessionLease<U>,
        RegistryAcquireError,
    >)
        requires
            old(self).wf(),
            old(self).next_entry_id < u64::MAX,
        ensures
            final(self).wf(),
            acquires_new(old(self)@, final(self)@, None, now, lease),
    {
        self.acquire_new_with_thread_id(None, now)
    }

    /// Acquires a new session for a thread.
    pub fn acquire_new_with_thread_id(&mut self, thread_id: Option<String>, now: u64) -> (lease:
        Result<RetainedSessionLease<U>, RegistryAcquireError>)
        requires
            old(self).wf(),
            old(self).next_entry_id < u64::MAX,
        ensures
            final(self).wf(),
            acquires_new(old(self)@, final(self)@, optional_text(thread_id), now, lease),
    {
        let session = UpstreamSessionDescriptor::new(thread_id);
        self.admit_session(session, now)
    }

    /// The handle of the connection of the session that a marker leads to.
    pub fn upstream_of(&self, response_marker: &str) -> (handle: Option<U>)
        requires
            self.wf(),
        ensures
            is_handle_copy(
                if self@.markers.contains_key(response_marker@) {
                    self@.entries[self@.markers[response_marker@]].upstream
                } else {
                    None
                },
                handle,
            ),
    {
        match self.markers.get(response_marker) {
            Some(id) => match self.entries.get(id) {
                Some(entry) => copy_handle(&entry.upstream),
                None => None,
            },
            None => None,
        }
    }

    /// Acquires the session that a marker leads to, given how its connection stands.
    pub fn acquire_previous(
        &mut self,
        response_marker: &str,
        upstream_state: &UpstreamTerminalState,
        now: u64,
    ) -> (lease: Result<RetainedSessionLease<U>, RegistryAcquireError>)
        requires
            old(self).wf(),
        ensures
            final(self).wf(),
            final(self)@ == acquisition(old(self)@, response_marker@, upstream_state@, now).0,
            match acquisition(old(self)@, response_marker@, upstream_state@, now).1 {
                Ok(id) => lease matches Ok(acquired) && is_new_lease(
                    acquired@,
                    id,
                    final(self)@.entries[id],
                ),
                Err(error) => lease matches Err(refused) && refused == error,
            },
    {
        let ghost before = self@;
        let entry_id = match self.markers.get(response_marker) {
            Some(id) => *id,
            None => return Err(RegistryAcquireError::PreviousResponseNotFound),
        };
        let mut entry = match self.take_entry(entry_id) {
            Some(entry) => entry,
            None => {
                self.markers.remove(response_marker);
                return Err(RegistryAcquireError::PreviousResponseNotFound);
            },
        };
        let ghost original = entry@;
        let refusal = if entry.in_use {
            Some(RegistryAcquireError::RetainedSessionConflict)
        } else if !entry.recoverable {
            Some(RegistryAcquireError::UpstreamInboundBufferOverflow)
        } else if entry.liveness_timed_out {
            Some(RegistryAcquireError::PreviousResponseNotFound)
        } else if entry.upstream.is_some() {
            match upstream_state {
                UpstreamTerminalState::InboundBufferOverflow(_) => {
                    entry.upstream = None;
                    entry.recoverable = false;
                    Some(RegistryAcquireError::UpstreamInboundBufferOverflow)
                },
                UpstreamTerminalState::Closed(_) => {
                    entry.upstream = None;
                    None
                },
                UpstreamTerminalState::LivenessTimeout(_) => {
                    entry.upstream = None;
                    entry.liveness_timed_out = true;
                    Some(RegistryAcquireError::PreviousResponseNotFound)
                },
                UpstreamTerminalState::Open => None,
            }
        } else {
            None
        };
        let lease = match refusal {
            Some(error) => Err(error),
            None => {
                entry.in_use = true;
                entry.last_used = now;
                Ok(
                    RetainedSessionLease {
                        entry_id,
                        session: entry.session.copy(),
                        upstream: copy_handle(&entry.upstream),
                        armed: false,
                        removed: false,
                        released: false,
                    },
                )
            },
        };
        let ghost updated = entry@;
        self.put_entry(entry_id, entry);
        proof {
            assert(before.entries.remove(entry_id).insert(entry_id, updated)
                =~= before.entries.insert(entry_id, updated));
            assert(before.entries.insert(entry_id, original) =~= before.entries);
            lemma_with_entry_wf(before, entry_id, updated);
        }
        lease
    }
}

/// What a request for a new session comes to.
pub open spec fn acquires_new<U: Clone>(
    before: Registry<U>,
    after: Registry<U>,
    thread_id: Option<Seq<char>>,
    now: u64,
    lease: Result<RetainedSessionLease<U>, RegistryAcquireError>,
) -> bool {
    match lease {
        Ok(acquired) => !is_exhausted(before) && exists|
            replacement: Seq<char>,
            session_id: Seq<char>,
        |
            is_uuid_text(replacement) && is_uuid_text(session_id) && is_new_lease(
                acquired@,
                before.next_entry_id,
                new_entry(#[trigger] new_session(thread_id, replacement, session_id), now),
            ) && admits_session(
                before,
                after,
                new_session(thread_id, replacement, session_id),
                now,
            ),
        Err(error) => error == RegistryAcquireError::RetainedSessionCapacityExceeded
            && is_exhausted(before) && after == before,
    }
}

/// A registry and a lease after the response of a turn is completed: its marker leads to the
/// session from now on.
pub open spec fn marker_recorded<U>(
    registry: Registry<U>,
    lease: Lease<U>,
    marker: Seq<char>,
    now: u64,
) -> (Registry<U>, Lease<U>) {
    if !registry.entries.contains_key(lease.entry_id) {
        (registry, lease)
    } else {
        let entry = registry.entries[lease.entry_id];
        let markers = if entry.markers.contains(marker) {
            entry.markers
        } else {
            entry.markers.push(marker)
        };
        (
            Registry {
                entries: registry.entries.insert(
                    lease.entry_id,
                    Entry { markers, last_used: now, ..entry },
                ),
                markers: registry.markers.insert(marker, lease.entry_id),
                ..registry
            },
            Lease { armed: false, ..lease },
        )
    }
}

/// A registry and a lease after the connection is given up. The session can be taken up again.
pub open spec fn detached<U>(registry: Registry<U>, lease: Lease<U>, now: u64) -> (
    Registry<U>,
    Lease<U>,
) {
    if !registry.entries.contains_key(lease.entry_id) {
        (registry, Lease { upstream: None, ..lease })
    } else {
        let entry = registry.entries[lease.entry_id];
        (
            with_entry(
                registry,
                lease.entry_id,
                Entry { upstream: None, recoverable: true, last_used: now, ..entry },
            ),
            Lease { upstream: None, session: entry.session, ..lease },
        )
    }
}

/// A lease that no longer stands for an active turn.
pub open spec fn disarmed<U>(lease: Lease<U>) -> Lease<U> {
    if lease.removed {
        lease
    } else {
        Lease { armed: false, ..lease }
    }
}

/// A registry and a lease after the session is forgotten.
pub open spec fn removed<U>(registry: Registry<U>, lease: Lease<U>) -> (Registry<U>, Lease<U>) {
    if lease.removed {
        (registry, lease)
    } else {
        (
            forgotten(registry, lease.entry_id),
            Lease { upstream: None, armed: false, removed: true, released: true, ..lease },
        )
    }
}

/// A registry and a lease after a session that no marker leads to is forgotten.
pub open spec fn markerless_removed<U>(registry: Registry<U>, lease: Lease<U>) -> (
    Registry<U>,
    Lease<U>,
) {
    if registry.entries.contains_key(lease.entry_id)
        && registry.entries[lease.entry_id].markers.len() == 0 {
        removed(registry, lease)
    } else {
        (registry, lease)
    }
}

/// A registry and a lease after a turn ended with its connection.
pub open spec fn turn_recovered<U>(registry: Registry<U>, lease: Lease<U>, now: u64) -> (
    Registry<U>,
    Lease<U>,
) {
    let (after, detached_lease) = detached(registry, lease, now);
    markerless_removed(after, disarmed(detached_lease))
}

/// A registry and a lease after a turn ended with a connection that missed a deadline.
pub open spec fn turn_timed_out<U>(registry: Registry<U>, lease: Lease<U>, now: u64) -> (
    Registry<U>,
    Lease<U>,
) {
    let (after, detached_lease) = detached(registry, lease, now);
    let id = lease.entry_id;
    let marked = if after.entries.contains_key(id) {
        with_entry(after, id, Entry { liveness_timed_out: true, ..after.entries[id] })
    } else {
        after
    };
    markerless_removed(marked, disarmed(detached_lease))
}

/// A registry and a lease after the lease is given back. A session whose turn was still active is
/// forgotten.
pub open spec fn lease_released<U>(registry: Registry<U>, lease: Lease<U>, now: u64) -> (
    Registry<U>,
    Lease<U>,
) {
    if lease.removed || lease.released {
        (registry, lease)
    } else if lease.armed {
        removed(registry, lease)
    } else {
        let after = if registry.entries.contains_key(lease.entry_id) {
            with_entry(
                registry,
                lease.entry_id,
                Entry { in_use: false, last_used: now, ..registry.entries[lease.entry_id] },
            )
        } else {
            registry
        };
        (after, Lease { released: true, upstream: None, ..lease })
    }
}

/// A registry and a lease after the upstream sent a turn state.
pub open spec fn turn_state_updated<U>(
    registry: Registry<U>,
    lease: Lease<U>,
    turn_state: Option<Seq<char>>,
    now: u64,
) -> (Registry<U>, Lease<U>) {
    let id = lease.entry_id;
    let after = if registry.entries.contains_key(id) {
        let entry = registry.entries[id];
        with_entry(
            registry,
            id,
            Entry { session: Session { turn_state, ..entry.session }, last_used: now, ..entry },
        )
    } else {
        registry
    };
    (after, Lease { session: Session { turn_state, ..lease.session }, ..lease })
}

/// The registry after a session got another connection.
pub open spec fn upstream_replaced<U>(
    registry: Registry<U>,
    id: u64,
    upstream: Option<U>,
    now: u64,
) -> Registry<U> {
    if registry.entries.contains_key(id) {
        with_entry(
            registry,
            id,
            Entry {
                upstream,
                recoverable: true,
                liveness_timed_out: false,
                last_used: now,
                ..registry.entries[id]
            },
        )
    } else {
        registry
    }
}

/// A registry and a lease after the session moved on to its next window.
pub open spec fn window_advanced<U>(registry: Registry<U>, lease: Lease<U>, now: u64) -> (
    Registry<U>,
    Lease<U>,
) {
    let id = lease.entry_id;
    if registry.entries.contains_key(id) {
        let entry = registry.entries[id];
        let generation = (entry.window_generation + 1) as u64;
        let session = Session {
            window_id: window_id_of(entry.session.thread_id, generation),
            ..entry.session
        };
        (
            with_entry(
                registry,
                id,
                Entry { window_generation: generation, session, last_used: now, ..entry },
            ),
            Lease { session, ..lease },
        )
    } else {
        (registry, lease)
    }
}

proof fn lemma_replaced_entry<U>(registry: Registry<U>, id: u64, entry: Entry<U>)
    requires
        registry_wf(registry),
        registry.entries.contains_key(id),
        entry.markers == registry.entries[id].markers,
    ensures
        with_entry(
            Registry { entries: registry.entries.remove(id), ..registry },
            id,
            entry,
        ) == with_entry(registry, id, entry),
        registry_wf(with_entry(registry, id, entry)),
{
    lemma_with_entry_wf(registry, id, entry);
    assert(registry.entries.remove(id).insert(id, entry) =~= registry.entries.insert(id, entry));
}

impl<U: Clone> RetainedSessionLease<U> {
    pub fn session(&self) -> (session: &UpstreamSessionDescriptor)
        ensures
            session@ == self@.session,
    {
        &self.session
    }

    pub fn has_live_upstream(&self) -> (live: bool)
        ensures
            live == self@.upstream is Some,
    {
        self.upstream.is_some()
    }

    /// Whether there is a connection that is open, given how it stands.
    pub fn has_open_upstream(&self, upstream_state: &UpstreamTerminalState) -> (open: bool)
        ensures
            open == (self@.upstream is Some && upstream_state@ == Terminal::Open),
    {
        match upstream_state {
            UpstreamTerminalState::Open => self.upstream.is_some(),
            _ => false,
        }
    }

    pub fn upstream(&self) -> (handle: Option<U>)
        ensures
            is_handle_copy(self@.upstream, handle),
    {
        copy_handle(&self.upstream)
    }

    /// Marks the turn of the lease as active.
    pub fn arm_active_turn(&mut self)
        ensures
            final(self)@ == if old(self)@.removed || old(self)@.released {
                old(self)@
            } else {
                Lease { armed: true, ..old(self)@ }
            },
    {
        if !self.removed && !self.released {
            self.armed = true;
        }
    }

    pub fn disarm_active_turn(&mut self)
        ensures
            final(self)@ == disarmed(old(self)@),
    {
        if !self.removed {
            self.armed = false;
        }
    }

    /// Takes note that the response of the turn is completed.
    pub fn record_completed_marker_and_disarm(
        &mut self,
        registry: &mut RetainedSessionRegistry<U>,
        response_marker: String,
        now: u64,
    )
        requires
            old(registry).wf(),
        ensures
            final(registry).wf(),
            (final(registry)@, final(self)@) == marker_recorded(
                old(registry)@,
                old(self)@,
                response_marker@,
                now,
            ),
    {
        let ghost before = registry@;
        let ghost marker = response_marker@;
        let mut entry = match registry.take_entry(self.entry_id) {
            Some(entry) => entry,
            None => return ,
        };
        let ghost listed = texts(entry.markers@);
        if !lists_marker(&entry.markers, response_marker.as_str()) {
            entry.markers.push(response_marker.clone());
            assert(texts(entry.markers@) =~= listed.push(marker));
        }
        entry.last_used = now;
        let ghost updated = entry@;
        registry.put_entry(self.entry_id, entry);
        registry.markers.insert(response_marker, self.entry_id);
        self.armed = false;
        proof {
            let id = self.entry_id;
            assert(before.entries.remove(id).insert(id, updated) =~= before.entries.insert(
                id,
                updated,
            ));
            assert(registry@.entries.dom() =~= before.entries.dom());
            if !listed.contains(marker) {
                assert(updated.markers[listed.len() as int] == marker);
            }
            assert forall|other: Seq<char>| #[trigger]
                registry@.markers.contains_key(other) implies registry@.entries.contains_key(
                registry@.markers[other],
            ) && registry@.entries[registry@.markers[other]].markers.contains(other) by {
                if other != marker {
                    assert(before.markers.contains_key(other));
                    if registry@.markers[other] == id && !listed.contains(marker) {
                        let j = choose|j: int| 0 <= j < listed.len() && listed[j] == other;
                        assert(updated.markers[j] == other);
                    }
                }
            }
        }
    }

    /// Takes note that the response of the turn is completed.
    pub fn record_completed_marker(
        &mut self,
        registry: &mut RetainedSessionRegistry<U>,
        response_marker: String,
        now: u64,
    )
        requires
            old(registry).wf(),
        ensures
            final(registry).wf(),
            (final(registry)@, final(self)@) == marker_recorded(
                old(registry)@,
                old(self)@,
                response_marker@,
                now,
            ),
    {
        self.record_completed_marker_and_disarm(registry, response_marker, now)
    }

    /// Gives the connection up, and keeps the session.
    pub fn detach_upstream_recoverably(
        &mut self,
        registry: &mut RetainedSessionRegistry<U>,
        now: u64,
    )
        requires
            old(registry).wf(),
        ensures
            final(registry).wf(),
            (final(registry)@, final(self)@) == detached(old(registry)@, old(self)@, now),
    {
        let ghost before = registry@;
        self.upstream = None;
        if let Some(taken) = registry.take_entry(self.entry_id) {
            let mut entry = taken;
            entry.upstream = None;
            entry.recoverable = true;
            entry.last_used = now;
            self.session = entry.session.copy();
            proof {
                lemma_replaced_entry(before, self.entry_id, entry@);
            }
            registry.put_entry(self.entry_id, entry);
        }
    }

    fn remove_entry(&mut self, registry: &mut RetainedSessionRegistry<U>)
        requires
            old(registry).wf(),
        ensures
            final(registry).wf(),
            (final(registry)@, final(self)@) == removed(old(registry)@, old(self)@),
    {
        if self.removed {
            return ;
        }
        registry.remove_entry(self.entry_id);
        self.upstream = None;
        self.armed = false;
        self.removed = true;
        self.released = true;
    }

    fn remove_markerless_entry(&mut self, registry: &mut RetainedSessionRegistry<U>)
        requires
            old(registry).wf(),
        ensures
            final(registry).wf(),
            (final(registry)@, final(self)@) == markerless_removed(old(registry)@, old(self)@),
    {
        let is_markerless = match registry.entries.get(&self.entry_id) {
            Some(entry) => entry.markers.len() == 0,
            None => false,
        };
        if is_markerless {
            self.remove_entry(registry);
        }
    }

    /// Ends a turn whose connection is gone. A session that no marker leads to is forgotten.
    pub fn finalize_recoverable_turn(
        &mut self,
        registry: &mut RetainedSessionRegistry<U>,
        now: u64,
    )
        requires
            old(registry).wf(),
        ensures
            final(registry).wf(),
            (final(registry)@, final(self)@) == turn_recovered(old(registry)@, old(self)@, now),
    {
        self.detach_upstream_recoverably(registry, now);
        self.disarm_active_turn();
        self.remove_markerless_entry(registry);
    }

    /// Ends a turn whose connection missed a deadline. Its session is not continued.
    pub fn finalize_liveness_timeout_turn(
        &mut self,
        registry: &mut RetainedSessionRegistry<U>,
        now: u64,
    )
        requires
            old(registry).wf(),
        ensures
            final(registry).wf(),
            (final(registry)@, final(self)@) == turn_timed_out(old(registry)@, old(self)@, now),
    {
        self.detach_upstream_recoverably(registry, now);
        self.disarm_active_turn();
        let ghost before = registry@;
        if let Some(taken) = registry.take_entry(self.entry_id) {
            let mut entry = taken;
            entry.liveness_timed_out = true;
            proof {
                lemma_replaced_entry(before, self.entry_id, entry@);
            }
            registry.put_entry(self.entry_id, entry);
        }
        self.remove_markerless_entry(registry);
    }

    /// Gives the lease back.
    pub fn release(&mut self, registry: &mut RetainedSessionRegistry<U>, now: u64)
        requires
            old(registry).wf(),
        ensures
            final(registry).wf(),
            (final(registry)@, final(self)@) == lease_released(old(registry)@, old(self)@, now),
    {
        if self.removed || self.released {
            return ;
        }
        if self.armed {
            self.remove_entry(registry);
            return ;
        }
        self.released = true;
        self.upstream = None;
        let ghost before = registry@;
        if let Some(taken) = registry.take_entry(self.entry_id) {
            let mut entry = taken;
            entry.in_use = false;
            entry.last_used = now;
            proof {
                lemma_replaced_entry(before, self.entry_id, entry@);
            }
            registry.put_entry(self.entry_id, entry);
        }
    }

    /// Takes over the turn state that the upstream sent.
    pub fn update_turn_state(
        &mut self,
        registry: &mut RetainedSessionRegistry<U>,
        turn_state: Option<String>,
        now: u64,
    )
        requires
            old(registry).wf(),
        ensures
            final(registry).wf(),
            (final(registry)@, final(self)@) == turn_state_updated(
                old(registry)@,
                old(self)@,
                optional_text(turn_state),
                now,
            ),
    {
        let ghost before = registry@;
        self.session.turn_state = copy_text(&turn_state);
        if let Some(taken) = registry.take_entry(self.entry_id) {
            let mut entry = taken;
            entry.session.turn_state = turn_state;
            entry.last_used = now;
            proof {
                lemma_replaced_entry(before, self.entry_id, entry@);
            }
            registry.put_entry(self.entry_id, entry);
        }
    }

    /// Gives the session another connection.
    pub fn replace_upstream(
        &mut self,
        registry: &mut RetainedSessionRegistry<U>,
        upstream: Option<U>,
        now: u64,
    )
        requires
            old(registry).wf(),
        ensures
            final(registry).wf(),
            final(registry)@ == upstream_replaced(
                old(registry)@,
                old(self)@.entry_id,
                upstream,
                now,
            ),
            is_handle_copy(upstream, final(self)@.upstream),
            final(self)@ == (Lease { upstream: final(self)@.upstream, ..old(self)@ }),
    {
        let ghost before = registry@;
        self.upstream = copy_handle(&upstream);
        if let Some(taken) = registry.take_entry(self.entry_id) {
            let mut entry = taken;
            entry.upstream = upstream;
            entry.recoverable = true;
            entry.liveness_timed_out = false;
            entry.last_used = now;
            proof {
                lemma_replaced_entry(before, self.entry_id, entry@);
            }
            registry.put_entry(self.entry_id, entry);
        }
    }

    /// Ends a turn whose connection is gone.
    pub fn mark_upstream_recoverable(
        &mut self,
        registry: &mut RetainedSessionRegistry<U>,
        now: u64,
    )
        requires
            old(registry).wf(),
        ensures
            final(registry).wf(),
            (final(registry)@, final(self)@) == turn_recovered(old(registry)@, old(self)@, now),
    {
        self.finalize_recoverable_turn(registry, now)
    }

    /// Moves the session on to its next window.
    pub fn advance_window_generation(
        &mut self,
        registry: &mut RetainedSessionRegistry<U>,
        now: u64,
    )
        requires
            old(registry).wf(),
            old(registry)@.entries.contains_key(old(self)@.entry_id) ==> old(
                registry,
            )@.entries[old(self)@.entry_id].window_generation < u64::MAX,
        ensures
            final(registry).wf(),
            (final(registry)@, final(self)@) == window_advanced(old(registry)@, old(self)@, now),
    {
        let ghost before = registry@;
        if let Some(taken) = registry.take_entry(self.entry_id) {
            let mut entry = taken;
            entry.window_generation = entry.window_generation + 1;
            entry.session.set_window_generation(entry.window_generation);
            self.session = entry.session.copy();
            entry.last_used = now;
            proof {
                lemma_replaced_entry(before, self.entry_id, entry@);
            }
            registry.put_entry(self.entry_id, entry);
        }
    }

    /// Ends a turn whose session cannot be continued.
    pub fn mark_upstream_terminal(&mut self, registry: &mut RetainedSessionRegistry<U>)
        requires
            old(registry).wf(),
        ensures
            final(registry).wf(),
            (final(registry)@, final(self)@) == removed(old(registry)@, old(self)@),
    {
        self.remove_entry(registry)
    }
}

/// A completed response can be continued: once its lease is given back, its marker leads to the
/// same session again.
pub proof fn law_completed_response_can_be_continued<U>(
    registry: Registry<U>,
    lease: Lease<U>,
    marker: Seq<char>,
    completed_at: u64,
    released_at: u64,
    acquired_at: u64,
)
    requires
        registry_wf(registry),
        registry.entries.contains_key(lease.entry_id),
        registry.entries[lease.entry_id].recoverable,
        !registry.entries[lease.entry_id].liveness_timed_out,
        !lease.removed,
        !lease.released,
    ensures
        ({
            let (recorded, active) = marker_recorded(registry, lease, marker, completed_at);
            let (idle, _) = lease_released(recorded, active, released_at);
            let (after, found) = acquisition(idle, marker, Terminal::Open, acquired_at);
            &&& found == Ok::<u64, RegistryAcquireError>(lease.entry_id)
            &&& after.entries[lease.entry_id].session == registry.entries[lease.entry_id].session
            &&& after.entries[lease.entry_id].upstream == registry.entries[lease.entry_id].upstream
        }),
{
}

/// A session belongs to one turn at a time: as long as a lease holds it, its markers are refused.
pub proof fn law_session_in_use_is_not_shared<U>(
    registry: Registry<U>,
    marker: Seq<char>,
    state: Terminal,
    now: u64,
    again: u64,
)
    requires
        registry_wf(registry),
        acquisition(registry, marker, state, now).1 is Ok,
    ensures
        acquisition(acquisition(registry, marker, state, now).0, marker, state, again).1 == Err::<
            u64,
            RegistryAcquireError,
        >(RegistryAcquireError::RetainedSessionConflict),
{
}

/// A session that ended with an overflow or a missed deadline is refused each time in the same way,
/// and the refusal changes nothing any more.
pub proof fn law_failed_session_is_refused_again<U>(
    registry: Registry<U>,
    marker: Seq<char>,
    state: Terminal,
    later_state: Terminal,
    now: u64,
    again: u64,
)
    requires
        registry_wf(registry),
        acquisition(registry, marker, state, now).1 is Err,
        acquisition(registry, marker, state, now).1->Err_0
            != RegistryAcquireError::RetainedSessionConflict,
    ensures
        ({
            let (after, refused) = acquisition(registry, marker, state, now);
            acquisition(after, marker, later_state, again) == (after, refused)
        }),
{
}

/// A turn that is dropped while it is active takes its session and every marker to it along.
pub proof fn law_abandoned_turn_is_forgotten<U>(
    registry: Registry<U>,
    lease: Lease<U>,
    marker: Seq<char>,
    state: Terminal,
    now: u64,
)
    requires
        registry_wf(registry),
        registry.markers.contains_key(marker),
        registry.markers[marker] == lease.entry_id,
        lease.armed,
        !lease.removed,
        !lease.released,
    ensures
        ({
            let (after, _) = lease_released(registry, lease, now);
            &&& !after.entries.contains_key(lease.entry_id)
            &&& acquisition(after, marker, state, now).1 == Err::<u64, RegistryAcquireError>(
                RegistryAcquireError::PreviousResponseNotFound,
            )
        }),
{
}

/// A new session never takes the place of one that is in use.
pub proof fn law_sessions_in_use_stay<U>(
    before: Registry<U>,
    after: Registry<U>,
    session: Session,
    now: u64,
    id: u64,
)
    requires
        registry_wf(before),
        before.next_entry_id < u64::MAX,
        admits_session(before, after, session, now),
        before.entries.contains_key(id),
        before.entries[id].in_use,
    ensures
        after.entries.contains_key(id),
        after.entries[id] == before.entries[id],
{
}

/// A turn that ends with its connection keeps the completed responses of its session, and their
/// markers, whether or not the connection missed a deadline.
pub proof fn law_completed_responses_outlive_the_connection<U>(
    registry: Registry<U>,
    lease: Lease<U>,
    now: u64,
)
    requires
        registry_wf(registry),
        registry.entries.contains_key(lease.entry_id),
        registry.entries[lease.entry_id].markers.len() > 0,
    ensures
        ({
            let id = lease.entry_id;
            let (recovered, _) = turn_recovered(registry, lease, now);
            let (timed_out, _) = turn_timed_out(registry, lease, now);
            &&& recovered.markers == registry.markers
            &&& timed_out.markers == registry.markers
            &&& recovered.entries[id].session == registry.entries[id].session
            &&& timed_out.entries[id].session == registry.entries[id].session
            &&& recovered.entries[id].upstream is None
            &&& timed_out.entries[id].liveness_timed_out
        }),
{
}

} // verus!
