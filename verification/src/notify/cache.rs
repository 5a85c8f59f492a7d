//! A cache from bus connections to process identifiers.
//!
//! The cache is owned by one worker. The worker's decisions are made here,
//! one input at a time; asking the bus and answering callers is left to the
//! code that runs the worker.

use vstd::prelude::*;
use vstd::string::StringExecFns;
use crate::text_map::{lemma_map_of, position_of, TextMap};

verus! {

/// Whether `c` may stand in an element of a bus name.
pub open spec fn is_element_char(c: char) -> bool {
    ('a' <= c && c <= 'z') || ('A' <= c && c <= 'Z') || ('0' <= c && c <= '9') || c == '_' || c
        == '-'
}

/// Whether `name` is a connection name that the bus hands out: a `:` and
/// then two or more elements divided by `.`, each of one or more letters,
/// digits, `_` or `-`.
pub open spec fn is_peer_name(name: Seq<char>) -> bool {
    &&& name.len() >= 1 && name[0] == ':'
    &&& forall|i: int|
        1 <= i < name.len() ==> is_element_char(#[trigger] name[i]) || name[i] == '.'
    &&& exists|i: int| 1 <= i < name.len() && #[trigger] name[i] == '.'
    &&& forall|i: int|
        1 <= i < name.len() && #[trigger] name[i] == '.' ==> is_element_char(name[i - 1]) && i
            + 1 < name.len() && is_element_char(name[i + 1])
}

/// Whether `name` is a unique bus name: the bus's own name or a connection
/// name, of at most 255 characters.
pub open spec fn is_unique_name(name: Seq<char>) -> bool {
    name.len() <= 255 && (name == "org.freedesktop.DBus"@ || is_peer_name(name))
}

/// Calls `UniqueName::try_from` of zbus and says whether it accepted the
/// name. Trusted: zbus accepts exactly the unique bus names as D-Bus defines
/// them, which [`is_unique_name`] writes out.
#[verifier::external_body]
fn accepted_as_unique_name(name: &str) -> (accepted: bool)
    ensures
        accepted == is_unique_name(name@),
{
    zbus::names::UniqueName::try_from(name).is_ok()
}

/// The time that an entry of the notification monitor's cache lives, in
/// seconds: a day.
pub const EXPIRY: u64 = 86400;

/// The time between two sweeps of the cache, in seconds. It does not depend
/// on the expiry: an entry may stay for up to this long behind its expiry.
pub const SWEEP_INTERVAL: u64 = 60;

/// What the cache knows of one connection.
#[derive(Debug, Clone, Copy, PartialEq, Eq)]
pub struct Entry {
    /// The process of the connection; `None` where the bus did not tell.
    pub pid: Option<u32>,
    /// The time from which a sweep removes the entry.
    pub expiry: u64,
}

/// The entries of `entries` that a sweep at `now` keeps: those whose expiry
/// lies behind `now`.
pub open spec fn unexpired(entries: Map<Seq<char>, Entry>, now: u64) -> Map<Seq<char>, Entry> {
    Map::new(
        |connection: Seq<char>| entries.contains_key(connection) && entries[connection].expiry > now,
        |connection: Seq<char>| entries[connection],
    )
}

/// A map from connection names to process identifiers whose entries expire.
#[derive(Debug)]
pub struct Cache {
    cache: TextMap<Entry>,
    expiry: u64,
}

impl View for Cache {
    type V = Map<Seq<char>, Entry>;

    closed spec fn view(&self) -> Map<Seq<char>, Entry> {
        self.cache@
    }
}

/// Removes from `entries` those whose expiry has passed at `now`.
fn sweep(entries: &mut TextMap<Entry>, now: u64)
    requires
        old(entries).wf(),
    ensures
        final(entries).wf(),
        final(entries)@ == unexpired(old(entries)@, now),
{
    let mut i: usize = 0;
    while i < entries.len()
        invariant
            entries.wf(),
            i <= entries.entries().len(),
            forall|j: int| 0 <= j < i ==> (#[trigger] entries.entries()[j]).1.expiry > now,
            unexpired(entries@, now) == unexpired(old(entries)@, now),
        decreases entries.entries().len() - i,
    {
        if entries.value_at(i).expiry > now {
            i += 1;
        } else {
            let ghost before = *entries;
            proof {
                lemma_map_of(before.entries());
                assert(before@.contains_key(before.entries()[i as int].0@));
            }
            entries.remove_at(i);
            proof {
                assert(unexpired(entries@, now) =~= unexpired(before@, now));
            }
        }
    }
    proof {
        lemma_map_of(entries.entries());
        assert forall|k: Seq<char>| #[trigger] entries@.contains_key(k) implies entries@[k].expiry
            > now by {
            let p = position_of(entries.entries(), k);
            assert(entries@.contains_key(entries.entries()[p].0@));
        }
        assert(entries@ =~= unexpired(entries@, now));
    }
}

/// Looks `connection` up in `entries`, and moves the expiry of its entry to
/// `expiry` if there is one.
fn refresh(entries: &mut TextMap<Entry>, connection: &str, expiry: u64) -> (hit: Option<Option<u32>>)
    requires
        old(entries).wf(),
    ensures
        final(entries).wf(),
        match hit {
            Some(pid) => {
                &&& old(entries)@.contains_key(connection@)
                &&& pid == old(entries)@[connection@].pid
                &&& final(entries)@ == old(entries)@.insert(connection@, Entry { pid, expiry })
            },
            None => !old(entries)@.contains_key(connection@) && final(entries)@ == old(entries)@,
        },
{
    proof {
        lemma_map_of(entries.entries());
    }
    match entries.position(connection) {
        Some(i) => {
            assert(entries@.contains_key(entries.entries()[i as int].0@));
            let entry = entries.value_at_mut(i);
            entry.expiry = expiry;
            Some(entry.pid)
        },
        None => None,
    }
}

impl Cache {
    /// The cache holds each connection once.
    #[verifier::type_invariant]
    spec fn inv(self) -> bool {
        self.cache.wf()
    }

    /// How long an entry lives after it was stored or looked up.
    pub closed spec fn ttl(&self) -> u64 {
        self.expiry
    }

    /// An empty cache whose entries live for `expiry`.
    pub fn new(expiry: u64) -> (cache: Self)
        ensures
            cache@ == Map::<Seq<char>, Entry>::empty(),
            cache.ttl() == expiry,
    {
        Self { cache: TextMap::new(), expiry }
    }

    /// Takes the entries out, to work on them, and leaves none.
    fn take(&mut self) -> (entries: TextMap<Entry>)
        ensures
            entries.wf(),
            entries@ == old(self)@,
            final(self).ttl() == old(self).ttl(),
    {
        proof {
            use_type_invariant(&*self);
        }
        let mut entries = TextMap::new();
        core::mem::swap(&mut self.cache, &mut entries);
        entries
    }

    /// Removes the entries whose expiry has passed at `now`.
    pub fn expire(&mut self, now: u64)
        ensures
            final(self).ttl() == old(self).ttl(),
            final(self)@ == unexpired(old(self)@, now),
    {
        let mut entries = self.take();
        sweep(&mut entries, now);
        self.cache = entries;
    }

    /// Looks `connection` up. A hit gives what is known of its process and
    /// moves the entry's expiry to `now` plus the time to live; a miss gives
    /// `None` and changes nothing.
    pub fn get(&mut self, connection: &str, now: u64) -> (hit: Option<Option<u32>>)
        requires
            now + old(self).ttl() <= u64::MAX,
        ensures
            final(self).ttl() == old(self).ttl(),
            match hit {
                Some(pid) => {
                    &&& old(self)@.contains_key(connection@)
                    &&& pid == old(self)@[connection@].pid
                    &&& final(self)@ == old(self)@.insert(
                        connection@,
                        Entry { pid, expiry: (now + old(self).ttl()) as u64 },
                    )
                },
                None => !old(self)@.contains_key(connection@) && final(self)@ == old(self)@,
            },
    {
        let expiry = now + self.expiry;
        let mut entries = self.take();
        let hit = refresh(&mut entries, connection, expiry);
        self.cache = entries;
        hit
    }

    /// Stores what is known of the process of `connection`, to expire at
    /// `now` plus the time to live.
    pub fn insert(&mut self, connection: &str, pid: Option<u32>, now: u64)
        requires
            now + old(self).ttl() <= u64::MAX,
        ensures
            final(self).ttl() == old(self).ttl(),
            final(self)@ == old(self)@.insert(
                connection@,
                Entry { pid, expiry: (now + old(self).ttl()) as u64 },
            ),
    {
        let expiry = now + self.expiry;
        let mut entries = self.take();
        entries.insert(String::from_str(connection), Entry { pid, expiry });
        self.cache = entries;
    }

    /// Removes the entry of `connection`, if there is one.
    pub fn remove(&mut self, connection: &str)
        ensures
            final(self).ttl() == old(self).ttl(),
            final(self)@ == old(self)@.remove(connection@),
    {
        let mut entries = self.take();
        entries.remove(connection);
        self.cache = entries;
    }
}

/// What the worker does with a request for the process of a connection.
#[derive(Debug, Clone, Copy, PartialEq, Eq)]
pub enum Lookup {
    /// The cache knew the connection: answer with what it holds, which may
    /// be that no process is known.
    Hit(Option<u32>),
    /// The cache did not know the connection: resolve it, and hand the
    /// outcome to [`ConnectionCache::resolved`].
    Resolve,
}

/// What a change of a name's owner asks of the worker.
#[derive(Debug, Clone, Copy, PartialEq, Eq)]
pub enum OwnerChange {
    /// A connection appeared: ask the bus for its process, and hand the
    /// answer to [`ConnectionCache::owner_resolved`].
    Appeared,
    /// A connection went away and has been evicted.
    Disappeared,
    /// The signal named neither a new nor an old owner.
    Neither,
}

/// The state of the worker that maps bus connections to processes.
#[derive(Debug)]
pub struct ConnectionCache {
    cache: Cache,
}

impl View for ConnectionCache {
    type V = Map<Seq<char>, Entry>;

    closed spec fn view(&self) -> Map<Seq<char>, Entry> {
        self.cache@
    }
}

impl ConnectionCache {
    /// How long an entry lives after it was stored or looked up.
    pub closed spec fn ttl(&self) -> u64 {
        self.cache.ttl()
    }

    /// Instantiates a new cache whose entries live for `expiry`.
    ///
    /// The expiry is best effort: an entry leaves with the first sweep
    /// after it.
    pub fn new(expiry: u64) -> (cache: Self)
        ensures
            cache@ == Map::<Seq<char>, Entry>::empty(),
            cache.ttl() == expiry,
    {
        Self { cache: Cache::new(expiry) }
    }

    /// Whether the bus can be asked for the process of `connection`: it
    /// answers for unique bus names only. For any other name the resolution
    /// has failed before the bus is asked.
    pub fn can_resolve(connection: &str) -> (askable: bool)
        ensures
            askable == is_unique_name(connection@),
    {
        accepted_as_unique_name(connection)
    }

    /// Serves a request for the process of `connection` at time `now`.
    ///
    /// A hit refreshes the entry's expiry. On a miss the cache stays as it
    /// is, and the connection is to be resolved.
    pub fn get(&mut self, connection: &str, now: u64) -> (lookup: Lookup)
        requires
            now + old(self).ttl() <= u64::MAX,
        ensures
            final(self).ttl() == old(self).ttl(),
            old(self)@.contains_key(connection@) ==> {
                let pid = old(self)@[connection@].pid;
                &&& lookup == Lookup::Hit(pid)
                &&& final(self)@ == old(self)@.insert(
                    connection@,
                    Entry { pid, expiry: (now + old(self).ttl()) as u64 },
                )
            },
            !old(self)@.contains_key(connection@) ==> {
                &&& final(self)@ == old(self)@
                &&& lookup == Lookup::Resolve
            },
    {
        match self.cache.get(connection, now) {
            Some(pid) => Lookup::Hit(pid),
            None => Lookup::Resolve,
        }
    }

    /// Takes the outcome of resolving a connection that a lookup missed:
    /// `pid` is cached for `connection`, also where it is `None` because the
    /// connection could not be resolved, and is the answer to the request.
    pub fn resolved(&mut self, connection: &str, pid: Option<u32>, now: u64) -> (answer: Option<
        u32,
    >)
        requires
            now + old(self).ttl() <= u64::MAX,
        ensures
            final(self).ttl() == old(self).ttl(),
            answer == pid,
            final(self)@ == old(self)@.insert(
                connection@,
                Entry { pid, expiry: (now + old(self).ttl()) as u64 },
            ),
    {
        self.cache.insert(connection, pid, now);
        pid
    }

    /// Takes a signal that the owner of a name changed. A new owner is to be
    /// resolved; where there is none, the old owner is evicted.
    pub fn owner_changed(&mut self, old_owner: Option<&str>, new_owner: Option<&str>) -> (change:
        OwnerChange)
        ensures
            final(self).ttl() == old(self).ttl(),
            match (new_owner, old_owner) {
                (Some(_), _) => change == OwnerChange::Appeared && final(self)@ == old(self)@,
                (None, Some(gone)) => change == OwnerChange::Disappeared && final(self)@ == old(
                    self,
                )@.remove(gone@),
                (None, None) => change == OwnerChange::Neither && final(self)@ == old(self)@,
            },
    {
        match new_owner {
            Some(_) => OwnerChange::Appeared,
            None => match old_owner {
                Some(gone) => {
                    self.cache.remove(gone);
                    OwnerChange::Disappeared
                },
                None => OwnerChange::Neither,
            },
        }
    }

    /// Takes the bus's answer for a connection that appeared: a process is
    /// cached, a failure to tell leaves the cache as it is.
    pub fn owner_resolved(&mut self, connection: &str, pid: Option<u32>, now: u64)
        requires
            now + old(self).ttl() <= u64::MAX,
        ensures
            final(self).ttl() == old(self).ttl(),
            final(self)@ == match pid {
                Some(_) => old(self)@.insert(
                    connection@,
                    Entry { pid, expiry: (now + old(self).ttl()) as u64 },
                ),
                None => old(self)@,
            },
    {
        if pid.is_some() {
            self.cache.insert(connection, pid, now);
        }
    }

    /// The periodic sweep: removes the entries whose expiry has passed.
    pub fn sweep(&mut self, now: u64)
        ensures
            final(self).ttl() == old(self).ttl(),
            final(self)@ == unexpired(old(self)@, now),
    {
        self.cache.expire(now);
    }
}

/// An entry that is stored at `stored` and not looked up again is gone
/// after the first sweep at or behind `stored` plus the time to live. The
/// next request for its connection then misses, so the connection is
/// resolved afresh and the stale process is not answered.
pub proof fn lemma_unrefreshed_entry_expires(
    entries: Map<Seq<char>, Entry>,
    connection: Seq<char>,
    pid: Option<u32>,
    stored: u64,
    ttl: u64,
    now: u64,
)
    requires
        stored + ttl <= u64::MAX,
        now >= stored + ttl,
    ensures
        !unexpired(
            entries.insert(connection, Entry { pid, expiry: (stored + ttl) as u64 }),
            now,
        ).contains_key(connection),
{
}

/// A sweep keeps every entry whose expiry lies behind it, as it is.
pub proof fn lemma_sweep_keeps_live_entries(
    entries: Map<Seq<char>, Entry>,
    connection: Seq<char>,
    now: u64,
)
    requires
        entries.contains_key(connection),
        entries[connection].expiry > now,
    ensures
        unexpired(entries, now).contains_key(connection),
        unexpired(entries, now)[connection] == entries[connection],
{
}

} // verus!
