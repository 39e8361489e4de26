//! The pool of running language servers, one per virtual environment.
//!
//! The pool keeps the books: which environments have a server, in which
//! session, when each was last used, and what waits for it to warm up. The
//! processes themselves are held by whoever drives the proxy, under the same
//! (environment, session) pair.

use crate::error::BackendError;
use crate::message::{IdModel, RpcId, RpcMessage};
use crate::state::{count_pending, pending_count, PendingRequest};
use crate::table::{Entry, Table};
use vstd::prelude::*;

verus! {

/// Whether a server has finished its first analysis.
#[derive(Debug, Clone, Copy, PartialEq, Eq, Structural)]
pub enum WarmupState {
    /// Still indexing: requests that need the index wait in the queue.
    Warming,
    Ready,
}

/// What arrives from a backend's reader: a message or the error that ended
/// the reading, tagged with the backend it came from.
#[derive(Debug)]
pub struct BackendMessage {
    pub venv_path: String,
    pub session: u64,
    pub result: Result<RpcMessage, BackendError>,
}

/// One running language server, as the pool sees it.
#[derive(Debug)]
pub struct BackendInstance {
    pub venv_path: String,
    /// Tells this server from any earlier one for the same environment.
    pub session: u64,
    /// Time of the last use, in milliseconds on the driver's clock.
    pub last_used: u64,
    /// The id that the next request made on the proxy's own behalf will get.
    pub next_id: u64,
    pub warmup_state: WarmupState,
    /// Time at which warming ends at the latest.
    pub warmup_deadline: u64,
    /// Requests held back while warming, oldest first.
    pub warmup_queue: Vec<RpcMessage>,
}

/// Index of the first of `queue[from..]` that carries the id `id`.
pub open spec fn queued_at(queue: Seq<RpcMessage>, id: IdModel, from: int) -> Option<int>
    decreases queue.len() - from,
{
    if from < 0 || from >= queue.len() {
        None
    } else if queue[from]@.id == Some(id) {
        Some(from)
    } else {
        queued_at(queue, id, from + 1)
    }
}

impl BackendInstance {
    /// Hands out the next id for a request of the proxy's own.
    pub fn next_id(&mut self) -> (id: u64)
        requires
            old(self).next_id < u64::MAX,
        ensures
            id == old(self).next_id,
            *final(self) == (BackendInstance { next_id: (id + 1) as u64, ..*old(self) }),
    {
        let id: u64 = self.next_id;
        self.next_id = self.next_id + 1;
        id
    }

    /// Whether requests that need the index must wait.
    pub fn is_warming(&self) -> (warming: bool)
        ensures
            warming == (self.warmup_state == WarmupState::Warming),
    {
        match self.warmup_state {
            WarmupState::Warming => true,
            WarmupState::Ready => false,
        }
    }

    /// Where the oldest queued request with id `id` stands in the warmup
    /// queue.
    pub fn queued_position(&self, id: &RpcId) -> (position: Option<usize>)
        ensures
            match position {
                Some(i) => queued_at(self.warmup_queue@, id@, 0) == Some(i as int) && i
                    < self.warmup_queue@.len(),
                None => queued_at(self.warmup_queue@, id@, 0) is None,
            },
    {
        let mut i: usize = 0;
        while i < self.warmup_queue.len()
            invariant
                0 <= i <= self.warmup_queue@.len(),
                queued_at(self.warmup_queue@, id@, 0) == queued_at(self.warmup_queue@, id@, i as int),
            decreases self.warmup_queue@.len() - i,
        {
            let hit: bool = match &self.warmup_queue[i].id {
                Some(queued) => queued.same_id(id),
                None => false,
            };
            if hit {
                return Some(i);
            }
            i = i + 1;
        }
        None
    }

    /// Takes the oldest queued request with id `id` out of the warmup queue.
    pub fn cancel_warmup_request(&mut self, id: &RpcId) -> (cancelled: Option<RpcMessage>)
        ensures
            match queued_at(old(self).warmup_queue@, id@, 0) {
                Some(i) => cancelled == Some(old(self).warmup_queue@[i]) && final(
                    self).warmup_queue@ == old(self).warmup_queue@.remove(i),
                None => cancelled is None && *final(self) == *old(self),
            },
            final(self).venv_path == old(self).venv_path,
            final(self).session == old(self).session,
            final(self).last_used == old(self).last_used,
            final(self).next_id == old(self).next_id,
            final(self).warmup_state == old(self).warmup_state,
            final(self).warmup_deadline == old(self).warmup_deadline,
    {
        let mut i: usize = 0;
        while i < self.warmup_queue.len()
            invariant
                0 <= i <= self.warmup_queue@.len(),
                *self == *old(self),
                queued_at(self.warmup_queue@, id@, 0) == queued_at(self.warmup_queue@, id@, i as int),
            decreases self.warmup_queue@.len() - i,
        {
            let hit: bool = match &self.warmup_queue[i].id {
                Some(queued) => queued.same_id(id),
                None => false,
            };
            if hit {
                let message = self.warmup_queue.remove(i);
                return Some(message);
            }
            i = i + 1;
        }
        None
    }
}

/// The running servers, keyed by environment, never more than `max_backends`.
pub struct BackendPool {
    pub backends: Table<String, BackendInstance>,
    pub max_backends: usize,
    /// Idle time in milliseconds after which a server may be retired; `None`
    /// switches retirement by age off.
    pub backend_ttl: Option<u64>,
    /// The session id handed out last.
    pub next_session: u64,
}

/// Whether entry `i` may be chosen: always, or only while nothing waits for it.
pub open spec fn lru_candidate(
    backends: Seq<Entry<String, BackendInstance>>,
    pending: Seq<Entry<RpcId, PendingRequest>>,
    idle_only: bool,
    i: int,
) -> bool {
    !idle_only || pending_count(pending, backends[i].value.venv_path@, backends[i].value.session)
        == 0
}

/// Index of the candidate among `backends[..n]` that was used least recently;
/// of several used at the same time, the first.
pub open spec fn lru_index(
    backends: Seq<Entry<String, BackendInstance>>,
    pending: Seq<Entry<RpcId, PendingRequest>>,
    idle_only: bool,
    n: int,
) -> Option<int>
    decreases n,
{
    if n <= 0 {
        None
    } else {
        let before = lru_index(backends, pending, idle_only, n - 1);
        if lru_candidate(backends, pending, idle_only, n - 1) {
            match before {
                Some(j) => if backends[n - 1].value.last_used < backends[j].value.last_used {
                    Some(n - 1)
                } else {
                    Some(j)
                },
                None => Some(n - 1),
            }
        } else {
            before
        }
    }
}

/// `lru_index` names a candidate that no candidate undercuts, and names one
/// whenever there is a candidate.
pub proof fn lemma_lru_index(
    backends: Seq<Entry<String, BackendInstance>>,
    pending: Seq<Entry<RpcId, PendingRequest>>,
    idle_only: bool,
    n: int,
)
    requires
        0 <= n <= backends.len(),
    ensures
        match lru_index(backends, pending, idle_only, n) {
            Some(i) => {
                &&& 0 <= i < n
                &&& lru_candidate(backends, pending, idle_only, i)
                &&& forall|j: int|
                    0 <= j < n && lru_candidate(backends, pending, idle_only, j)
                        ==> backends[i].value.last_used <= backends[j].value.last_used
                &&& forall|j: int|
                    0 <= j < i && lru_candidate(backends, pending, idle_only, j)
                        ==> backends[i].value.last_used < backends[j].value.last_used
            },
            None => forall|j: int| 0 <= j < n ==> !lru_candidate(backends, pending, idle_only, j),
        },
    decreases n,
{
    if n > 0 {
        lemma_lru_index(backends, pending, idle_only, n - 1);
    }
}

/// Index of the server to retire first: the least recently used of those for
/// which nothing waits, or of all where something waits for each.
pub open spec fn lru_choice(
    backends: Seq<Entry<String, BackendInstance>>,
    pending: Seq<Entry<RpcId, PendingRequest>>,
) -> Option<int> {
    match lru_index(backends, pending, true, backends.len() as int) {
        Some(i) => Some(i),
        None => lru_index(backends, pending, false, backends.len() as int),
    }
}

/// Whether a server last used at `last_used` has been idle for `ttl` or more
/// at time `now`. A clock that reads earlier than the last use counts as no
/// idle time.
pub open spec fn is_expired(last_used: u64, now: u64, ttl: u64) -> bool {
    (if now >= last_used {
        now - last_used
    } else {
        0
    }) >= ttl
}

/// The environments among `backends[..n]` whose servers have expired, in pool
/// order.
pub open spec fn expired_among(
    backends: Seq<Entry<String, BackendInstance>>,
    now: u64,
    ttl: u64,
    n: int,
) -> Seq<Seq<char>>
    decreases n,
{
    if n <= 0 {
        Seq::empty()
    } else {
        let before = expired_among(backends, now, ttl, n - 1);
        if is_expired(backends[n - 1].value.last_used, now, ttl) {
            before.push(backends[n - 1].value.venv_path@)
        } else {
            before
        }
    }
}

/// The texts of a run of strings.
pub open spec fn texts(strings: Seq<String>) -> Seq<Seq<char>> {
    Seq::new(strings.len(), |i: int| strings[i]@)
}

impl BackendPool {
    /// The pool's invariant: one server per environment, each filed under its
    /// own environment, none with a session that was not handed out, and no
    /// more servers than the maximum.
    pub open spec fn wf(&self) -> bool {
        &&& self.backends.wf()
        &&& 1 <= self.max_backends
        &&& self.backends.entries@.len() <= self.max_backends
        &&& forall|i: int|
            0 <= i < self.backends.entries@.len() ==> {
                &&& (#[trigger] self.backends.entries@[i]).key@ == self.backends.entries@[i].value.venv_path@
                &&& self.backends.entries@[i].value.session <= self.next_session
            }
    }

    /// Whether the pool holds the server of `venv` in its session `session`.
    pub open spec fn is_current(&self, venv: Seq<char>, session: u64) -> bool {
        match self.backends.value_of(venv) {
            Some(instance) => instance.session == session,
            None => false,
        }
    }

    /// An empty pool for at most `max_backends` servers.
    pub fn new(max_backends: usize, backend_ttl: Option<u64>) -> (pool: Self)
        requires
            max_backends >= 1,
        ensures
            pool.wf(),
            pool.backends.entries@.len() == 0,
            pool.max_backends == max_backends,
            pool.backend_ttl == backend_ttl,
            pool.next_session == 0,
    {
        BackendPool { backends: Table::new(), max_backends, backend_ttl, next_session: 0 }
    }

    /// The server of `venv`.
    pub fn get(&self, venv_path: &String) -> (found: Option<&BackendInstance>)
        ensures
            match found {
                Some(instance) => self.backends.value_of(venv_path@) == Some(*instance),
                None => self.backends.value_of(venv_path@) is None,
            },
    {
        self.backends.get(venv_path)
    }

    /// The server of `venv`, to be changed in place. The pool stays
    /// well-formed as long as the environment and the session are left alone.
    pub fn get_mut(&mut self, venv_path: &String) -> (found: Option<&mut BackendInstance>)
        ensures
            match found {
                Some(instance) => {
                    &&& old(self).backends.find(venv_path@) is Some
                    &&& *instance == old(self).backends.entries@[old(self).backends.find(
                        venv_path@,
                    )->0].value
                    &&& final(self).backends.entries@ == old(self).backends.entries@.update(
                        old(self).backends.find(venv_path@)->0,
                        Entry {
                            key: old(self).backends.entries@[old(self).backends.find(
                                venv_path@,
                            )->0].key,
                            value: *final(instance),
                        },
                    )
                    &&& final(self).max_backends == old(self).max_backends
                    &&& final(self).backend_ttl == old(self).backend_ttl
                    &&& final(self).next_session == old(self).next_session
                },
                None => old(self).backends.find(venv_path@) is None && *final(self) == *old(self),
            },
    {
        self.backends.get_mut(venv_path)
    }

    /// Whether `venv` has a server.
    pub fn contains(&self, venv_path: &String) -> (present: bool)
        ensures
            present == self.backends.has(venv_path@),
    {
        self.backends.contains_key(venv_path)
    }

    /// Files `instance` under `venv`, in the place of the server the
    /// environment had, if it had one. There must be room for a new one.
    pub fn insert(&mut self, venv_path: String, instance: BackendInstance)
        requires
            old(self).wf(),
            instance.venv_path@ == venv_path@,
            instance.session <= old(self).next_session,
            old(self).backends.has(venv_path@) || old(self).backends.entries@.len() < old(
                self,
            ).max_backends,
        ensures
            final(self).wf(),
            final(self).backends.value_of(venv_path@) == Some(instance),
            forall|other: Seq<char>|
                other != venv_path@ ==> final(self).backends.value_of(other) == old(
                    self,
                ).backends.value_of(other),
            final(self).backends.entries@.len() == old(self).backends.entries@.len() + (if old(
                self,
            ).backends.has(venv_path@) {
                0int
            } else {
                1int
            }),
            final(self).max_backends == old(self).max_backends,
            final(self).backend_ttl == old(self).backend_ttl,
            final(self).next_session == old(self).next_session,
    {
        let ghost before = *self;
        proof {
            crate::table::lemma_find_from(self.backends.keys(), venv_path@, 0);
        }
        let _ = self.backends.insert(venv_path, instance);
        proof {
            assert forall|i: int| 0 <= i < self.backends.entries@.len() implies {
                &&& (#[trigger] self.backends.entries@[i]).key@
                    == self.backends.entries@[i].value.venv_path@
                &&& self.backends.entries@[i].value.session <= self.next_session
            } by {
                match before.backends.find(venv_path@) {
                    Some(at) => {
                        assert(self.backends.keys()[i] == before.backends.keys()[i]);
                        if i != at {
                            assert(self.backends.entries@[i] == before.backends.entries@[i]);
                        }
                    },
                    None => {
                        if i < before.backends.entries@.len() {
                            assert(self.backends.entries@[i] == before.backends.entries@[i]);
                        }
                    },
                }
            }
        }
    }

    /// Takes the server of `venv` out of the pool.
    pub fn remove(&mut self, venv_path: &String) -> (removed: Option<BackendInstance>)
        requires
            old(self).wf(),
        ensures
            final(self).wf(),
            removed == old(self).backends.value_of(venv_path@),
            !final(self).backends.has(venv_path@),
            forall|other: Seq<char>|
                other != venv_path@ ==> final(self).backends.value_of(other) == old(
                    self,
                ).backends.value_of(other),
            match old(self).backends.find(venv_path@) {
                Some(i) => final(self).backends.entries@ == old(self).backends.entries@.remove(i),
                None => *final(self) == *old(self),
            },
            final(self).max_backends == old(self).max_backends,
            final(self).backend_ttl == old(self).backend_ttl,
            final(self).next_session == old(self).next_session,
    {
        proof {
            crate::table::lemma_find_from(self.backends.keys(), venv_path@, 0);
        }
        self.backends.remove(venv_path)
    }

    /// The environment whose server should be retired to make room: the
    /// least recently used among those for which no request waits; where a
    /// request waits for every server, the least recently used of all. `None`
    /// only for an empty pool.
    pub fn lru_venv(&self, pending: &Table<RpcId, PendingRequest>) -> (venv: Option<String>)
        ensures
            match lru_choice(self.backends.entries@, pending.entries@) {
                Some(i) => venv is Some && venv->0@ == self.backends.entries@[i].key@,
                None => venv is None,
            },
            venv is None <==> self.backends.entries@.len() == 0,
    {
        let ghost backends = self.backends.entries@;
        let mut idle: Option<usize> = None;
        let mut any: Option<usize> = None;
        let mut i: usize = 0;
        while i < self.backends.entries.len()
            invariant
                0 <= i <= backends.len(),
                backends == self.backends.entries@,
                match idle {
                    Some(j) => lru_index(backends, pending.entries@, true, i as int) == Some(
                        j as int,
                    ) && j < i,
                    None => lru_index(backends, pending.entries@, true, i as int) is None,
                },
                match any {
                    Some(j) => lru_index(backends, pending.entries@, false, i as int) == Some(
                        j as int,
                    ) && j < i,
                    None => lru_index(backends, pending.entries@, false, i as int) is None,
                },
            decreases backends.len() - i,
        {
            let instance = &self.backends.entries[i].value;
            let waiting: usize = count_pending(pending, &instance.venv_path, instance.session);
            if waiting == 0 {
                idle = match idle {
                    Some(j) => if instance.last_used < self.backends.entries[j].value.last_used {
                        Some(i)
                    } else {
                        Some(j)
                    },
                    None => Some(i),
                };
            }
            any = match any {
                Some(j) => if instance.last_used < self.backends.entries[j].value.last_used {
                    Some(i)
                } else {
                    Some(j)
                },
                None => Some(i),
            };
            i = i + 1;
        }
        proof {
            lemma_lru_index(backends, pending.entries@, false, backends.len() as int);
            lemma_lru_index(backends, pending.entries@, true, backends.len() as int);
            if backends.len() > 0 {
                assert(lru_candidate(backends, pending.entries@, false, 0));
            }
        }
        match idle {
            Some(j) => Some(self.backends.entries[j].key.clone()),
            None => match any {
                Some(j) => Some(self.backends.entries[j].key.clone()),
                None => None,
            },
        }
    }

    /// Hands out a session id that no server has had.
    pub fn next_session_id(&mut self) -> (session: u64)
        requires
            old(self).wf(),
            old(self).next_session < u64::MAX,
        ensures
            final(self).wf(),
            session == old(self).next_session + 1,
            *final(self) == (BackendPool { next_session: session, ..*old(self) }),
            forall|i: int|
                0 <= i < old(self).backends.entries@.len() ==> old(
                    self,
                ).backends.entries@[i].value.session < session,
    {
        self.next_session = self.next_session + 1;
        self.next_session
    }

    /// Whether a new server needs another one to leave first.
    pub fn is_full(&self) -> (full: bool)
        ensures
            full == (self.backends.entries@.len() >= self.max_backends),
    {
        self.backends.len() >= self.max_backends
    }

    /// Number of servers.
    pub fn len(&self) -> (n: usize)
        ensures
            n == self.backends.entries@.len(),
    {
        self.backends.len()
    }

    /// Whether there is no server.
    pub fn is_empty(&self) -> (empty: bool)
        ensures
            empty == (self.backends.entries@.len() == 0),
    {
        self.backends.is_empty()
    }

    /// The most servers the pool may hold.
    pub fn max_backends(&self) -> (max: usize)
        ensures
            max == self.max_backends,
    {
        self.max_backends
    }

    /// The environments whose servers have been idle for the time to live or
    /// longer at time `now`, in pool order; none where no time to live is set.
    /// Whether something still waits for them is for the caller to ask.
    pub fn expired_venvs(&self, now: u64) -> (expired: Vec<String>)
        ensures
            texts(expired@) == match self.backend_ttl {
                Some(ttl) => expired_among(
                    self.backends.entries@,
                    now,
                    ttl,
                    self.backends.entries@.len() as int,
                ),
                None => Seq::<Seq<char>>::empty(),
            },
    {
        let mut expired: Vec<String> = Vec::new();
        let ttl: u64 = match self.backend_ttl {
            Some(ttl) => ttl,
            None => {
                assert(texts(expired@) =~= Seq::<Seq<char>>::empty());
                return expired;
            },
        };
        let mut i: usize = 0;
        assert(texts(expired@) =~= Seq::<Seq<char>>::empty());
        while i < self.backends.entries.len()
            invariant
                0 <= i <= self.backends.entries@.len(),
                texts(expired@) == expired_among(self.backends.entries@, now, ttl, i as int),
            decreases self.backends.entries@.len() - i,
        {
            let instance = &self.backends.entries[i].value;
            let idle: u64 = if now >= instance.last_used {
                now - instance.last_used
            } else {
                0
            };
            if idle >= ttl {
                let ghost before = expired@;
                expired.push(instance.venv_path.clone());
                assert(texts(expired@) =~= texts(before).push(instance.venv_path@));
            }
            i = i + 1;
        }
        expired
    }

    /// The environments that have a server, in pool order.
    pub fn backends_keys(&self) -> (keys: Vec<String>)
        ensures
            texts(keys@) == self.backends.keys(),
    {
        let mut keys: Vec<String> = Vec::new();
        let mut i: usize = 0;
        assert(texts(keys@) =~= self.backends.keys().take(0));
        while i < self.backends.entries.len()
            invariant
                0 <= i <= self.backends.entries@.len(),
                keys@.len() == i,
                texts(keys@) == self.backends.keys().take(i as int),
            decreases self.backends.entries@.len() - i,
        {
            let ghost before = keys@;
            let key: String = self.backends.entries[i].key.clone();
            keys.push(key);
            proof {
                assert(keys@ == before.push(key));
                assert(texts(before) == self.backends.keys().take(i as int));
                assert(texts(keys@).len() == i + 1);
                assert forall|j: int| 0 <= j < i + 1 implies texts(keys@)[j]
                    == self.backends.keys().take(i + 1)[j] by {
                    if j < i {
                        assert(texts(keys@)[j] == texts(before)[j]);
                    }
                }
                assert(texts(keys@) =~= self.backends.keys().take(i + 1));
            }
            i = i + 1;
        }
        assert(self.backends.keys().take(i as int) =~= self.backends.keys());
        keys
    }

    /// The environment that was given a server first among those in the pool.
    pub fn first_key(&self) -> (key: Option<&String>)
        ensures
            match key {
                Some(k) => self.backends.entries@.len() > 0 && *k == self.backends.entries@[0].key,
                None => self.backends.entries@.len() == 0,
            },
    {
        if self.backends.entries.len() > 0 {
            Some(&self.backends.entries[0].key)
        } else {
            None
        }
    }
}

/// In a well-formed pool no environment has two servers, no server has a
/// session that was not handed out, and the servers are no more than the
/// maximum. A session that is handed out next is therefore greater than the
/// session of every server in the pool.
pub proof fn lemma_pool_invariant(pool: BackendPool)
    requires
        pool.wf(),
    ensures
        forall|i: int, j: int|
            0 <= i < j < pool.backends.entries@.len() ==> pool.backends.entries@[i].value.venv_path@
                != pool.backends.entries@[j].value.venv_path@,
        forall|i: int|
            0 <= i < pool.backends.entries@.len() ==> (
            #[trigger] pool.backends.entries@[i]).value.session < pool.next_session + 1,
        pool.backends.entries@.len() <= pool.max_backends,
{
    let backends = pool.backends.entries@;
    assert forall|i: int, j: int| 0 <= i < j < backends.len() implies backends[i].value.venv_path@
        != backends[j].value.venv_path@ by {
        assert(pool.backends.keys()[i] == pool.backends.entries@[i].key@);
        assert(pool.backends.keys()[j] == pool.backends.entries@[j].key@);
    }
}

} // verus!
