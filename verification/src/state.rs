//! What the proxy remembers between messages.

use crate::backend_pool::BackendPool;
use crate::message::{IdModel, RpcId, RpcMessage};
use crate::table::{Entry, Table};
use vstd::prelude::*;

verus! {

/// A client request that a backend has not answered yet.
#[derive(Debug)]
pub struct PendingRequest {
    /// Session of the backend the request was handed to.
    pub backend_session: u64,
    /// Environment of that backend.
    pub venv_path: String,
}

/// A request that a backend sent to the client, waiting for the client's
/// answer under an id that the proxy chose.
#[derive(Debug)]
pub struct PendingBackendRequest {
    /// The id the backend gave the request; put back on the answer.
    pub original_id: RpcId,
    /// Environment of the backend that asked.
    pub venv_path: String,
    /// Session of the backend that asked.
    pub session: u64,
}

/// A document the client has open.
#[derive(Debug)]
pub struct OpenDocument {
    pub language_id: String,
    pub version: i32,
    /// The whole text, kept current so that it can be replayed.
    pub text: String,
    /// The environment found when the document was opened.
    pub venv: Option<String>,
}

/// Number of requests among `pending` that wait for the backend of `venv` in
/// its session `session`.
pub open spec fn pending_count(
    pending: Seq<Entry<RpcId, PendingRequest>>,
    venv: Seq<char>,
    session: u64,
) -> nat
    decreases pending.len(),
{
    if pending.len() == 0 {
        0
    } else {
        let last = pending.last().value;
        let rest = pending_count(pending.drop_last(), venv, session);
        if last.venv_path@ == venv && last.backend_session == session {
            rest + 1
        } else {
            rest
        }
    }
}

/// Counts the requests that wait for the backend of `venv` in its session
/// `session`.
pub fn count_pending(
    pending: &Table<RpcId, PendingRequest>,
    venv: &String,
    session: u64,
) -> (n: usize)
    ensures
        n == pending_count(pending.entries@, venv@, session),
{
    let mut n: usize = 0;
    let mut i: usize = 0;
    while i < pending.entries.len()
        invariant
            0 <= i <= pending.entries@.len(),
            n == pending_count(pending.entries@.take(i as int), venv@, session),
            n <= i,
        decreases pending.entries@.len() - i,
    {
        proof {
            assert(pending.entries@.take(i + 1).drop_last() =~= pending.entries@.take(i as int));
        }
        let entry = &pending.entries[i];
        if entry.value.backend_session == session && entry.value.venv_path == *venv {
            n = n + 1;
        }
        i = i + 1;
    }
    proof {
        assert(pending.entries@.take(i as int) =~= pending.entries@);
    }
    n
}

/// Number of requests among `pending` that the backend of `venv` made in its
/// session `session`.
pub open spec fn asked_count(
    pending: Seq<Entry<RpcId, PendingBackendRequest>>,
    venv: Seq<char>,
    session: u64,
) -> nat
    decreases pending.len(),
{
    if pending.len() == 0 {
        0
    } else {
        let last = pending.last().value;
        let rest = asked_count(pending.drop_last(), venv, session);
        if last.venv_path@ == venv && last.session == session {
            rest + 1
        } else {
            rest
        }
    }
}

/// Counts the requests that the backend of `venv` made in its session
/// `session` and that the client has not answered.
pub fn count_asked(
    pending: &Table<RpcId, PendingBackendRequest>,
    venv: &String,
    session: u64,
) -> (n: usize)
    ensures
        n == asked_count(pending.entries@, venv@, session),
{
    let mut n: usize = 0;
    let mut i: usize = 0;
    while i < pending.entries.len()
        invariant
            0 <= i <= pending.entries@.len(),
            n == asked_count(pending.entries@.take(i as int), venv@, session),
            n <= i,
        decreases pending.entries@.len() - i,
    {
        proof {
            assert(pending.entries@.take(i + 1).drop_last() =~= pending.entries@.take(i as int));
        }
        let entry = &pending.entries[i];
        if entry.value.session == session && entry.value.venv_path == *venv {
            n = n + 1;
        }
        i = i + 1;
    }
    proof {
        assert(pending.entries@.take(i as int) =~= pending.entries@);
    }
    n
}

/// Where no request waits for a backend, none of the pending requests is
/// its.
pub proof fn lemma_none_pending(
    pending: Seq<Entry<RpcId, PendingRequest>>,
    venv: Seq<char>,
    session: u64,
)
    requires
        pending_count(pending, venv, session) == 0,
    ensures
        forall|j: int|
            0 <= j < pending.len() ==> !((#[trigger] pending[j]).value.venv_path@ == venv
                && pending[j].value.backend_session == session),
    decreases pending.len(),
{
    if pending.len() > 0 {
        lemma_none_pending(pending.drop_last(), venv, session);
        assert forall|j: int| 0 <= j < pending.len() implies !((#[trigger] pending[j]).value.venv_path@
            == venv && pending[j].value.backend_session == session) by {
            if j < pending.len() - 1 {
                assert(pending[j] == pending.drop_last()[j]);
            }
        }
    }
}

/// Where a backend has asked nothing that is unanswered, none of the pending
/// backend requests is its.
pub proof fn lemma_none_asked(
    pending: Seq<Entry<RpcId, PendingBackendRequest>>,
    venv: Seq<char>,
    session: u64,
)
    requires
        asked_count(pending, venv, session) == 0,
    ensures
        forall|j: int|
            0 <= j < pending.len() ==> !((#[trigger] pending[j]).value.venv_path@ == venv
                && pending[j].value.session == session),
    decreases pending.len(),
{
    if pending.len() > 0 {
        lemma_none_asked(pending.drop_last(), venv, session);
        assert forall|j: int| 0 <= j < pending.len() implies !((#[trigger] pending[j]).value.venv_path@
            == venv && pending[j].value.session == session) by {
            if j < pending.len() - 1 {
                assert(pending[j] == pending.drop_last()[j]);
            }
        }
    }
}

/// Everything the proxy remembers.
pub struct ProxyState {
    /// Root of the repository, the boundary of the search for environments.
    pub git_toplevel: Option<String>,
    /// The client's `initialize` request, reused for every backend.
    pub client_initialize: Option<RpcMessage>,
    /// The open documents by URI.
    pub open_documents: Table<String, OpenDocument>,
    /// Client requests that wait for a backend's answer, by the client's id.
    pub pending_requests: Table<RpcId, PendingRequest>,
    /// Backend requests that wait for the client's answer, by the id the
    /// proxy gave them.
    pub pending_backend_requests: Table<RpcId, PendingBackendRequest>,
    /// The id that the next backend request will get towards the client.
    pub next_proxy_request_id: i64,
    pub pool: BackendPool,
}

impl ProxyState {
    /// The state's invariant: every table has one entry per key, the pool is
    /// well-formed, the next proxy id is negative, and every proxy id in use
    /// is a number above it.
    pub open spec fn wf(&self) -> bool {
        &&& self.pool.wf()
        &&& self.open_documents.wf()
        &&& self.pending_requests.wf()
        &&& self.pending_backend_requests.wf()
        &&& self.next_proxy_request_id < 0
        &&& forall|i: int|
            0 <= i < self.pending_backend_requests.entries@.len() ==> match (
            #[trigger] self.pending_backend_requests.entries@[i]).key {
                RpcId::Number(n) => self.next_proxy_request_id < n < 0,
                RpcId::String(_) => false,
            }
    }

    /// The state at start: nothing open, nothing pending, an empty pool, and
    /// -1 as the first proxy id.
    pub fn new(max_backends: usize, backend_ttl: Option<u64>) -> (state: Self)
        requires
            max_backends >= 1,
        ensures
            state.wf(),
            state.git_toplevel is None,
            state.client_initialize is None,
            state.open_documents.entries@.len() == 0,
            state.pending_requests.entries@.len() == 0,
            state.pending_backend_requests.entries@.len() == 0,
            state.next_proxy_request_id == -1,
            state.pool.backends.entries@.len() == 0,
            state.pool.max_backends == max_backends,
            state.pool.backend_ttl == backend_ttl,
            state.pool.next_session == 0,
    {
        ProxyState {
            git_toplevel: None,
            client_initialize: None,
            open_documents: Table::new(),
            pending_requests: Table::new(),
            pending_backend_requests: Table::new(),
            next_proxy_request_id: -1,
            pool: BackendPool::new(max_backends, backend_ttl),
        }
    }

    /// Hands out the id under which a backend's request goes to the client:
    /// a negative number, lower than every id handed out before, so that it
    /// collides neither with a client's id nor with another backend's.
    pub fn alloc_proxy_request_id(&mut self) -> (id: RpcId)
        requires
            old(self).wf(),
            old(self).next_proxy_request_id > i64::MIN,
        ensures
            final(self).wf(),
            id@ == IdModel::Number(old(self).next_proxy_request_id),
            old(self).next_proxy_request_id < 0,
            final(self).next_proxy_request_id == old(self).next_proxy_request_id - 1,
            !old(self).pending_backend_requests.has(id@),
            *final(self) == (ProxyState {
                next_proxy_request_id: final(self).next_proxy_request_id,
                ..*old(self)
            }),
    {
        let id: i64 = self.next_proxy_request_id;
        proof {
            crate::table::lemma_find_from(
                self.pending_backend_requests.keys(),
                IdModel::Number(id),
                0,
            );
            if let Some(i) = self.pending_backend_requests.find(IdModel::Number(id)) {
                assert(self.pending_backend_requests.keys()[i]
                    == self.pending_backend_requests.entries@[i].key@);
            }
        }
        self.next_proxy_request_id = self.next_proxy_request_id - 1;
        RpcId::Number(id)
    }
}

/// Every id that the proxy hands out is negative, and of two ids the one
/// handed out later is the lower: the counter from which the ids are taken
/// only falls, so a state in which it is lower is a later one.
pub proof fn lemma_proxy_ids_descend(earlier: ProxyState, later: ProxyState)
    requires
        earlier.wf(),
        later.wf(),
        later.next_proxy_request_id < earlier.next_proxy_request_id,
    ensures
        earlier.next_proxy_request_id < 0,
        later.next_proxy_request_id < earlier.next_proxy_request_id < 0,
        IdModel::Number(later.next_proxy_request_id) != IdModel::Number(
            earlier.next_proxy_request_id,
        ),
        !earlier.pending_backend_requests.has(IdModel::Number(earlier.next_proxy_request_id)),
{
    let id = IdModel::Number(earlier.next_proxy_request_id);
    crate::table::lemma_find_from(earlier.pending_backend_requests.keys(), id, 0);
    if let Some(i) = earlier.pending_backend_requests.find(id) {
        assert(earlier.pending_backend_requests.keys()[i]
            == earlier.pending_backend_requests.entries@[i].key@);
    }
}

} // verus!
