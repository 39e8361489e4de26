//! Taking servers out of the pool: to make room, for old age, and after a
//! crash. Whatever the reason, every client request that waited for the
//! server is answered as cancelled, what the server itself had asked the
//! client is forgotten, and the diagnostics of its documents are voided.

use crate::backend_pool::{is_expired, lru_choice, BackendInstance};
use crate::message::{
    error_reply, IdModel, MessageModel, RpcError, RpcId, RpcMessage, REQUEST_CANCELLED,
};
use crate::proxy::diagnostics::{
    clear_diagnostics_message, lemma_uris_of_venv_has, lemma_uris_of_venv_only, message_models,
    uris_of_venv,
};
use crate::proxy::{action_models, Action, ActionModel, LspProxy};
use crate::state::{
    asked_count, count_asked, count_pending, lemma_none_asked, lemma_none_pending, pending_count,
    PendingBackendRequest, PendingRequest, ProxyState,
};
use crate::table::{
    dropped, kept, lemma_dropped_has, lemma_kept, lemma_kept_all, lemma_kept_everything, Entry,
    Table,
};
use vstd::prelude::*;

verus! {

/// Whether a pending client request waits for the server of `venv` in its
/// session `session`.
pub open spec fn waits_for(venv: Seq<char>, session: u64) -> spec_fn(
    Entry<RpcId, PendingRequest>,
) -> bool {
    |e: Entry<RpcId, PendingRequest>|
        e.value.venv_path@ == venv && e.value.backend_session == session
}

/// Whether a pending backend request was made by the server of `venv` in its
/// session `session`.
pub open spec fn asked_by(venv: Seq<char>, session: u64) -> spec_fn(
    Entry<RpcId, PendingBackendRequest>,
) -> bool {
    |e: Entry<RpcId, PendingBackendRequest>|
        e.value.venv_path@ == venv && e.value.session == session
}

/// The response that tells the client that request `id` was cancelled
/// because its server is gone.
pub open spec fn cancel_reply(id: IdModel) -> MessageModel {
    error_reply(Some(id), REQUEST_CANCELLED, "Request cancelled due to backend restart"@)
}

/// The cancelled-responses for the requests `cancelled`, in order.
pub open spec fn cancel_replies(cancelled: Seq<Entry<RpcId, PendingRequest>>) -> Seq<
    MessageModel,
> {
    Seq::new(cancelled.len(), |i: int| cancel_reply(cancelled[i].key@))
}

/// Each of `messages` as something to write to the client.
pub open spec fn to_client(messages: Seq<MessageModel>) -> Seq<ActionModel> {
    Seq::new(messages.len(), |i: int| ActionModel::ToClient(messages[i]))
}

/// The notifications that void the diagnostics of `uris`, in order.
pub open spec fn clear_messages(uris: Seq<Seq<char>>) -> Seq<MessageModel> {
    Seq::new(uris.len(), |i: int| clear_diagnostics_message(uris[i]))
}

/// What follows when `instance` leaves the pool in state `state`: a
/// cancelled-response for each request that waited for it, a notification
/// that voids the diagnostics of each document bound to it, and at last the
/// shutdown of the server, or for one that crashed the end of reading.
pub open spec fn retire_actions(state: ProxyState, instance: BackendInstance, crashed: bool) -> Seq<
    ActionModel,
> {
    to_client(
        cancel_replies(
            dropped(
                state.pending_requests.entries@,
                waits_for(instance.venv_path@, instance.session),
                state.pending_requests.entries@.len() as int,
            ),
        ),
    ) + to_client(
        clear_messages(
            uris_of_venv(
                state.open_documents.entries@,
                instance.venv_path@,
                state.open_documents.entries@.len() as int,
            ),
        ),
    ) + seq![
        if crashed {
            ActionModel::Abort { venv_path: instance.venv_path@, session: instance.session }
        } else {
            ActionModel::Shutdown {
                venv_path: instance.venv_path@,
                session: instance.session,
                next_id: instance.next_id,
            }
        },
    ]
}

/// The state after the server at index `at` of the pool has left it: the
/// server is out of the pool, and nothing is pending for it or from it.
pub open spec fn retired(before: ProxyState, after: ProxyState, at: int) -> bool {
    retired_to(before, after, at, before.pool.next_session)
}

/// As `retired`, with `next_session` as the session id handed out last.
pub open spec fn retired_to(
    before: ProxyState,
    after: ProxyState,
    at: int,
    next_session: u64,
) -> bool {
    let instance = before.pool.backends.entries@[at].value;
    &&& after.pool.backends.entries@ == before.pool.backends.entries@.remove(at)
    &&& after.pool.max_backends == before.pool.max_backends
    &&& after.pool.backend_ttl == before.pool.backend_ttl
    &&& after.pool.next_session == next_session
    &&& after.pending_requests.entries@ == kept(
        before.pending_requests.entries@,
        waits_for(instance.venv_path@, instance.session),
        before.pending_requests.entries@.len() as int,
    )
    &&& after.pending_backend_requests.entries@ == kept(
        before.pending_backend_requests.entries@,
        asked_by(instance.venv_path@, instance.session),
        before.pending_backend_requests.entries@.len() as int,
    )
    &&& after.open_documents == before.open_documents
    &&& after.client_initialize == before.client_initialize
    &&& after.git_toplevel == before.git_toplevel
    &&& after.next_proxy_request_id == before.next_proxy_request_id
}

/// The response that tells the client that request `id` was cancelled.
pub fn cancel_response(id: RpcId) -> (message: RpcMessage)
    ensures
        message@ == cancel_reply(id@),
{
    RpcMessage {
        jsonrpc: "2.0".to_string(),
        id: Some(id),
        method: None,
        params: None,
        result: None,
        error: Some(
            RpcError {
                code: REQUEST_CANCELLED,
                message: "Request cancelled due to backend restart".to_string(),
                data: None,
            },
        ),
    }
}

/// Takes every request that waits for the server of `venv_path` in session
/// `session` out of `pending`, and returns a cancelled-response for each, in
/// the order in which the requests were made.
pub fn cancel_requests(
    pending: &mut Table<RpcId, PendingRequest>,
    venv_path: &String,
    session: u64,
) -> (messages: Vec<RpcMessage>)
    requires
        old(pending).wf(),
    ensures
        final(pending).wf(),
        final(pending).entries@ == kept(
            old(pending).entries@,
            waits_for(venv_path@, session),
            old(pending).entries@.len() as int,
        ),
        message_models(messages@) == cancel_replies(
            dropped(
                old(pending).entries@,
                waits_for(venv_path@, session),
                old(pending).entries@.len() as int,
            ),
        ),
{
    let mut messages: Vec<RpcMessage> = Vec::new();
    let ghost all = pending.entries@;
    let ghost drop = waits_for(venv_path@, session);
    let ghost mut k: int = 0;
    let mut i: usize = 0;
    assert(pending.entries@ =~= kept(all, drop, 0) + all.skip(0));
    assert(message_models(messages@) =~= cancel_replies(dropped(all, drop, 0)));
    while i < pending.entries.len()
        invariant
            pending.wf(),
            all == old(pending).entries@,
            drop == waits_for(venv_path@, session),
            0 <= k <= all.len(),
            i == kept(all, drop, k).len(),
            pending.entries@ == kept(all, drop, k) + all.skip(k),
            messages@.len() == dropped(all, drop, k).len(),
            message_models(messages@) == cancel_replies(dropped(all, drop, k)),
        decreases all.len() - k,
    {
        proof {
            lemma_kept(all, drop, k);
            assert(pending.entries@[i as int] == all[k]);
        }
        let entry = &pending.entries[i];
        let waits: bool = entry.value.backend_session == session && entry.value.venv_path
            == *venv_path;
        assert(waits == drop(all[k]));
        if waits {
            let ghost sent = messages@;
            let removed = pending.remove_at(i);
            let message: RpcMessage = cancel_response(removed.key);
            messages.push(message);
            proof {
                assert(pending.entries@ =~= kept(all, drop, k + 1) + all.skip(k + 1));
                assert(messages@ == sent.push(message));
                assert(removed == all[k]);
                let goal = cancel_replies(dropped(all, drop, k + 1));
                assert(dropped(all, drop, k + 1) == dropped(all, drop, k).push(all[k]));
                assert(message_models(sent) == cancel_replies(dropped(all, drop, k)));
                assert(message_models(messages@).len() == goal.len());
                assert forall|j: int| 0 <= j < goal.len() implies message_models(messages@)[j]
                    == goal[j] by {
                    if j < sent.len() {
                        assert(message_models(messages@)[j] == message_models(sent)[j]);
                    }
                }
                assert(message_models(messages@) =~= goal);
            }
        } else {
            i = i + 1;
            proof {
                assert(pending.entries@ =~= kept(all, drop, k + 1) + all.skip(k + 1));
            }
        }
        proof {
            k = k + 1;
        }
    }
    proof {
        lemma_kept(all, drop, k);
        lemma_kept(all, drop, all.len() as int);
        assert(k == all.len()) by {
            assert(pending.entries@.len() == kept(all, drop, k).len() + (all.len() - k));
        }
        assert(pending.entries@ =~= kept(all, drop, all.len() as int));
    }
    messages
}

/// Takes every request that the server of `venv_path` made in session
/// `session` out of `pending`.
pub fn forget_backend_requests(
    pending: &mut Table<RpcId, PendingBackendRequest>,
    venv_path: &String,
    session: u64,
)
    requires
        old(pending).wf(),
    ensures
        final(pending).wf(),
        final(pending).entries@ == kept(
            old(pending).entries@,
            asked_by(venv_path@, session),
            old(pending).entries@.len() as int,
        ),
{
    let ghost all = pending.entries@;
    let ghost drop = asked_by(venv_path@, session);
    let ghost mut k: int = 0;
    let mut i: usize = 0;
    assert(pending.entries@ =~= kept(all, drop, 0) + all.skip(0));
    while i < pending.entries.len()
        invariant
            pending.wf(),
            all == old(pending).entries@,
            drop == asked_by(venv_path@, session),
            0 <= k <= all.len(),
            i == kept(all, drop, k).len(),
            pending.entries@ == kept(all, drop, k) + all.skip(k),
        decreases all.len() - k,
    {
        proof {
            lemma_kept(all, drop, k);
            assert(pending.entries@[i as int] == all[k]);
        }
        let entry = &pending.entries[i];
        let asked: bool = entry.value.session == session && entry.value.venv_path == *venv_path;
        assert(asked == drop(all[k]));
        if asked {
            let _ = pending.remove_at(i);
            proof {
                assert(pending.entries@ =~= kept(all, drop, k + 1) + all.skip(k + 1));
            }
        } else {
            i = i + 1;
            proof {
                assert(pending.entries@ =~= kept(all, drop, k + 1) + all.skip(k + 1));
            }
        }
        proof {
            k = k + 1;
        }
    }
    proof {
        lemma_kept(all, drop, k);
        assert(k == all.len()) by {
            assert(pending.entries@.len() == kept(all, drop, k).len() + (all.len() - k));
        }
        assert(pending.entries@ =~= kept(all, drop, all.len() as int));
    }
}

/// Each of `messages` as an action that writes it to the client.
pub fn to_client_actions(messages: &Vec<RpcMessage>) -> (actions: Vec<Action>)
    ensures
        action_models(actions@) == to_client(message_models(messages@)),
        actions@.len() == messages@.len(),
{
    let mut actions: Vec<Action> = Vec::new();
    let mut i: usize = 0;
    while i < messages.len()
        invariant
            0 <= i <= messages@.len(),
            actions@.len() == i,
            forall|j: int| 0 <= j < i ==> (#[trigger] actions@[j])@ == ActionModel::ToClient(
                messages@[j]@,
            ),
        decreases messages@.len() - i,
    {
        actions.push(Action::ToClient(messages[i].clone()));
        i = i + 1;
    }
    assert(action_models(actions@) =~= to_client(message_models(messages@)));
    actions
}

/// Appends `more` to `actions`.
pub fn append_actions(actions: &mut Vec<Action>, more: Vec<Action>)
    ensures
        final(actions)@ == old(actions)@ + more@,
        action_models(final(actions)@) == action_models(old(actions)@) + action_models(more@),
{
    let ghost added = more@;
    let mut rest: Vec<Action> = more;
    actions.append(&mut rest);
    assert(action_models(actions@) =~= action_models(old(actions)@) + action_models(added));
}

impl LspProxy {
    /// Answers every request that waits for the server of `venv_path` in
    /// session `session` as cancelled, and forgets the requests.
    pub fn cancel_pending_requests_for_session(
        &mut self,
        venv_path: &String,
        session: u64,
    ) -> (messages: Vec<RpcMessage>)
        requires
            old(self).wf(),
        ensures
            final(self).wf(),
            final(self).state.pending_requests.entries@ == kept(
                old(self).state.pending_requests.entries@,
                waits_for(venv_path@, session),
                old(self).state.pending_requests.entries@.len() as int,
            ),
            message_models(messages@) == cancel_replies(
                dropped(
                    old(self).state.pending_requests.entries@,
                    waits_for(venv_path@, session),
                    old(self).state.pending_requests.entries@.len() as int,
                ),
            ),
            final(self).state.pool == old(self).state.pool,
            final(self).state.open_documents == old(self).state.open_documents,
            final(self).state.pending_backend_requests == old(self).state.pending_backend_requests,
            final(self).state.client_initialize == old(self).state.client_initialize,
            final(self).state.git_toplevel == old(self).state.git_toplevel,
            final(self).state.next_proxy_request_id == old(self).state.next_proxy_request_id,
            final(self).backend_ttl == old(self).backend_ttl,
            final(self).warmup_timeout == old(self).warmup_timeout,
    {
        cancel_requests(&mut self.state.pending_requests, venv_path, session)
    }

    /// Takes the server of `venv_path` out of the pool and settles what hung
    /// on it: see `retired` and `retire_actions`. Where the environment has
    /// no server, nothing happens.
    pub fn retire_backend(&mut self, venv_path: &String, crashed: bool) -> (actions: Vec<Action>)
        requires
            old(self).wf(),
        ensures
            final(self).wf(),
            final(self).backend_ttl == old(self).backend_ttl,
            final(self).warmup_timeout == old(self).warmup_timeout,
            match old(self).state.pool.backends.find(venv_path@) {
                Some(at) => retired(old(self).state, final(self).state, at) && action_models(
                    actions@,
                ) == retire_actions(
                    old(self).state,
                    old(self).state.pool.backends.entries@[at].value,
                    crashed,
                ),
                None => *final(self) == *old(self) && actions@.len() == 0,
            },
    {
        let ghost before = self.state;
        proof {
            crate::table::lemma_find_from(self.state.pool.backends.keys(), venv_path@, 0);
        }
        let instance: BackendInstance = match self.state.pool.remove(venv_path) {
            Some(instance) => instance,
            None => {
                return Vec::new();
            },
        };
        let ghost at = before.pool.backends.find(venv_path@)->0;
        assert(instance == before.pool.backends.entries@[at].value);
        let cancels: Vec<RpcMessage> = cancel_requests(
            &mut self.state.pending_requests,
            &instance.venv_path,
            instance.session,
        );
        forget_backend_requests(
            &mut self.state.pending_backend_requests,
            &instance.venv_path,
            instance.session,
        );
        proof {
            let next = before.next_proxy_request_id;
            let numbered = |e: Entry<RpcId, PendingBackendRequest>|
                match e.key {
                    RpcId::Number(n) => next < n < 0,
                    RpcId::String(_) => false,
                };
            assert forall|j: int|
                0 <= j < before.pending_backend_requests.entries@.len() implies numbered(
                #[trigger] before.pending_backend_requests.entries@[j],
            ) by {}
            lemma_kept_all(
                before.pending_backend_requests.entries@,
                asked_by(instance.venv_path@, instance.session),
                before.pending_backend_requests.entries@.len() as int,
                numbered,
            );
            assert forall|i: int|
                0 <= i < self.state.pending_backend_requests.entries@.len() implies match (
                #[trigger] self.state.pending_backend_requests.entries@[i]).key {
                    RpcId::Number(n) => self.state.next_proxy_request_id < n < 0,
                    RpcId::String(_) => false,
                } by {
                assert(numbered(self.state.pending_backend_requests.entries@[i]));
            }
        }
        let clears: Vec<RpcMessage> = self.clear_diagnostics_for_venv(&instance.venv_path);
        let mut actions: Vec<Action> = to_client_actions(&cancels);
        let clear_actions: Vec<Action> = to_client_actions(&clears);
        append_actions(&mut actions, clear_actions);
        let last: Action = if crashed {
            Action::Abort { venv_path: instance.venv_path, session: instance.session }
        } else {
            Action::Shutdown {
                venv_path: instance.venv_path,
                session: instance.session,
                next_id: instance.next_id,
            }
        };
        let ghost so_far = actions@;
        actions.push(last);
        proof {
            assert(action_models(actions@) =~= action_models(so_far) + seq![last@]);
            let uris = uris_of_venv(
                before.open_documents.entries@,
                instance.venv_path@,
                before.open_documents.entries@.len() as int,
            );
            assert(message_models(clears@) =~= clear_messages(uris));
        }
        actions
    }

    /// Retires the server that was used least recently, preferring one for
    /// which no request waits. In an empty pool nothing happens.
    pub fn evict_lru_backend(&mut self) -> (actions: Vec<Action>)
        requires
            old(self).wf(),
        ensures
            final(self).wf(),
            final(self).backend_ttl == old(self).backend_ttl,
            final(self).warmup_timeout == old(self).warmup_timeout,
            match lru_choice(
                old(self).state.pool.backends.entries@,
                old(self).state.pending_requests.entries@,
            ) {
                Some(at) => retired(old(self).state, final(self).state, at) && action_models(
                    actions@,
                ) == retire_actions(
                    old(self).state,
                    old(self).state.pool.backends.entries@[at].value,
                    false,
                ),
                None => *final(self) == *old(self) && actions@.len() == 0,
            },
            old(self).state.pool.backends.entries@.len() > 0 ==> final(
                self).state.pool.backends.entries@.len() == old(
                self).state.pool.backends.entries@.len() - 1,
    {
        let victim: Option<String> = self.state.pool.lru_venv(&self.state.pending_requests);
        match victim {
            Some(venv_path) => {
                proof {
                    let backends = self.state.pool.backends.entries@;
                    let pending = self.state.pending_requests.entries@;
                    crate::backend_pool::lemma_lru_index(
                        backends,
                        pending,
                        true,
                        backends.len() as int,
                    );
                    crate::backend_pool::lemma_lru_index(
                        backends,
                        pending,
                        false,
                        backends.len() as int,
                    );
                    let at = lru_choice(backends, pending)->0;
                    assert(self.state.pool.backends.keys()[at] == backends[at].key@);
                    crate::table::lemma_find_unique(
                        self.state.pool.backends.keys(),
                        venv_path@,
                        at,
                    );
                }
                self.retire_backend(&venv_path, false)
            },
            None => Vec::new(),
        }
    }

    /// Settles the end of the server of `venv_path` that was reading in
    /// session `session`: where the pool still holds that very server, it is
    /// retired without a shutdown. News from an earlier session changes
    /// nothing.
    pub fn handle_backend_crash(&mut self, venv_path: &String, session: u64) -> (actions: Vec<
        Action,
    >)
        requires
            old(self).wf(),
        ensures
            final(self).wf(),
            final(self).backend_ttl == old(self).backend_ttl,
            final(self).warmup_timeout == old(self).warmup_timeout,
            if old(self).state.pool.is_current(venv_path@, session) {
                let at = old(self).state.pool.backends.find(venv_path@)->0;
                retired(old(self).state, final(self).state, at) && action_models(actions@)
                    == retire_actions(
                    old(self).state,
                    old(self).state.pool.backends.entries@[at].value,
                    true,
                )
            } else {
                *final(self) == *old(self) && actions@.len() == 0
            },
            !final(self).state.pool.is_current(venv_path@, session),
    {
        let current: bool = match self.state.pool.get(venv_path) {
            Some(instance) => instance.session == session,
            None => false,
        };
        if current {
            let actions = self.retire_backend(venv_path, true);
            proof {
                crate::table::lemma_find_from(old(self).state.pool.backends.keys(), venv_path@, 0);
                let at = old(self).state.pool.backends.find(venv_path@)->0;
                assert(self.state.pool.backends.keys() =~= old(self).state.pool.backends.keys().remove(
                    at,
                ));
                crate::table::lemma_find_from(self.state.pool.backends.keys(), venv_path@, 0);
            }
            actions
        } else {
            Vec::new()
        }
    }
}

/// `after` is `before` but for the session id handed out last.
pub open spec fn same_but_session(
    before: ProxyState,
    after: ProxyState,
    next_session: u64,
) -> bool {
    &&& after.pool.backends == before.pool.backends
    &&& after.pool.max_backends == before.pool.max_backends
    &&& after.pool.backend_ttl == before.pool.backend_ttl
    &&& after.pool.next_session == next_session
    &&& after.pending_requests == before.pending_requests
    &&& after.pending_backend_requests == before.pending_backend_requests
    &&& after.open_documents == before.open_documents
    &&& after.client_initialize == before.client_initialize
    &&& after.git_toplevel == before.git_toplevel
    &&& after.next_proxy_request_id == before.next_proxy_request_id
}

/// The server that has to leave before another can be started: none while
/// the pool has room.
pub open spec fn evictee(state: ProxyState) -> Option<int> {
    if state.pool.backends.entries@.len() >= state.pool.max_backends {
        lru_choice(state.pool.backends.entries@, state.pending_requests.entries@)
    } else {
        None
    }
}

/// What ordering the start of a server for `venv` does: where the pool is
/// full, the least recently used server is retired first; then the next
/// session id is handed out and the start is ordered under it.
pub open spec fn spawn_ordered(
    before: ProxyState,
    after: ProxyState,
    actions: Seq<ActionModel>,
    venv: Seq<char>,
    deferred: Option<MessageModel>,
) -> bool {
    let session = (before.pool.next_session + 1) as u64;
    let spawn = ActionModel::Spawn { venv_path: venv, session, deferred };
    match evictee(before) {
        Some(at) => retired_to(before, after, at, session) && actions == retire_actions(
            before,
            before.pool.backends.entries@[at].value,
            false,
        ) + seq![spawn],
        None => same_but_session(before, after, session) && actions == seq![spawn],
    }
}

impl LspProxy {
    /// Prepares the start of a server for `venv_path`: where the pool is
    /// full, the least recently used server is retired first; then a new
    /// session is handed out and the start is ordered, with `deferred` as the
    /// request that waits for it. Afterwards the pool has room for the new
    /// server.
    pub fn create_backend_instance(
        &mut self,
        venv_path: String,
        deferred: Option<RpcMessage>,
    ) -> (actions: Vec<Action>)
        requires
            old(self).wf(),
            old(self).state.pool.next_session < u64::MAX,
        ensures
            final(self).wf(),
            final(self).backend_ttl == old(self).backend_ttl,
            final(self).warmup_timeout == old(self).warmup_timeout,
            final(self).state.pool.backends.entries@.len() < final(self).state.pool.max_backends,
            spawn_ordered(
                old(self).state,
                final(self).state,
                action_models(actions@),
                venv_path@,
                match deferred {
                    Some(m) => Some(m@),
                    None => None,
                },
            ),
    {
        let mut actions: Vec<Action> = if self.state.pool.is_full() {
            proof {
                crate::backend_pool::lemma_lru_index(
                    self.state.pool.backends.entries@,
                    self.state.pending_requests.entries@,
                    false,
                    self.state.pool.backends.entries@.len() as int,
                );
                crate::backend_pool::lemma_lru_index(
                    self.state.pool.backends.entries@,
                    self.state.pending_requests.entries@,
                    true,
                    self.state.pool.backends.entries@.len() as int,
                );
                assert(crate::backend_pool::lru_candidate(
                    self.state.pool.backends.entries@,
                    self.state.pending_requests.entries@,
                    false,
                    0,
                ));
            }
            self.evict_lru_backend()
        } else {
            Vec::new()
        };
        let session: u64 = self.state.pool.next_session_id();
        let ghost so_far = actions@;
        let spawn: Action = Action::Spawn { venv_path, session, deferred };
        actions.push(spawn);
        proof {
            assert(action_models(actions@) =~= action_models(so_far) + seq![spawn@]);
            if evictee(old(self).state) is None {
                assert(action_models(so_far) =~= Seq::<ActionModel>::empty());
                assert(action_models(actions@) =~= seq![spawn@]);
            }
        }
        actions
    }
}

/// Whether a server is retired by the sweep at time `now`: where it has been
/// idle for the time to live `ttl` or longer, no request waits for it, and
/// it waits for no answer from the client.
pub open spec fn sweepable(state: ProxyState, now: u64, ttl: u64) -> spec_fn(
    Entry<String, BackendInstance>,
) -> bool {
    |e: Entry<String, BackendInstance>|
        {
            &&& is_expired(e.value.last_used, now, ttl)
            &&& pending_count(state.pending_requests.entries@, e.value.venv_path@, e.value.session)
                == 0
            &&& asked_count(
                state.pending_backend_requests.entries@,
                e.value.venv_path@,
                e.value.session,
            ) == 0
        }
}

/// What follows from the sweep of the first `n` servers of the pool of
/// `state`: the retirement of each that is swept, in pool order.
pub open spec fn sweep_actions(state: ProxyState, now: u64, ttl: u64, n: int) -> Seq<ActionModel>
    decreases n,
{
    if n <= 0 {
        Seq::empty()
    } else {
        let entry = state.pool.backends.entries@[n - 1];
        let before = sweep_actions(state, now, ttl, n - 1);
        if sweepable(state, now, ttl)(entry) {
            before + retire_actions(state, entry.value, false)
        } else {
            before
        }
    }
}

/// What the sweep at time `now` does: the servers that are swept leave the
/// pool; nothing else changes, since nothing hung on them.
pub open spec fn swept(
    before: ProxyState,
    after: ProxyState,
    actions: Seq<ActionModel>,
    now: u64,
) -> bool {
    match before.pool.backend_ttl {
        Some(ttl) => {
            &&& after.pool.backends.entries@ == kept(
                before.pool.backends.entries@,
                sweepable(before, now, ttl),
                before.pool.backends.entries@.len() as int,
            )
            &&& actions == sweep_actions(
                before,
                now,
                ttl,
                before.pool.backends.entries@.len() as int,
            )
            &&& after.pool.max_backends == before.pool.max_backends
            &&& after.pool.backend_ttl == before.pool.backend_ttl
            &&& after.pool.next_session == before.pool.next_session
            &&& after.pending_requests.entries@ == before.pending_requests.entries@
            &&& after.pending_backend_requests.entries@ == before.pending_backend_requests.entries@
            &&& after.open_documents == before.open_documents
            &&& after.client_initialize == before.client_initialize
            &&& after.git_toplevel == before.git_toplevel
            &&& after.next_proxy_request_id == before.next_proxy_request_id
        },
        None => after == before && actions.len() == 0,
    }
}

impl LspProxy {
    /// Retires every server that has been idle for the time to live or
    /// longer and on which nothing hangs; see `swept`. Without a time to
    /// live nothing happens.
    pub fn evict_expired_backends(&mut self, now: u64) -> (actions: Vec<Action>)
        requires
            old(self).wf(),
        ensures
            final(self).wf(),
            final(self).backend_ttl == old(self).backend_ttl,
            final(self).warmup_timeout == old(self).warmup_timeout,
            swept(old(self).state, final(self).state, action_models(actions@), now),
    {
        let mut actions: Vec<Action> = Vec::new();
        let ttl: u64 = match self.state.pool.backend_ttl {
            Some(ttl) => ttl,
            None => {
                return actions;
            },
        };
        let ghost start = self.state;
        let ghost all = self.state.pool.backends.entries@;
        let ghost sweep = sweepable(start, now, ttl);
        let ghost mut k: int = 0;
        let mut i: usize = 0;
        assert(self.state.pool.backends.entries@ =~= kept(all, sweep, 0) + all.skip(0));
        assert(action_models(actions@) =~= sweep_actions(start, now, ttl, 0));
        while i < self.state.pool.backends.entries.len()
            invariant
                self.wf(),
                start == old(self).state,
                all == start.pool.backends.entries@,
                sweep == sweepable(start, now, ttl),
                start.pool.backend_ttl == Some(ttl),
                0 <= k <= all.len(),
                i == kept(all, sweep, k).len(),
                self.state.pool.backends.entries@ == kept(all, sweep, k) + all.skip(k),
                action_models(actions@) == sweep_actions(start, now, ttl, k),
                self.state.pool.max_backends == start.pool.max_backends,
                self.state.pool.backend_ttl == start.pool.backend_ttl,
                self.state.pool.next_session == start.pool.next_session,
                self.state.pending_requests.entries@ == start.pending_requests.entries@,
                self.state.pending_backend_requests.entries@
                    == start.pending_backend_requests.entries@,
                self.state.open_documents == start.open_documents,
                self.state.client_initialize == start.client_initialize,
                self.state.git_toplevel == start.git_toplevel,
                self.state.next_proxy_request_id == start.next_proxy_request_id,
                self.backend_ttl == old(self).backend_ttl,
                self.warmup_timeout == old(self).warmup_timeout,
            decreases all.len() - k,
        {
            proof {
                lemma_kept(all, sweep, k);
                assert(self.state.pool.backends.entries@[i as int] == all[k]);
            }
            let entry = &self.state.pool.backends.entries[i];
            let idle: u64 = if now >= entry.value.last_used {
                now - entry.value.last_used
            } else {
                0
            };
            let retire: bool = idle >= ttl && count_pending(
                &self.state.pending_requests,
                &entry.value.venv_path,
                entry.value.session,
            ) == 0 && count_asked(
                &self.state.pending_backend_requests,
                &entry.value.venv_path,
                entry.value.session,
            ) == 0;
            assert(retire == sweep(all[k]));
            if retire {
                let key: String = entry.key.clone();
                let ghost current = self.state;
                let ghost done = action_models(actions@);
                proof {
                    assert(current.pool.backends.keys()[i as int] == key@);
                    crate::table::lemma_find_unique(current.pool.backends.keys(), key@, i as int);
                    lemma_none_pending(
                        current.pending_requests.entries@,
                        all[k].value.venv_path@,
                        all[k].value.session,
                    );
                    lemma_none_asked(
                        current.pending_backend_requests.entries@,
                        all[k].value.venv_path@,
                        all[k].value.session,
                    );
                    lemma_kept_everything(
                        current.pending_requests.entries@,
                        waits_for(all[k].value.venv_path@, all[k].value.session),
                        current.pending_requests.entries@.len() as int,
                    );
                    lemma_kept_everything(
                        current.pending_backend_requests.entries@,
                        asked_by(all[k].value.venv_path@, all[k].value.session),
                        current.pending_backend_requests.entries@.len() as int,
                    );
                    assert(current.pending_requests.entries@.take(
                        current.pending_requests.entries@.len() as int,
                    ) =~= current.pending_requests.entries@);
                    assert(current.pending_backend_requests.entries@.take(
                        current.pending_backend_requests.entries@.len() as int,
                    ) =~= current.pending_backend_requests.entries@);
                }
                let more: Vec<Action> = self.retire_backend(&key, false);
                proof {
                    assert(retire_actions(current, all[k].value, false) == retire_actions(
                        start,
                        all[k].value,
                        false,
                    ));
                    assert(self.state.pool.backends.entries@ =~= kept(all, sweep, k + 1) + all.skip(
                        k + 1,
                    ));
                }
                append_actions(&mut actions, more);
            } else {
                i = i + 1;
                proof {
                    assert(self.state.pool.backends.entries@ =~= kept(all, sweep, k + 1) + all.skip(
                        k + 1,
                    ));
                }
            }
            proof {
                k = k + 1;
            }
        }
        proof {
            lemma_kept(all, sweep, k);
            assert(k == all.len()) by {
                assert(self.state.pool.backends.entries@.len() == kept(all, sweep, k).len() + (
                all.len() - k));
            }
            assert(self.state.pool.backends.entries@ =~= kept(all, sweep, all.len() as int));
        }
        actions
    }
}

/// No request is lost with its server: when a server leaves the pool, every
/// request that waited for it is answered as cancelled, under its own id,
/// and none of them stays on the books.
pub proof fn lemma_retired_requests_cancelled(
    before: ProxyState,
    after: ProxyState,
    at: int,
    crashed: bool,
    j: int,
)
    requires
        0 <= at < before.pool.backends.entries@.len(),
        retired(before, after, at),
        0 <= j < before.pending_requests.entries@.len(),
        waits_for(
            before.pool.backends.entries@[at].value.venv_path@,
            before.pool.backends.entries@[at].value.session,
        )(before.pending_requests.entries@[j]),
    ensures
        retire_actions(before, before.pool.backends.entries@[at].value, crashed).contains(
            ActionModel::ToClient(cancel_reply(before.pending_requests.entries@[j].key@)),
        ),
        forall|i: int|
            0 <= i < after.pending_requests.entries@.len() ==> !waits_for(
                before.pool.backends.entries@[at].value.venv_path@,
                before.pool.backends.entries@[at].value.session,
            )(#[trigger] after.pending_requests.entries@[i]),
{
    let instance = before.pool.backends.entries@[at].value;
    let pending = before.pending_requests.entries@;
    let drop = waits_for(instance.venv_path@, instance.session);
    let gone = dropped(pending, drop, pending.len() as int);
    lemma_dropped_has(pending, drop, pending.len() as int, j);
    lemma_kept(pending, drop, pending.len() as int);
    let i = choose|i: int| 0 <= i < gone.len() && #[trigger] gone[i] == pending[j];
    let actions = retire_actions(before, instance, crashed);
    assert(cancel_replies(gone)[i] == cancel_reply(pending[j].key@));
    assert(to_client(cancel_replies(gone))[i] == ActionModel::ToClient(
        cancel_reply(pending[j].key@),
    ));
    assert(actions[i] == ActionModel::ToClient(cancel_reply(pending[j].key@)));
}

/// Under pressure the pool makes room before it grows: when a start is
/// ordered while the pool is full, the least recently used server has left
/// the pool by then, so that the pool is below its maximum; each request
/// that waited for that server is answered as cancelled and is off the
/// books; the diagnostics of each document bound to its environment are
/// voided, while the documents stay cached; and the start is the last thing
/// ordered.
pub proof fn lemma_start_under_pressure(
    before: ProxyState,
    after: ProxyState,
    actions: Seq<ActionModel>,
    venv: Seq<char>,
    deferred: Option<MessageModel>,
)
    requires
        before.wf(),
        before.pool.backends.entries@.len() >= before.pool.max_backends,
        spawn_ordered(before, after, actions, venv, deferred),
    ensures
        evictee(before) is Some,
        ({
            let at = evictee(before)->0;
            let gone = before.pool.backends.entries@[at].value;
            let leaves = waits_for(gone.venv_path@, gone.session);
            let pending = before.pending_requests.entries@;
            let documents = before.open_documents.entries@;
            &&& 0 <= at < before.pool.backends.entries@.len()
            &&& after.pool.backends.entries@ == before.pool.backends.entries@.remove(at)
            &&& after.pool.backends.entries@.len() < after.pool.max_backends
            &&& after.open_documents == before.open_documents
            &&& actions.len() == dropped(pending, leaves, pending.len() as int).len()
                + uris_of_venv(documents, gone.venv_path@, documents.len() as int).len() + 2
            &&& actions[actions.len() - 2] == (ActionModel::Shutdown {
                venv_path: gone.venv_path@,
                session: gone.session,
                next_id: gone.next_id,
            })
            &&& actions.last() == (ActionModel::Spawn {
                venv_path: venv,
                session: (before.pool.next_session + 1) as u64,
                deferred,
            })
            &&& forall|j: int|
                0 <= j < pending.len() && leaves(#[trigger] pending[j]) ==> actions.contains(
                    ActionModel::ToClient(cancel_reply(pending[j].key@)),
                )
            &&& forall|i: int|
                0 <= i < after.pending_requests.entries@.len() ==> !leaves(
                    #[trigger] after.pending_requests.entries@[i],
                )
            &&& forall|d: int|
                0 <= d < documents.len() && ((#[trigger] documents[d]).value.venv matches Some(v)
                    && v@ == gone.venv_path@) ==> actions.contains(
                    ActionModel::ToClient(clear_diagnostics_message(documents[d].key@)),
                )
        }),
{
    let backends = before.pool.backends.entries@;
    let pending = before.pending_requests.entries@;
    let documents = before.open_documents.entries@;
    crate::backend_pool::lemma_lru_index(backends, pending, true, backends.len() as int);
    crate::backend_pool::lemma_lru_index(backends, pending, false, backends.len() as int);
    assert(crate::backend_pool::lru_candidate(backends, pending, false, 0));
    let at = evictee(before)->0;
    let gone = backends[at].value;
    let leaves = waits_for(gone.venv_path@, gone.session);
    let cancelled = dropped(pending, leaves, pending.len() as int);
    let uris = uris_of_venv(documents, gone.venv_path@, documents.len() as int);
    let retire = retire_actions(before, gone, false);
    lemma_kept(pending, leaves, pending.len() as int);
    assert(retire.len() == cancelled.len() + uris.len() + 1);
    assert(actions == retire + seq![
        ActionModel::Spawn {
            venv_path: venv,
            session: (before.pool.next_session + 1) as u64,
            deferred,
        },
    ]);
    assert(actions[actions.len() - 2] == retire[retire.len() - 1]);
    assert forall|j: int| 0 <= j < pending.len() && leaves(#[trigger] pending[j]) implies actions.contains(
        ActionModel::ToClient(cancel_reply(pending[j].key@)),
    ) by {
        lemma_dropped_has(pending, leaves, pending.len() as int, j);
        let i = choose|i: int| 0 <= i < cancelled.len() && #[trigger] cancelled[i] == pending[j];
        assert(cancel_replies(cancelled)[i] == cancel_reply(pending[j].key@));
        assert(to_client(cancel_replies(cancelled))[i] == ActionModel::ToClient(
            cancel_reply(pending[j].key@),
        ));
        assert(actions[i] == ActionModel::ToClient(cancel_reply(pending[j].key@)));
    }
    assert forall|d: int|
        0 <= d < documents.len() && ((#[trigger] documents[d]).value.venv matches Some(v) && v@
            == gone.venv_path@) implies actions.contains(
        ActionModel::ToClient(clear_diagnostics_message(documents[d].key@)),
    ) by {
        lemma_uris_of_venv_has(documents, gone.venv_path@, documents.len() as int, d);
        let k = choose|k: int| 0 <= k < uris.len() && #[trigger] uris[k] == documents[d].key@;
        assert(clear_messages(uris)[k] == clear_diagnostics_message(documents[d].key@));
        assert(to_client(clear_messages(uris))[k] == ActionModel::ToClient(
            clear_diagnostics_message(documents[d].key@),
        ));
        assert(actions[cancelled.len() + k] == ActionModel::ToClient(
            clear_diagnostics_message(documents[d].key@),
        ));
    }
}

/// Nothing else is written when a server leaves the pool: every action
/// before the last is either the cancelled-response for a request that
/// waited for the server, or the notification that voids the diagnostics of
/// a document bound to the server's environment.
pub proof fn lemma_retire_writes_nothing_else(
    state: ProxyState,
    instance: BackendInstance,
    crashed: bool,
    k: int,
)
    requires
        0 <= k < retire_actions(state, instance, crashed).len() - 1,
    ensures
        ({
            let leaves = waits_for(instance.venv_path@, instance.session);
            let pending = state.pending_requests.entries@;
            let cancelled = dropped(pending, leaves, pending.len() as int);
            let documents = state.open_documents.entries@;
            ||| (k < cancelled.len() && leaves(cancelled[k]) && retire_actions(
                state,
                instance,
                crashed,
            )[k] == ActionModel::ToClient(cancel_reply(cancelled[k].key@)))
            ||| exists|d: int|
                0 <= d < documents.len() && (documents[d].value.venv matches Some(v) && v@
                    == instance.venv_path@) && retire_actions(state, instance, crashed)[k]
                    == ActionModel::ToClient(
                    clear_diagnostics_message(#[trigger] documents[d].key@),
                )
        }),
{
    let leaves = waits_for(instance.venv_path@, instance.session);
    let pending = state.pending_requests.entries@;
    let cancelled = dropped(pending, leaves, pending.len() as int);
    let documents = state.open_documents.entries@;
    let uris = uris_of_venv(documents, instance.venv_path@, documents.len() as int);
    let actions = retire_actions(state, instance, crashed);
    lemma_kept(pending, leaves, pending.len() as int);
    if k < cancelled.len() {
        assert(cancel_replies(cancelled)[k] == cancel_reply(cancelled[k].key@));
        assert(to_client(cancel_replies(cancelled))[k] == ActionModel::ToClient(
            cancel_reply(cancelled[k].key@),
        ));
        assert(actions[k] == ActionModel::ToClient(cancel_reply(cancelled[k].key@)));
    } else {
        let u = k - cancelled.len();
        lemma_uris_of_venv_only(documents, instance.venv_path@, documents.len() as int, u);
        let d = choose|d: int|
            0 <= d < documents.len() && #[trigger] documents[d].key@ == uris[u] && (
            documents[d].value.venv matches Some(v) && v@ == instance.venv_path@);
        assert(clear_messages(uris)[u] == clear_diagnostics_message(documents[d].key@));
        assert(to_client(clear_messages(uris))[u] == ActionModel::ToClient(
            clear_diagnostics_message(documents[d].key@),
        ));
        assert(actions[k] == ActionModel::ToClient(clear_diagnostics_message(documents[d].key@)));
    }
}

} // verus!
