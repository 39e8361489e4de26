//! What the proxy does with each kind of message from the client.

use crate::backend_pool::{queued_at, BackendInstance, WarmupState};
use crate::json::{lemma_member_models, member_models, Json, JsonMember, JsonModel};
use crate::message::{error_reply, IdModel, MessageModel, RpcId, RpcMessage, INTERNAL_ERROR};
use crate::proxy::diagnostics::{make_notification, message_models, notification};
use crate::proxy::document::{document_file, document_uri, opt_text};
use crate::proxy::pool_management::spawn_ordered;
use crate::proxy::{action_models, Action, ActionModel, LspProxy};
use crate::state::{PendingBackendRequest, PendingRequest, ProxyState};
use crate::table::Entry;
use crate::uri::uri_file_path;
use vstd::prelude::*;
use vstd::string::StringExecFns;

verus! {

/// Whether a request of method `method` needs the index that a server
/// builds while it warms up: such a request is held back until then.
pub open spec fn is_index_dependent(method: Seq<char>) -> bool {
    ||| method == "textDocument/definition"@
    ||| method == "textDocument/references"@
    ||| method == "textDocument/implementation"@
    ||| method == "textDocument/typeDefinition"@
}

/// Whether a request of method `method` makes the proxy start the server of
/// its document's environment where that server is not running.
pub open spec fn needs_backend(method: Seq<char>) -> bool {
    ||| method == "textDocument/hover"@
    ||| method == "textDocument/definition"@
    ||| method == "textDocument/references"@
    ||| method == "textDocument/documentSymbol"@
    ||| method == "textDocument/typeDefinition"@
    ||| method == "textDocument/implementation"@
}

/// Whether the two texts are the same.
pub fn text_is(a: &str, b: &str) -> (same: bool)
    ensures
        same == (a@ == b@),
{
    a.to_string() == b.to_string()
}

/// Whether `method` is held back while its server warms up.
pub fn index_dependent(method: &str) -> (yes: bool)
    ensures
        yes == is_index_dependent(method@),
{
    text_is(method, "textDocument/definition") || text_is(method, "textDocument/references")
        || text_is(method, "textDocument/implementation") || text_is(
        method,
        "textDocument/typeDefinition",
    )
}

/// Whether `method` makes the proxy start a missing server.
pub fn starts_backend(method: &str) -> (yes: bool)
    ensures
        yes == needs_backend(method@),
{
    text_is(method, "textDocument/hover") || text_is(method, "textDocument/definition")
        || text_is(method, "textDocument/references") || text_is(
        method,
        "textDocument/documentSymbol",
    ) || text_is(method, "textDocument/typeDefinition") || text_is(
        method,
        "textDocument/implementation",
    )
}

/// Whether a request is held back by a server in state `warmup`.
pub open spec fn is_queued(warmup: WarmupState, message: MessageModel) -> bool {
    warmup == WarmupState::Warming && match message.method {
        Some(method) => is_index_dependent(method),
        None => false,
    }
}

/// `after` is `before` used at time `now`, with `message` added to its
/// warmup queue where `queued` says so.
pub open spec fn instance_used(
    before: BackendInstance,
    after: BackendInstance,
    now: u64,
    message: MessageModel,
    queued: bool,
) -> bool {
    &&& after.venv_path == before.venv_path
    &&& after.session == before.session
    &&& after.next_id == before.next_id
    &&& after.warmup_state == before.warmup_state
    &&& after.warmup_deadline == before.warmup_deadline
    &&& after.last_used == now
    &&& message_models(after.warmup_queue@) == if queued {
        message_models(before.warmup_queue@).push(message)
    } else {
        message_models(before.warmup_queue@)
    }
}

/// `after` has request `message` on its books as handed to the server at
/// index `at` of the pool of `before`, at time `now`; `may_queue` says
/// whether the request may be held back while the server warms up.
pub open spec fn request_sent(
    before: ProxyState,
    after: ProxyState,
    at: int,
    message: MessageModel,
    now: u64,
    may_queue: bool,
) -> bool {
    let old_instance = before.pool.backends.entries@[at].value;
    let backends = after.pool.backends.entries@;
    &&& backends.len() == before.pool.backends.entries@.len()
    &&& forall|j: int|
        0 <= j < backends.len() && j != at ==> backends[j] == before.pool.backends.entries@[j]
    &&& backends[at].key == before.pool.backends.entries@[at].key
    &&& instance_used(
        old_instance,
        backends[at].value,
        now,
        message,
        may_queue && is_queued(old_instance.warmup_state, message),
    )
    &&& after.pool.max_backends == before.pool.max_backends
    &&& after.pool.backend_ttl == before.pool.backend_ttl
    &&& after.pool.next_session == before.pool.next_session
    &&& match message.id {
        Some(id) => {
            &&& match after.pending_requests.value_of(id) {
                Some(p) => p.backend_session == old_instance.session && p.venv_path@
                    == old_instance.venv_path@,
                None => false,
            }
            &&& forall|other: IdModel|
                other != id ==> after.pending_requests.value_of(other)
                    == before.pending_requests.value_of(other)
        },
        None => after.pending_requests == before.pending_requests,
    }
    &&& after.pending_backend_requests == before.pending_backend_requests
    &&& after.open_documents == before.open_documents
    &&& after.client_initialize == before.client_initialize
    &&& after.git_toplevel == before.git_toplevel
    &&& after.next_proxy_request_id == before.next_proxy_request_id
}

/// What handing request `message` to the server of `venv` at time `now`
/// does: the server counts as used, the request is on the books, and it is
/// written to the server unless it is held back in the warmup queue. A
/// request is held back only where `may_queue` allows it: a request that was
/// routed by its document may wait for the index, a request that goes to the
/// only server for want of a document is written at once. Where the
/// environment has no server, nothing changes and the client gets an
/// internal error.
pub open spec fn request_forwarded(
    before: ProxyState,
    after: ProxyState,
    actions: Seq<ActionModel>,
    venv: Seq<char>,
    message: MessageModel,
    now: u64,
    may_queue: bool,
) -> bool {
    match before.pool.backends.find(venv) {
        Some(at) => {
            let instance = before.pool.backends.entries@[at].value;
            &&& request_sent(before, after, at, message, now, may_queue)
            &&& actions == if may_queue && is_queued(instance.warmup_state, message) {
                Seq::<ActionModel>::empty()
            } else {
                seq![
                    ActionModel::ToBackend {
                        venv_path: venv,
                        session: instance.session,
                        message,
                    },
                ]
            }
        },
        None => after == before && actions == seq![
            ActionModel::ToClient(
                error_reply(message.id, INTERNAL_ERROR, "lsp-proxy: backend not available"@),
            ),
        ],
    }
}

impl LspProxy {
    /// Hands request `msg` to the server of `venv_path`: the server counts as
    /// used at `now`, the request is put on the books as pending, and it is
    /// written to the server, or, where `may_queue` allows it, the server is
    /// still warming up and the request needs its index, put in the warmup
    /// queue. Where the environment has no server, the client gets an
    /// internal error.
    pub fn forward_request(
        &mut self,
        venv_path: &String,
        msg: RpcMessage,
        now: u64,
        may_queue: bool,
    ) -> (actions: Vec<Action>)
        requires
            old(self).wf(),
        ensures
            final(self).wf(),
            final(self).backend_ttl == old(self).backend_ttl,
            final(self).warmup_timeout == old(self).warmup_timeout,
            request_forwarded(
                old(self).state,
                final(self).state,
                action_models(actions@),
                venv_path@,
                msg@,
                now,
                may_queue,
            ),
    {
        let mut actions: Vec<Action> = Vec::new();
        let ghost before = self.state;
        proof {
            crate::table::lemma_find_from(self.state.pool.backends.keys(), venv_path@, 0);
        }
        let queue: bool = may_queue && match &msg.method {
            Some(method) => index_dependent(method.as_str()),
            None => false,
        };
        let ghost keys = self.state.pool.backends.keys();
        let target: Option<(u64, bool)> = match self.state.pool.get_mut(venv_path) {
            Some(instance) => {
                instance.last_used = now;
                let queued: bool = queue && instance.is_warming();
                if queued {
                    let ghost held = instance.warmup_queue@;
                    let copy: RpcMessage = msg.clone();
                    instance.warmup_queue.push(copy);
                    proof {
                        assert(message_models(instance.warmup_queue@) =~= message_models(
                            held,
                        ).push(msg@));
                    }
                }
                Some((instance.session, queued))
            },
            None => None,
        };
        let (session, queued): (u64, bool) = match target {
            Some(found) => found,
            None => {
                let reply: RpcMessage = RpcMessage::error_response(
                    &msg,
                    "lsp-proxy: backend not available",
                );
                actions.push(Action::ToClient(reply));
                assert(action_models(actions@) =~= seq![ActionModel::ToClient(reply@)]);
                return actions;
            },
        };
        proof {
            assert(self.state.pool.backends.keys() =~= keys);
        }
        match &msg.id {
            Some(id) => {
                let _ = self.state.pending_requests.insert(
                    id.clone(),
                    PendingRequest { backend_session: session, venv_path: venv_path.clone() },
                );
            },
            None => {},
        }
        if !queued {
            let send: Action = Action::ToBackend {
                venv_path: venv_path.clone(),
                session,
                message: msg,
            };
            actions.push(send);
            assert(action_models(actions@) =~= seq![send@]);
        } else {
            assert(action_models(actions@) =~= Seq::<ActionModel>::empty());
        }
        actions
    }
}

/// `message` written to every server in `backends`, in pool order.
pub open spec fn broadcast_actions(
    backends: Seq<Entry<String, BackendInstance>>,
    message: MessageModel,
) -> Seq<ActionModel> {
    Seq::new(
        backends.len(),
        |i: int|
            ActionModel::ToBackend {
                venv_path: backends[i].key@,
                session: backends[i].value.session,
                message,
            },
    )
}

/// The shutdown of every server in `backends`, in pool order.
pub open spec fn shutdown_actions(backends: Seq<Entry<String, BackendInstance>>) -> Seq<
    ActionModel,
> {
    Seq::new(
        backends.len(),
        |i: int|
            ActionModel::Shutdown {
                venv_path: backends[i].value.venv_path@,
                session: backends[i].value.session,
                next_id: backends[i].value.next_id,
            },
    )
}

/// The response to request `id` that carries `result`.
pub open spec fn result_reply(id: Option<IdModel>, result: JsonModel) -> MessageModel {
    MessageModel {
        jsonrpc: "2.0"@,
        id,
        method: None,
        params: None,
        result: Some(result),
        error: None,
    }
}

/// The `initialized` notification, as the proxy sends it.
pub open spec fn initialized_message() -> MessageModel {
    notification("initialized"@, JsonModel::Object(Seq::empty()))
}

/// The capabilities of a proxy without a server: none.
pub open spec fn minimal_capabilities() -> JsonModel {
    JsonModel::Object(seq![("capabilities"@, JsonModel::Object(Seq::empty()))])
}

/// The id that a cancel notification names: an integer, or else a string.
pub open spec fn cancel_id(message: MessageModel) -> Option<IdModel> {
    match message.params {
        Some(params) => match params.member("id"@) {
            Some(id) => match id.as_i64() {
                Some(n) => Some(IdModel::Number(n)),
                None => match id.as_str() {
                    Some(s) => Some(IdModel::String(s)),
                    None => None,
                },
            },
            None => None,
        },
        None => None,
    }
}

/// The queued request that a cancel notification cancels, as the index of
/// its server in the pool and its own index in the server's warmup queue:
/// the request must be pending for a server that is still in the session in
/// which the request was handed to it, and must wait in that server's queue.
pub open spec fn cancel_target(state: ProxyState, message: MessageModel) -> Option<(int, int)> {
    match cancel_id(message) {
        Some(id) => match state.pending_requests.value_of(id) {
            Some(pending) => match state.pool.backends.find(pending.venv_path@) {
                Some(at) => {
                    let instance = state.pool.backends.entries@[at].value;
                    if instance.session == pending.backend_session {
                        match queued_at(instance.warmup_queue@, id, 0) {
                            Some(q) => Some((at, q)),
                            None => None,
                        }
                    } else {
                        None
                    }
                },
                None => None,
            },
            None => None,
        },
        None => None,
    }
}

/// The response to request `id` that carries `result`.
pub fn make_result(id: Option<RpcId>, result: Json) -> (message: RpcMessage)
    ensures
        message@ == result_reply(
            match id {
                Some(i) => Some(i@),
                None => None,
            },
            result@,
        ),
{
    RpcMessage {
        jsonrpc: "2.0".to_string(),
        id,
        method: None,
        params: None,
        result: Some(result),
        error: None,
    }
}

/// A copy of an optional id.
pub fn copy_id(id: &Option<RpcId>) -> (copy: Option<RpcId>)
    ensures
        match (id, copy) {
            (Some(a), Some(b)) => a@ == b@,
            (None, None) => true,
            _ => false,
        },
{
    match id {
        Some(i) => Some(i.clone()),
        None => None,
    }
}

/// The id that a cancel notification names.
pub fn extract_cancel_id(msg: &RpcMessage) -> (id: Option<RpcId>)
    ensures
        match id {
            Some(i) => cancel_id(msg@) == Some(i@),
            None => cancel_id(msg@) is None,
        },
{
    let params: &Json = match &msg.params {
        Some(params) => params,
        None => {
            return None;
        },
    };
    let id: &Json = match params.get("id") {
        Some(id) => id,
        None => {
            return None;
        },
    };
    match id.as_i64() {
        Some(n) => Some(RpcId::Number(n)),
        None => match id.as_str() {
            Some(s) => Some(RpcId::String(s.to_string())),
            None => None,
        },
    }
}

/// What the client's `shutdown` request `message` does: every server is shut
/// down and leaves the pool, and the request is answered with null.
pub open spec fn all_shut_down(
    before: ProxyState,
    after: ProxyState,
    actions: Seq<ActionModel>,
    message: MessageModel,
) -> bool {
    &&& after.pool.backends.entries@.len() == 0
    &&& actions == shutdown_actions(before.pool.backends.entries@) + seq![
        ActionModel::ToClient(result_reply(message.id, JsonModel::Null)),
    ]
    &&& after.pool.max_backends == before.pool.max_backends
    &&& after.pool.backend_ttl == before.pool.backend_ttl
    &&& after.pool.next_session == before.pool.next_session
    &&& after.open_documents == before.open_documents
    &&& after.pending_requests == before.pending_requests
    &&& after.pending_backend_requests == before.pending_backend_requests
    &&& after.client_initialize == before.client_initialize
    &&& after.git_toplevel == before.git_toplevel
    &&& after.next_proxy_request_id == before.next_proxy_request_id
}

impl LspProxy {
    /// Passes a notification on to every server.
    pub fn dispatch_client_notification(&self, msg: &RpcMessage) -> (actions: Vec<Action>)
        ensures
            action_models(actions@) == broadcast_actions(self.state.pool.backends.entries@, msg@),
    {
        let mut actions: Vec<Action> = Vec::new();
        let mut i: usize = 0;
        while i < self.state.pool.backends.entries.len()
            invariant
                0 <= i <= self.state.pool.backends.entries@.len(),
                actions@.len() == i,
                forall|j: int|
                    0 <= j < i ==> (#[trigger] actions@[j])@ == broadcast_actions(
                        self.state.pool.backends.entries@,
                        msg@,
                    )[j],
            decreases self.state.pool.backends.entries@.len() - i,
        {
            let entry = &self.state.pool.backends.entries[i];
            actions.push(
                Action::ToBackend {
                    venv_path: entry.key.clone(),
                    session: entry.value.session,
                    message: msg.clone(),
                },
            );
            i = i + 1;
        }
        assert(action_models(actions@) =~= broadcast_actions(
            self.state.pool.backends.entries@,
            msg@,
        ));
        actions
    }

    /// The `initialized` notification, as the proxy sends it to a server.
    pub fn initialized_notification() -> (message: RpcMessage)
        ensures
            message@ == initialized_message(),
    {
        let none: Vec<JsonMember> = Vec::new();
        proof {
            lemma_member_models(none@);
            assert(member_models(none@) =~= Seq::<(Seq<char>, JsonModel)>::empty());
        }
        make_notification("initialized", Json::object(none))
    }

    /// Tells every server that the client is initialized.
    pub fn dispatch_initialized(&self) -> (actions: Vec<Action>)
        ensures
            action_models(actions@) == broadcast_actions(
                self.state.pool.backends.entries@,
                initialized_message(),
            ),
    {
        let message: RpcMessage = LspProxy::initialized_notification();
        self.dispatch_client_notification(&message)
    }

    /// Keeps the client's `initialize` request for the handshakes with the
    /// servers.
    pub fn dispatch_initialize(&mut self, msg: &RpcMessage)
        requires
            old(self).wf(),
        ensures
            final(self).wf(),
            match final(self).state.client_initialize {
                Some(kept) => kept@ == msg@,
                None => false,
            },
            final(self).state.pool == old(self).state.pool,
            final(self).state.open_documents == old(self).state.open_documents,
            final(self).state.pending_requests == old(self).state.pending_requests,
            final(self).state.pending_backend_requests == old(self).state.pending_backend_requests,
            final(self).state.git_toplevel == old(self).state.git_toplevel,
            final(self).state.next_proxy_request_id == old(self).state.next_proxy_request_id,
            final(self).backend_ttl == old(self).backend_ttl,
            final(self).warmup_timeout == old(self).warmup_timeout,
    {
        self.state.client_initialize = Some(msg.clone());
    }

    /// The answer to `initialize` of a proxy that has no server to ask: no
    /// capabilities.
    pub fn minimal_initialize_response(msg: &RpcMessage) -> (reply: RpcMessage)
        ensures
            reply@ == result_reply(msg@.id, minimal_capabilities()),
    {
        let none: Vec<JsonMember> = Vec::new();
        proof {
            lemma_member_models(none@);
            assert(member_models(none@) =~= Seq::<(Seq<char>, JsonModel)>::empty());
        }
        let mut members: Vec<JsonMember> = Vec::new();
        members.push(JsonMember::new("capabilities", Json::object(none)));
        proof {
            lemma_member_models(members@);
            assert(member_models(members@) =~= seq![
                ("capabilities"@, JsonModel::Object(Seq::empty())),
            ]);
        }
        make_result(copy_id(&msg.id), Json::object(members))
    }

    /// Shuts every server down and answers the client's `shutdown` request
    /// with null. The pool is empty afterwards.
    pub fn dispatch_shutdown(&mut self, msg: &RpcMessage) -> (actions: Vec<Action>)
        requires
            old(self).wf(),
        ensures
            final(self).wf(),
            final(self).backend_ttl == old(self).backend_ttl,
            final(self).warmup_timeout == old(self).warmup_timeout,
            all_shut_down(old(self).state, final(self).state, action_models(actions@), msg@),
    {
        let mut actions: Vec<Action> = Vec::new();
        let ghost all = self.state.pool.backends.entries@;
        while self.state.pool.backends.entries.len() > 0
            invariant
                self.state.pool.wf(),
                all == old(self).state.pool.backends.entries@,
                actions@.len() + self.state.pool.backends.entries@.len() == all.len(),
                self.state.pool.backends.entries@ == all.skip(actions@.len() as int),
                forall|j: int|
                    0 <= j < actions@.len() ==> (#[trigger] actions@[j])@ == shutdown_actions(
                        all,
                    )[j],
                self.state.pool.max_backends == old(self).state.pool.max_backends,
                self.state.pool.backend_ttl == old(self).state.pool.backend_ttl,
                self.state.pool.next_session == old(self).state.pool.next_session,
                self.state.open_documents == old(self).state.open_documents,
                self.state.pending_requests == old(self).state.pending_requests,
                self.state.pending_backend_requests == old(self).state.pending_backend_requests,
                self.state.client_initialize == old(self).state.client_initialize,
                self.state.git_toplevel == old(self).state.git_toplevel,
                self.state.next_proxy_request_id == old(self).state.next_proxy_request_id,
                self.backend_ttl == old(self).backend_ttl,
                self.warmup_timeout == old(self).warmup_timeout,
            decreases self.state.pool.backends.entries@.len(),
        {
            let ghost before = self.state.pool.backends.entries@;
            let entry = self.state.pool.backends.remove_at(0);
            proof {
                assert(self.state.pool.backends.entries@ =~= all.skip(actions@.len() as int + 1));
                assert(entry == all[actions@.len() as int]);
                assert forall|i: int| 0 <= i < self.state.pool.backends.entries@.len() implies {
                    &&& (#[trigger] self.state.pool.backends.entries@[i]).key@
                        == self.state.pool.backends.entries@[i].value.venv_path@
                    &&& self.state.pool.backends.entries@[i].value.session
                        <= self.state.pool.next_session
                } by {
                    assert(self.state.pool.backends.entries@[i] == before[i + 1]);
                }
            }
            actions.push(
                Action::Shutdown {
                    venv_path: entry.value.venv_path,
                    session: entry.value.session,
                    next_id: entry.value.next_id,
                },
            );
        }
        let ghost stops = actions@;
        let reply: RpcMessage = make_result(copy_id(&msg.id), Json::Null);
        actions.push(Action::ToClient(reply));
        proof {
            assert(action_models(stops) =~= shutdown_actions(all));
            assert(action_models(actions@) =~= action_models(stops) + seq![
                ActionModel::ToClient(reply@),
            ]);
        }
        actions
    }
}

/// `message` under the id `id`.
pub open spec fn with_id(message: MessageModel, id: IdModel) -> MessageModel {
    MessageModel { id: Some(id), ..message }
}

/// `after` is `before` with the server at index `at` of the pool used at
/// `now`.
pub open spec fn touched(before: ProxyState, after: ProxyState, at: int, now: u64) -> bool {
    let backends = after.pool.backends.entries@;
    let was = before.pool.backends.entries@;
    &&& backends.len() == was.len()
    &&& forall|j: int| 0 <= j < backends.len() && j != at ==> backends[j] == was[j]
    &&& backends[at].key == was[at].key
    &&& backends[at].value == (BackendInstance { last_used: now, ..was[at].value })
    &&& after.pool.max_backends == before.pool.max_backends
    &&& after.pool.backend_ttl == before.pool.backend_ttl
    &&& after.pool.next_session == before.pool.next_session
    &&& after.pending_requests == before.pending_requests
    &&& after.pending_backend_requests == before.pending_backend_requests
    &&& after.open_documents == before.open_documents
    &&& after.client_initialize == before.client_initialize
    &&& after.git_toplevel == before.git_toplevel
    &&& after.next_proxy_request_id == before.next_proxy_request_id
}

/// What a response `message` from the client does: where it answers a
/// backend's request, that request is settled and the answer goes to the
/// backend under the backend's own id, unless the backend is gone or was
/// restarted; `handled` is `None` where it answers no such request.
pub open spec fn response_returned(
    before: ProxyState,
    after: ProxyState,
    handled: Option<Seq<ActionModel>>,
    message: MessageModel,
) -> bool {
    &&& after.pool == before.pool
    &&& after.open_documents == before.open_documents
    &&& after.pending_requests == before.pending_requests
    &&& after.client_initialize == before.client_initialize
    &&& after.git_toplevel == before.git_toplevel
    &&& after.next_proxy_request_id == before.next_proxy_request_id
    &&& match message.id {
        Some(id) => match before.pending_backend_requests.find(id) {
            Some(at) => {
                let asked = before.pending_backend_requests.entries@[at].value;
                &&& after.pending_backend_requests.entries@
                == before.pending_backend_requests.entries@.remove(at)
                &&& handled is Some
                &&& handled->0 == if before.pool.is_current(
                    asked.venv_path@,
                    asked.session,
                ) {
                    seq![
                        ActionModel::ToBackend {
                            venv_path: asked.venv_path@,
                            session: asked.session,
                            message: with_id(message, asked.original_id@),
                        },
                    ]
                } else {
                    Seq::<ActionModel>::empty()
                }
            },
            None => handled is None && after == before,
        },
        None => handled is None && after == before,
    }
}

/// What a cancel notification `message` does: a request that still waits in a
/// warmup queue leaves the queue and the books; any other cancellation goes
/// to every server.
pub open spec fn cancel_handled(
    before: ProxyState,
    after: ProxyState,
    actions: Seq<ActionModel>,
    message: MessageModel,
) -> bool {
    &&& match cancel_target(before, message) {
        Some((at, q)) => {
            let id = cancel_id(message)->0;
            let was = before.pool.backends.entries@;
            let backends = after.pool.backends.entries@;
            &&& actions.len() == 0
            &&& backends.len() == was.len()
            &&& forall|j: int| 0 <= j < was.len() && j != at ==> backends[j] == was[j]
            &&& backends[at].key == was[at].key
            &&& backends[at].value.warmup_queue@ == was[at].value.warmup_queue@.remove(
                q,
            )
            &&& backends[at].value.venv_path == was[at].value.venv_path
            &&& backends[at].value.session == was[at].value.session
            &&& backends[at].value.last_used == was[at].value.last_used
            &&& backends[at].value.next_id == was[at].value.next_id
            &&& backends[at].value.warmup_state == was[at].value.warmup_state
            &&& backends[at].value.warmup_deadline == was[at].value.warmup_deadline
            &&& after.pending_requests.entries@ == before.pending_requests.entries@.remove(
                before.pending_requests.find(id)->0,
            )
            &&& after.pool.max_backends == before.pool.max_backends
            &&& after.pool.backend_ttl == before.pool.backend_ttl
            &&& after.pool.next_session == before.pool.next_session
            &&& after.open_documents == before.open_documents
            &&& after.pending_backend_requests == before.pending_backend_requests
            &&& after.client_initialize == before.client_initialize
            &&& after.git_toplevel == before.git_toplevel
            &&& after.next_proxy_request_id == before.next_proxy_request_id
        },
        None => after == before && actions == broadcast_actions(
            before.pool.backends.entries@,
            message,
        ),
    }
}

impl LspProxy {
    /// Passes a notification about a document on to the server of
    /// `venv_path`, which thereby counts as used at `now`. Where the
    /// environment has no server, nothing happens.
    pub fn touch_and_send(
        &mut self,
        venv_path: &String,
        msg: RpcMessage,
        now: u64,
    ) -> (actions: Vec<Action>)
        requires
            old(self).wf(),
        ensures
            final(self).wf(),
            final(self).backend_ttl == old(self).backend_ttl,
            final(self).warmup_timeout == old(self).warmup_timeout,
            match old(self).state.pool.backends.find(venv_path@) {
                Some(at) => touched(old(self).state, final(self).state, at, now)
                    && action_models(actions@) == seq![
                    ActionModel::ToBackend {
                        venv_path: venv_path@,
                        session: old(self).state.pool.backends.entries@[at].value.session,
                        message: msg@,
                    },
                ],
                None => *final(self) == *old(self) && actions@.len() == 0,
            },
    {
        let mut actions: Vec<Action> = Vec::new();
        proof {
            crate::table::lemma_find_from(self.state.pool.backends.keys(), venv_path@, 0);
        }
        let ghost keys = self.state.pool.backends.keys();
        let session: u64 = match self.state.pool.get_mut(venv_path) {
            Some(instance) => {
                instance.last_used = now;
                instance.session
            },
            None => {
                return actions;
            },
        };
        proof {
            assert(self.state.pool.backends.keys() =~= keys);
        }
        let send: Action = Action::ToBackend {
            venv_path: venv_path.clone(),
            session,
            message: msg,
        };
        actions.push(send);
        assert(action_models(actions@) =~= seq![send@]);
        actions
    }

    /// Passes the client's answer to a backend's request back to that
    /// backend, under the id the backend had given the request. Returns
    /// `None`, and changes nothing, where the answer matches no such request.
    /// An answer for a server that is gone or was restarted is dropped.
    pub fn dispatch_client_response(&mut self, msg: &RpcMessage) -> (handled: Option<Vec<Action>>)
        requires
            old(self).wf(),
        ensures
            final(self).wf(),
            final(self).backend_ttl == old(self).backend_ttl,
            final(self).warmup_timeout == old(self).warmup_timeout,
            response_returned(
                old(self).state,
                final(self).state,
                match handled {
                    Some(actions) => Some(action_models(actions@)),
                    None => None,
                },
                msg@,
            ),
    {
        let id: &RpcId = match &msg.id {
            Some(id) => id,
            None => {
                return None;
            },
        };
        proof {
            crate::table::lemma_find_from(self.state.pending_backend_requests.keys(), id@, 0);
        }
        let ghost before = self.state.pending_backend_requests.entries@;
        let asked: PendingBackendRequest = match self.state.pending_backend_requests.remove(id) {
            Some(asked) => asked,
            None => {
                return None;
            },
        };
        proof {
            let at = old(self).state.pending_backend_requests.find(id@)->0;
            assert forall|i: int|
                0 <= i < self.state.pending_backend_requests.entries@.len() implies match (
                #[trigger] self.state.pending_backend_requests.entries@[i]).key {
                    RpcId::Number(n) => self.state.next_proxy_request_id < n < 0,
                    RpcId::String(_) => false,
                } by {
                if i < at {
                    assert(self.state.pending_backend_requests.entries@[i] == before[i]);
                } else {
                    assert(self.state.pending_backend_requests.entries@[i] == before[i + 1]);
                }
            }
        }
        let mut actions: Vec<Action> = Vec::new();
        let current: bool = match self.state.pool.get(&asked.venv_path) {
            Some(instance) => instance.session == asked.session,
            None => false,
        };
        if current {
            let mut answer: RpcMessage = msg.clone();
            answer.id = Some(asked.original_id);
            let send: Action = Action::ToBackend {
                venv_path: asked.venv_path,
                session: asked.session,
                message: answer,
            };
            actions.push(send);
            assert(action_models(actions@) =~= seq![send@]);
        } else {
            assert(action_models(actions@) =~= Seq::<ActionModel>::empty());
        }
        Some(actions)
    }

    /// Handles the client's wish to cancel a request. A request that still
    /// waits in a warmup queue is taken out of the queue and off the books,
    /// and no server hears of it; any other cancellation is passed on to
    /// every server.
    pub fn dispatch_cancel_request(&mut self, msg: &RpcMessage) -> (actions: Vec<Action>)
        requires
            old(self).wf(),
        ensures
            final(self).wf(),
            final(self).backend_ttl == old(self).backend_ttl,
            final(self).warmup_timeout == old(self).warmup_timeout,
            cancel_handled(old(self).state, final(self).state, action_models(actions@), msg@),
    {
        let id: RpcId = match extract_cancel_id(msg) {
            Some(id) => id,
            None => {
                return self.dispatch_client_notification(msg);
            },
        };
        proof {
            crate::table::lemma_find_from(self.state.pending_requests.keys(), id@, 0);
        }
        let (venv_path, session): (String, u64) = match self.state.pending_requests.get(&id) {
            Some(pending) => (pending.venv_path.clone(), pending.backend_session),
            None => {
                return self.dispatch_client_notification(msg);
            },
        };
        proof {
            crate::table::lemma_find_from(self.state.pool.backends.keys(), venv_path@, 0);
        }
        let waits: bool = match self.state.pool.get(&venv_path) {
            Some(instance) => instance.session == session && instance.queued_position(
                &id,
            ).is_some(),
            None => false,
        };
        if !waits {
            return self.dispatch_client_notification(msg);
        }
        let ghost keys = self.state.pool.backends.keys();
        match self.state.pool.get_mut(&venv_path) {
            Some(instance) => {
                let _ = instance.cancel_warmup_request(&id);
            },
            None => {},
        }
        proof {
            assert(self.state.pool.backends.keys() =~= keys);
        }
        let _ = self.state.pending_requests.remove(&id);
        Vec::new()
    }
}

/// What the search for a document's environment came to.
#[derive(Debug)]
pub enum Lookup {
    /// No search was made.
    NotNeeded,
    /// The search ended: with the environment, or without one.
    Found(Option<String>),
    /// The search failed; why.
    Failed(String),
}

/// What a lookup is.
pub ghost enum LookupModel {
    NotNeeded,
    Found(Option<Seq<char>>),
    Failed(Seq<char>),
}

impl View for Lookup {
    type V = LookupModel;

    open spec fn view(&self) -> LookupModel {
        match self {
            Lookup::NotNeeded => LookupModel::NotNeeded,
            Lookup::Found(venv) => LookupModel::Found(opt_text(*venv)),
            Lookup::Failed(why) => LookupModel::Failed(why@),
        }
    }
}

/// Where a request goes.
pub ghost enum Route {
    /// Back to the client, as an internal error with this text.
    Reject(Seq<char>),
    /// To the server of this environment; held back while the server warms
    /// up, where the request needs the index.
    Send(Seq<char>),
    /// To the only server, at once.
    Only(Seq<char>),
    /// To the server of this environment, which has to be started first.
    Start(Seq<char>),
}

/// The refusal to serve a document without an environment.
pub open spec fn strict_mode_text() -> Seq<char> {
    "lsp-proxy: .venv not found (strict mode). Create .venv or run hooks."@
}

/// The refusal to look for the environment of a URI that names no file.
pub open spec fn non_file_text(uri: Seq<char>) -> Seq<char> {
    "lsp-proxy: cannot resolve venv for non-file URI: "@ + uri
}

/// The report that the search for an environment failed.
pub open spec fn lookup_failed_text(why: Seq<char>) -> Seq<char> {
    "lsp-proxy: backend error: "@ + why
}

/// The refusal to guess the server for a request that names no document.
pub open spec fn unroutable_text(method: Seq<char>) -> Seq<char> {
    "lsp-proxy: cannot route '"@ + method + "' without a document URI (multiple backends active)"@
}

/// Where the request `message` goes, given the URI of its document, whether
/// the URI names a file, and what the search for the environment came to.
///
/// A request about a cached document goes to the environment found when the
/// document was opened; the server is started for it only for the methods
/// that need one. A request about a document that is not cached goes where
/// the search says. A request that names no document goes to the only
/// server, and nowhere if there are several.
pub open spec fn request_route(
    state: ProxyState,
    message: MessageModel,
    uri: Option<Seq<char>>,
    is_file: bool,
    lookup: LookupModel,
) -> Route {
    let starts = is_file && match message.method {
        Some(method) => needs_backend(method),
        None => false,
    };
    match uri {
        Some(u) => match state.open_documents.value_of(u) {
            Some(document) => match document.venv {
                Some(venv) => if !state.pool.backends.has(venv@) && starts {
                    Route::Start(venv@)
                } else {
                    Route::Send(venv@)
                },
                None => if is_file {
                    Route::Reject(strict_mode_text())
                } else {
                    Route::Reject(non_file_text(u))
                },
            },
            None => if !is_file {
                Route::Reject(non_file_text(u))
            } else {
                match lookup {
                    LookupModel::Found(Some(venv)) => if state.pool.backends.has(venv) {
                        Route::Send(venv)
                    } else {
                        Route::Start(venv)
                    },
                    LookupModel::Found(None) => Route::Reject(strict_mode_text()),
                    LookupModel::NotNeeded => Route::Reject(strict_mode_text()),
                    LookupModel::Failed(why) => Route::Reject(lookup_failed_text(why)),
                }
            },
        },
        None => if state.pool.backends.entries@.len() == 0 {
            Route::Reject(strict_mode_text())
        } else if state.pool.backends.entries@.len() == 1 {
            Route::Only(state.pool.backends.entries@[0].key@)
        } else {
            Route::Reject(
                unroutable_text(
                    match message.method {
                        Some(method) => method,
                        None => Seq::empty(),
                    },
                ),
            )
        },
    }
}

/// What routing the request `message` does to the state, and which actions
/// follow.
pub open spec fn routed(
    before: ProxyState,
    after: ProxyState,
    actions: Seq<ActionModel>,
    message: MessageModel,
    uri: Option<Seq<char>>,
    is_file: bool,
    lookup: LookupModel,
    now: u64,
) -> bool {
    match request_route(before, message, uri, is_file, lookup) {
        Route::Reject(text) => after == before && actions == seq![
            ActionModel::ToClient(error_reply(message.id, INTERNAL_ERROR, text)),
        ],
        Route::Send(venv) => request_forwarded(before, after, actions, venv, message, now, true),
        Route::Only(venv) => request_forwarded(before, after, actions, venv, message, now, false),
        Route::Start(venv) => spawn_ordered(before, after, actions, venv, Some(message)),
    }
}

/// What routing the request `message` does: what `routed` says for the URI
/// of the message's document and for whether that URI names a file.
pub open spec fn request_dispatched(
    before: ProxyState,
    after: ProxyState,
    actions: Seq<ActionModel>,
    message: MessageModel,
    lookup: LookupModel,
    now: u64,
) -> bool {
    routed(
        before,
        after,
        actions,
        message,
        document_uri(message),
        document_file(message) is Some,
        lookup,
        now,
    )
}

/// The internal error `text` as the answer to `msg`.
pub fn reject(msg: &RpcMessage, text: &str) -> (actions: Vec<Action>)
    ensures
        action_models(actions@) == seq![
            ActionModel::ToClient(error_reply(msg@.id, INTERNAL_ERROR, text@)),
        ],
{
    let mut actions: Vec<Action> = Vec::new();
    let reply: RpcMessage = RpcMessage::error_response(msg, text);
    actions.push(Action::ToClient(reply));
    assert(action_models(actions@) =~= seq![ActionModel::ToClient(reply@)]);
    actions
}

impl LspProxy {
    /// Routes the request `msg`; see `request_route`. `uri` is the URI of
    /// the request's document, `is_file` whether it names a file, and
    /// `lookup` what the search for the document's environment came to.
    pub fn route_request(
        &mut self,
        msg: RpcMessage,
        uri: Option<String>,
        is_file: bool,
        lookup: Lookup,
        now: u64,
    ) -> (actions: Vec<Action>)
        requires
            old(self).wf(),
            old(self).state.pool.next_session < u64::MAX,
        ensures
            final(self).wf(),
            final(self).backend_ttl == old(self).backend_ttl,
            final(self).warmup_timeout == old(self).warmup_timeout,
            routed(
                old(self).state,
                final(self).state,
                action_models(actions@),
                msg@,
                opt_text(uri),
                is_file,
                lookup@,
                now,
            ),
    {
        let starts: bool = is_file && match &msg.method {
            Some(method) => starts_backend(method.as_str()),
            None => false,
        };
        match uri {
            Some(u) => {
                proof {
                    crate::table::lemma_find_from(self.state.open_documents.keys(), u@, 0);
                }
                let cached: Option<Option<String>> = match self.state.open_documents.get(&u) {
                    Some(document) => Some(
                        match &document.venv {
                            Some(venv) => Some(venv.clone()),
                            None => None,
                        },
                    ),
                    None => None,
                };
                match cached {
                    Some(Some(venv)) => {
                        if !self.state.pool.contains(&venv) && starts {
                            self.create_backend_instance(venv, Some(msg))
                        } else {
                            self.forward_request(&venv, msg, now, true)
                        }
                    },
                    Some(None) => {
                        if is_file {
                            reject(
                                &msg,
                                "lsp-proxy: .venv not found (strict mode). Create .venv or run hooks.",
                            )
                        } else {
                            let mut text: String =
                                "lsp-proxy: cannot resolve venv for non-file URI: ".to_string();
                            text.append(u.as_str());
                            reject(&msg, text.as_str())
                        }
                    },
                    None => {
                        if !is_file {
                            let mut text: String =
                                "lsp-proxy: cannot resolve venv for non-file URI: ".to_string();
                            text.append(u.as_str());
                            reject(&msg, text.as_str())
                        } else {
                            match lookup {
                                Lookup::Found(Some(venv)) => {
                                    if self.state.pool.contains(&venv) {
                                        self.forward_request(&venv, msg, now, true)
                                    } else {
                                        self.create_backend_instance(venv, Some(msg))
                                    }
                                },
                                Lookup::Found(None) => reject(
                                    &msg,
                                    "lsp-proxy: .venv not found (strict mode). Create .venv or run hooks.",
                                ),
                                Lookup::NotNeeded => reject(
                                    &msg,
                                    "lsp-proxy: .venv not found (strict mode). Create .venv or run hooks.",
                                ),
                                Lookup::Failed(why) => {
                                    let mut text: String = "lsp-proxy: backend error: ".to_string();
                                    text.append(why.as_str());
                                    reject(&msg, text.as_str())
                                },
                            }
                        }
                    },
                }
            },
            None => {
                if self.state.pool.is_empty() {
                    reject(
                        &msg,
                        "lsp-proxy: .venv not found (strict mode). Create .venv or run hooks.",
                    )
                } else if self.state.pool.len() == 1 {
                    self.forward_to_first_backend(msg, now)
                } else {
                    let mut text: String = "lsp-proxy: cannot route '".to_string();
                    match &msg.method {
                        Some(method) => {
                            text.append(method.as_str());
                        },
                        None => {
                            assert(text@ + Seq::<char>::empty() =~= text@);
                        },
                    }
                    text.append("' without a document URI (multiple backends active)");
                    reject(&msg, text.as_str())
                }
            },
        }
    }

    /// Hands the request `msg` to the server that was started first among
    /// those in the pool: the server counts as used at `now`, the request is
    /// put on the books as pending, and it is written to the server at once,
    /// whether or not the server is still warming up.
    pub fn forward_to_first_backend(&mut self, msg: RpcMessage, now: u64) -> (actions: Vec<Action>)
        requires
            old(self).wf(),
            old(self).state.pool.backends.entries@.len() > 0,
        ensures
            final(self).wf(),
            final(self).backend_ttl == old(self).backend_ttl,
            final(self).warmup_timeout == old(self).warmup_timeout,
            request_sent(old(self).state, final(self).state, 0, msg@, now, false),
            action_models(actions@) == seq![
                ActionModel::ToBackend {
                    venv_path: old(self).state.pool.backends.entries@[0].key@,
                    session: old(self).state.pool.backends.entries@[0].value.session,
                    message: msg@,
                },
            ],
            request_forwarded(
                old(self).state,
                final(self).state,
                action_models(actions@),
                old(self).state.pool.backends.entries@[0].key@,
                msg@,
                now,
                false,
            ),
    {
        let first: String = match self.state.pool.first_key() {
            Some(key) => key.clone(),
            None => "".to_string(),
        };
        proof {
            assert(self.state.pool.backends.keys()[0] == first@);
            assert(self.state.pool.backends.find(first@) == Some(0int));
        }
        self.forward_request(&first, msg, now, false)
    }

    /// Routes the request `msg`, given what the search for its document's
    /// environment came to; see `request_route`.
    pub fn dispatch_client_request(
        &mut self,
        msg: RpcMessage,
        lookup: Lookup,
        now: u64,
    ) -> (actions: Vec<Action>)
        requires
            old(self).wf(),
            old(self).state.pool.next_session < u64::MAX,
        ensures
            final(self).wf(),
            final(self).backend_ttl == old(self).backend_ttl,
            final(self).warmup_timeout == old(self).warmup_timeout,
            request_dispatched(
                old(self).state,
                final(self).state,
                action_models(actions@),
                msg@,
                lookup@,
                now,
            ),
    {
        let uri: Option<String> = LspProxy::extract_text_document_uri(&msg);
        let is_file: bool = match &uri {
            Some(u) => uri_file_path(u.as_str()).is_some(),
            None => false,
        };
        let actions = self.route_request(msg, uri, is_file, lookup, now);
        actions
    }
}

/// Whether the warmup of `instance` is over at time `now`.
pub open spec fn is_due(instance: BackendInstance, now: u64) -> bool {
    instance.warmup_state == WarmupState::Warming && now >= instance.warmup_deadline
}

/// The requests in the warmup queue of `instance`, each written to the
/// server, oldest first.
pub open spec fn queue_actions(instance: BackendInstance) -> Seq<ActionModel> {
    Seq::new(
        instance.warmup_queue@.len(),
        |i: int|
            ActionModel::ToBackend {
                venv_path: instance.venv_path@,
                session: instance.session,
                message: instance.warmup_queue@[i]@,
            },
    )
}

/// The queues of the servers among `backends[..n]` whose warmup is over at
/// `now`, written out server by server in pool order.
pub open spec fn drain_actions(
    backends: Seq<Entry<String, BackendInstance>>,
    now: u64,
    n: int,
) -> Seq<ActionModel>
    decreases n,
{
    if n <= 0 {
        Seq::empty()
    } else {
        let before = drain_actions(backends, now, n - 1);
        if is_due(backends[n - 1].value, now) {
            before + queue_actions(backends[n - 1].value)
        } else {
            before
        }
    }
}

/// `after` is `before` at time `now`: ready and with an empty queue where its
/// warmup is over, unchanged otherwise.
pub open spec fn warmed(before: BackendInstance, after: BackendInstance, now: u64) -> bool {
    if is_due(before, now) {
        &&& after.warmup_state == WarmupState::Ready
        &&& after.warmup_queue@.len() == 0
        &&& after.venv_path == before.venv_path
        &&& after.session == before.session
        &&& after.last_used == before.last_used
        &&& after.next_id == before.next_id
        &&& after.warmup_deadline == before.warmup_deadline
    } else {
        after == before
    }
}

/// What the end of warmups at time `now` does: every server whose deadline
/// has passed becomes ready, and what waited in its queue is written to it.
/// The requests stay on the books as pending.
pub open spec fn warmups_ended(
    before: ProxyState,
    after: ProxyState,
    actions: Seq<ActionModel>,
    now: u64,
) -> bool {
    let was = before.pool.backends.entries@;
    let backends = after.pool.backends.entries@;
    &&& backends.len() == was.len()
    &&& forall|i: int|
        0 <= i < was.len() ==> (#[trigger] backends[i]).key == was[i].key && warmed(
            was[i].value,
            backends[i].value,
            now,
        )
    &&& actions == drain_actions(was, now, was.len() as int)
    &&& after.pool.max_backends == before.pool.max_backends
    &&& after.pool.backend_ttl == before.pool.backend_ttl
    &&& after.pool.next_session == before.pool.next_session
    &&& after.pending_requests == before.pending_requests
    &&& after.pending_backend_requests == before.pending_backend_requests
    &&& after.open_documents == before.open_documents
    &&& after.client_initialize == before.client_initialize
    &&& after.git_toplevel == before.git_toplevel
    &&& after.next_proxy_request_id == before.next_proxy_request_id
}

/// The answer to a request that could not be written to its server when the
/// warmup queue was emptied.
pub open spec fn drain_failed_text() -> Seq<char> {
    "lsp-proxy: backend write failed during warmup drain"@
}

impl LspProxy {
    /// Ends the warmup of every server whose deadline has passed at `now` and
    /// has the requests that waited for it written to it, oldest first; see
    /// `warmups_ended`.
    pub fn drain_warmup_queue(&mut self, now: u64) -> (actions: Vec<Action>)
        requires
            old(self).wf(),
        ensures
            final(self).wf(),
            final(self).backend_ttl == old(self).backend_ttl,
            final(self).warmup_timeout == old(self).warmup_timeout,
            warmups_ended(old(self).state, final(self).state, action_models(actions@), now),
    {
        let mut actions: Vec<Action> = Vec::new();
        let ghost was = self.state.pool.backends.entries@;
        let mut i: usize = 0;
        assert(action_models(actions@) =~= drain_actions(was, now, 0));
        while i < self.state.pool.backends.entries.len()
            invariant
                self.wf(),
                was == old(self).state.pool.backends.entries@,
                0 <= i <= was.len(),
                self.state.pool.backends.entries@.len() == was.len(),
                forall|j: int|
                    0 <= j < i ==> (#[trigger] self.state.pool.backends.entries@[j]).key
                        == was[j].key && warmed(
                        was[j].value,
                        self.state.pool.backends.entries@[j].value,
                        now,
                    ),
                forall|j: int|
                    i <= j < was.len() ==> (#[trigger] self.state.pool.backends.entries@[j])
                        == was[j],
                action_models(actions@) == drain_actions(was, now, i as int),
                self.state.pool.max_backends == old(self).state.pool.max_backends,
                self.state.pool.backend_ttl == old(self).state.pool.backend_ttl,
                self.state.pool.next_session == old(self).state.pool.next_session,
                self.state.pending_requests == old(self).state.pending_requests,
                self.state.pending_backend_requests == old(self).state.pending_backend_requests,
                self.state.open_documents == old(self).state.open_documents,
                self.state.client_initialize == old(self).state.client_initialize,
                self.state.git_toplevel == old(self).state.git_toplevel,
                self.state.next_proxy_request_id == old(self).state.next_proxy_request_id,
                self.backend_ttl == old(self).backend_ttl,
                self.warmup_timeout == old(self).warmup_timeout,
            decreases was.len() - i,
        {
            let entry = &self.state.pool.backends.entries[i];
            let due: bool = entry.value.is_warming() && now >= entry.value.warmup_deadline;
            if due {
                let key: String = entry.key.clone();
                let session: u64 = entry.value.session;
                let ghost current = self.state.pool.backends.entries@;
                let ghost keys = self.state.pool.backends.keys();
                proof {
                    assert(keys[i as int] == key@);
                    crate::table::lemma_find_unique(keys, key@, i as int);
                }
                let mut queue: Vec<RpcMessage> = Vec::new();
                match self.state.pool.get_mut(&key) {
                    Some(instance) => {
                        instance.warmup_state = WarmupState::Ready;
                        std::mem::swap(&mut instance.warmup_queue, &mut queue);
                    },
                    None => {},
                }
                proof {
                    assert(self.state.pool.backends.keys() =~= keys);
                    assert(queue@ == was[i as int].value.warmup_queue@);
                }
                let ghost done = actions@;
                let mut q: usize = 0;
                while q < queue.len()
                    invariant
                        0 <= q <= queue@.len(),
                        0 <= i < was.len(),
                        queue@ == was[i as int].value.warmup_queue@,
                        key@ == was[i as int].value.venv_path@,
                        session == was[i as int].value.session,
                        actions@.len() == done.len() + q,
                        forall|j: int| 0 <= j < done.len() ==> actions@[j] == done[j],
                        forall|j: int|
                            0 <= j < q ==> (#[trigger] actions@[done.len() + j])@ == (
                            ActionModel::ToBackend {
                                venv_path: key@,
                                session,
                                message: queue@[j]@,
                            }),
                    decreases queue@.len() - q,
                {
                    actions.push(
                        Action::ToBackend {
                            venv_path: key.clone(),
                            session,
                            message: queue[q].clone(),
                        },
                    );
                    q = q + 1;
                }
                proof {
                    let goal = action_models(done) + queue_actions(was[i as int].value);
                    assert(action_models(actions@).len() == goal.len());
                    assert forall|j: int| 0 <= j < goal.len() implies action_models(actions@)[j]
                        == goal[j] by {
                        if j >= done.len() {
                            let at = j - done.len();
                            assert(actions@[done.len() + at] == actions@[j]);
                        }
                    }
                    assert(action_models(actions@) =~= goal);
                }
            }
            i = i + 1;
        }
        actions
    }

    /// Settles a request that could not be written to its server when the
    /// warmup queue was emptied: it leaves the books, and the client gets an
    /// internal error.
    pub fn warmup_write_failed(&mut self, request: &RpcMessage) -> (actions: Vec<Action>)
        requires
            old(self).wf(),
        ensures
            final(self).wf(),
            final(self).backend_ttl == old(self).backend_ttl,
            final(self).warmup_timeout == old(self).warmup_timeout,
            action_models(actions@) == seq![
                ActionModel::ToClient(
                    error_reply(request@.id, INTERNAL_ERROR, drain_failed_text()),
                ),
            ],
            match request@.id {
                Some(id) => crate::proxy::request_settled(old(self).state, final(self).state, id),
                None => final(self).state == old(self).state,
            },
    {
        match &request.id {
            Some(id) => {
                proof {
                    crate::table::lemma_find_from(self.state.pending_requests.keys(), id@, 0);
                }
                let _ = self.state.pending_requests.remove(id);
            },
            None => {},
        }
        reject(request, "lsp-proxy: backend write failed during warmup drain")
    }
}

/// No request is dropped when it is routed: it is answered at once with an
/// internal error, or it is on the books as pending afterwards, or it waits
/// for a server whose start was ordered together with it.
pub proof fn lemma_routed_request_accounted(
    before: ProxyState,
    after: ProxyState,
    actions: Seq<ActionModel>,
    message: MessageModel,
    uri: Option<Seq<char>>,
    is_file: bool,
    lookup: LookupModel,
    now: u64,
)
    requires
        routed(before, after, actions, message, uri, is_file, lookup, now),
        message.id is Some,
    ensures
        ({
            ||| exists|text: Seq<char>|
                actions == seq![
                    ActionModel::ToClient(
                        #[trigger] error_reply(message.id, INTERNAL_ERROR, text),
                    ),
                ]
            ||| after.pending_requests.has(message.id->0)
            ||| (actions.len() > 0 && match actions.last() {
                ActionModel::Spawn { deferred, .. } => deferred == Some(message),
                _ => false,
            })
        }),
{
    match request_route(before, message, uri, is_file, lookup) {
        Route::Reject(text) => {
            assert(actions == seq![
                ActionModel::ToClient(error_reply(message.id, INTERNAL_ERROR, text)),
            ]);
        },
        Route::Send(venv) => {
            if before.pool.backends.find(venv) is None {
                assert(actions == seq![
                    ActionModel::ToClient(
                        error_reply(
                            message.id,
                            INTERNAL_ERROR,
                            "lsp-proxy: backend not available"@,
                        ),
                    ),
                ]);
            }
        },
        Route::Only(venv) => {
            if before.pool.backends.find(venv) is None {
                assert(actions == seq![
                    ActionModel::ToClient(
                        error_reply(
                            message.id,
                            INTERNAL_ERROR,
                            "lsp-proxy: backend not available"@,
                        ),
                    ),
                ]);
            }
        },
        Route::Start(venv) => {},
    }
}

} // verus!
