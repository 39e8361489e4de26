//! The proxy's decisions: what each message from the client, each message
//! from a backend and each tick of the clock does to the state, and what is
//! to be sent or done in consequence.
//!
//! Nothing here reads or writes a stream or starts a process. Each function
//! takes what has happened and returns the actions that follow from it, in
//! the order in which they are to be performed.

pub mod client_dispatch;
pub mod diagnostics;
pub mod document;
pub mod initialization;
pub mod pool_management;

use crate::backend_pool::BackendMessage;
use crate::error::{ProxyError, VenvError};
use crate::message::{IdModel, MessageModel, RpcId, RpcMessage};
use crate::proxy::client_dispatch::{
    all_shut_down, broadcast_actions, cancel_handled, initialized_message, minimal_capabilities,
    request_dispatched, response_returned, result_reply, text_is, touched, with_id, Lookup,
    LookupModel,
};
use crate::proxy::document::{
    change_cached, document_closed, document_file, document_uri, open_handled, opt_text,
};
use crate::proxy::pool_management::{
    cancel_reply, lemma_retired_requests_cancelled, retire_actions, retired, spawn_ordered,
    waits_for,
};
use crate::state::{OpenDocument, PendingBackendRequest, ProxyState};
use crate::table::{find_from, lemma_find_after_remove, lemma_find_from, lemma_kept_has};
use vstd::prelude::*;

verus! {

/// Something the driver is to do.
#[derive(Debug)]
pub enum Action {
    /// Write `0` to the client.
    ToClient(RpcMessage),
    /// Write `message` to the backend of `venv_path`, if it still is in its
    /// session `session`.
    ToBackend { venv_path: String, session: u64, message: RpcMessage },
    /// Start a server for `venv_path` under `session`, shake hands with it
    /// and replay the open documents; then report how it went, together with
    /// `deferred`, the request that waits for the server.
    Spawn { venv_path: String, session: u64, deferred: Option<RpcMessage> },
    /// Stop reading from the server and shut it down in the background; the
    /// shutdown request carries `next_id`.
    Shutdown { venv_path: String, session: u64, next_id: u64 },
    /// Stop reading from a server that is gone; no shutdown is attempted.
    Abort { venv_path: String, session: u64 },
    /// End the proxy.
    Exit,
}

/// What an action is.
pub ghost enum ActionModel {
    ToClient(MessageModel),
    ToBackend { venv_path: Seq<char>, session: u64, message: MessageModel },
    Spawn { venv_path: Seq<char>, session: u64, deferred: Option<MessageModel> },
    Shutdown { venv_path: Seq<char>, session: u64, next_id: u64 },
    Abort { venv_path: Seq<char>, session: u64 },
    Exit,
}

impl View for Action {
    type V = ActionModel;

    open spec fn view(&self) -> ActionModel {
        match self {
            Action::ToClient(message) => ActionModel::ToClient(message@),
            Action::ToBackend { venv_path, session, message } => ActionModel::ToBackend {
                venv_path: venv_path@,
                session: *session,
                message: message@,
            },
            Action::Spawn { venv_path, session, deferred } => ActionModel::Spawn {
                venv_path: venv_path@,
                session: *session,
                deferred: match deferred {
                    Some(m) => Some(m@),
                    None => None,
                },
            },
            Action::Shutdown { venv_path, session, next_id } => ActionModel::Shutdown {
                venv_path: venv_path@,
                session: *session,
                next_id: *next_id,
            },
            Action::Abort { venv_path, session } => ActionModel::Abort {
                venv_path: venv_path@,
                session: *session,
            },
            Action::Exit => ActionModel::Exit,
        }
    }
}

/// The models of a run of actions, in order.
pub open spec fn action_models(actions: Seq<Action>) -> Seq<ActionModel> {
    Seq::new(actions.len(), |i: int| actions[i]@)
}

/// The proxy: its state and its settings.
pub struct LspProxy {
    pub state: ProxyState,
    /// Idle time in milliseconds after which a server is retired.
    pub backend_ttl: Option<u64>,
    /// Time in milliseconds that a new server is given to build its index;
    /// zero lets it serve at once.
    pub warmup_timeout: u64,
}

impl LspProxy {
    /// The proxy's invariant.
    pub open spec fn wf(&self) -> bool {
        self.state.wf()
    }

    /// A proxy with nothing open and no server running.
    pub fn new(max_backends: usize, backend_ttl: Option<u64>) -> (proxy: Self)
        requires
            max_backends >= 1,
        ensures
            proxy.wf(),
            proxy.backend_ttl == backend_ttl,
            proxy.warmup_timeout == 0,
            proxy.state.pool.max_backends == max_backends,
            proxy.state.pool.backend_ttl == backend_ttl,
            proxy.state.pool.backends.entries@.len() == 0,
            proxy.state.open_documents.entries@.len() == 0,
            proxy.state.pending_requests.entries@.len() == 0,
            proxy.state.pending_backend_requests.entries@.len() == 0,
            proxy.state.client_initialize is None,
            proxy.state.pool.next_session == 0,
            proxy.state.next_proxy_request_id == -1,
    {
        LspProxy {
            state: ProxyState::new(max_backends, backend_ttl),
            backend_ttl,
            warmup_timeout: 0,
        }
    }
}

/// `after` is `before` with the request that the server of `venv` made in
/// session `session` under the id `original` on the books, under the next
/// proxy id.
pub open spec fn backend_request_noted(
    before: ProxyState,
    after: ProxyState,
    venv: Seq<char>,
    session: u64,
    original: IdModel,
) -> bool {
    let proxy_id = IdModel::Number(before.next_proxy_request_id);
    &&& after.next_proxy_request_id == before.next_proxy_request_id - 1
    &&& match after.pending_backend_requests.value_of(proxy_id) {
        Some(asked) => asked.original_id@ == original && asked.venv_path@ == venv && asked.session
            == session,
        None => false,
    }
    &&& forall|other: IdModel|
        other != proxy_id ==> after.pending_backend_requests.value_of(other)
            == before.pending_backend_requests.value_of(other)
    &&& after.pool == before.pool
    &&& after.pending_requests == before.pending_requests
    &&& after.open_documents == before.open_documents
    &&& after.client_initialize == before.client_initialize
    &&& after.git_toplevel == before.git_toplevel
}

/// `after` is `before` without the pending client request `id`.
pub open spec fn request_settled(before: ProxyState, after: ProxyState, id: IdModel) -> bool {
    &&& match before.pending_requests.find(id) {
        Some(at) => after.pending_requests.entries@ == before.pending_requests.entries@.remove(at),
        None => after.pending_requests == before.pending_requests,
    }
    &&& after.pool == before.pool
    &&& after.pending_backend_requests == before.pending_backend_requests
    &&& after.open_documents == before.open_documents
    &&& after.client_initialize == before.client_initialize
    &&& after.git_toplevel == before.git_toplevel
    &&& after.next_proxy_request_id == before.next_proxy_request_id
}

/// What a message from the server of `venv` in session `session` does.
///
/// News from a server that is not the current one of its environment is
/// dropped. A read error ends the server: it is retired as crashed. A
/// request goes to the client under a fresh proxy id. A response settles the
/// pending request of its id and goes to the client, unless that request had
/// been handed to another server, in which case it is dropped. Anything else
/// goes to the client as it is.
pub open spec fn backend_message_handled(
    before: ProxyState,
    after: ProxyState,
    actions: Seq<ActionModel>,
    venv: Seq<char>,
    session: u64,
    result: Result<MessageModel, ()>,
) -> bool {
    if !before.pool.is_current(venv, session) {
        after == before && actions.len() == 0
    } else {
        match result {
            Err(_) => {
                let at = before.pool.backends.find(venv)->0;
                retired(before, after, at) && actions == retire_actions(
                    before,
                    before.pool.backends.entries@[at].value,
                    true,
                )
            },
            Ok(message) => if message.is_request() {
                backend_request_noted(before, after, venv, session, message.id->0) && actions
                    == seq![
                    ActionModel::ToClient(
                        with_id(message, IdModel::Number(before.next_proxy_request_id)),
                    ),
                ]
            } else if message.is_response() {
                let id = message.id->0;
                request_settled(before, after, id) && actions == match before.pending_requests.value_of(
                    id,
                ) {
                    Some(pending) => if pending.backend_session != session || pending.venv_path@
                        != venv {
                        Seq::<ActionModel>::empty()
                    } else {
                        seq![ActionModel::ToClient(message)]
                    },
                    None => seq![ActionModel::ToClient(message)],
                }
            } else {
                after == before && actions == seq![ActionModel::ToClient(message)]
            },
        }
    }
}

/// What came from a backend, without the text of a read error.
pub open spec fn outcome(result: Result<RpcMessage, crate::error::BackendError>) -> Result<
    MessageModel,
    (),
> {
    match result {
        Ok(message) => Ok(message@),
        Err(_) => Err(()),
    }
}

impl LspProxy {
    /// Handles what a backend's reader delivered; see
    /// `backend_message_handled`.
    pub fn handle_backend_message(&mut self, message: BackendMessage) -> (actions: Vec<Action>)
        requires
            old(self).wf(),
            old(self).state.next_proxy_request_id > i64::MIN,
        ensures
            final(self).wf(),
            final(self).backend_ttl == old(self).backend_ttl,
            final(self).warmup_timeout == old(self).warmup_timeout,
            backend_message_handled(
                old(self).state,
                final(self).state,
                action_models(actions@),
                message.venv_path@,
                message.session,
                outcome(message.result),
            ),
    {
        let venv_path: String = message.venv_path;
        let session: u64 = message.session;
        proof {
            crate::table::lemma_find_from(self.state.pool.backends.keys(), venv_path@, 0);
        }
        let current: bool = match self.state.pool.get(&venv_path) {
            Some(instance) => instance.session == session,
            None => false,
        };
        if !current {
            return Vec::new();
        }
        let msg: RpcMessage = match message.result {
            Ok(msg) => msg,
            Err(_) => {
                return self.handle_backend_crash(&venv_path, session);
            },
        };
        let mut actions: Vec<Action> = Vec::new();
        if msg.is_request() {
            let original: RpcId = match &msg.id {
                Some(id) => id.clone(),
                None => RpcId::Number(0),
            };
            let ghost next = self.state.next_proxy_request_id;
            let ghost before = self.state.pending_backend_requests.entries@;
            let proxy_id: RpcId = self.state.alloc_proxy_request_id();
            let _ = self.state.pending_backend_requests.insert(
                proxy_id.clone(),
                PendingBackendRequest { original_id: original, venv_path, session },
            );
            proof {
                assert forall|i: int|
                    0 <= i < self.state.pending_backend_requests.entries@.len() implies match (
                    #[trigger] self.state.pending_backend_requests.entries@[i]).key {
                        RpcId::Number(n) => self.state.next_proxy_request_id < n < 0,
                        RpcId::String(_) => false,
                    } by {
                    if i < before.len() {
                        assert(self.state.pending_backend_requests.entries@[i] == before[i]);
                    }
                }
            }
            let mut forwarded: RpcMessage = msg;
            forwarded.id = Some(proxy_id);
            let send: Action = Action::ToClient(forwarded);
            actions.push(send);
            assert(action_models(actions@) =~= seq![send@]);
            return actions;
        }
        if msg.is_response() {
            let id: &RpcId = match &msg.id {
                Some(id) => id,
                None => {
                    return actions;
                },
            };
            proof {
                crate::table::lemma_find_from(self.state.pending_requests.keys(), id@, 0);
            }
            let stale: bool = match self.state.pending_requests.get(id) {
                Some(pending) => pending.backend_session != session || !(pending.venv_path
                    == venv_path),
                None => false,
            };
            let _ = self.state.pending_requests.remove(id);
            if stale {
                assert(action_models(actions@) =~= Seq::<ActionModel>::empty());
                return actions;
            }
        }
        let send: Action = Action::ToClient(msg);
        actions.push(send);
        assert(action_models(actions@) =~= seq![send@]);
        actions
    }
}

/// The kinds of message from the client, in the order in which they are
/// told apart.
pub ghost enum ClientCase {
    Initialize,
    Initialized,
    Shutdown,
    Exit,
    /// A response that answers a backend's request.
    Response,
    DidOpen,
    DidChange,
    DidClose,
    Cancel,
    Request,
    Notification,
    /// Anything else, such as a response that answers nothing: dropped.
    Other,
}

/// Whether `message` has the method `name`.
pub open spec fn has_method(message: MessageModel, name: Seq<char>) -> bool {
    message.method == Some(name)
}

/// The kind of the client's message `message`. The four lifecycle methods
/// come first; a response that answers a backend's request is recognized
/// before any document notification; requests and notifications without a
/// case of their own come last.
pub open spec fn client_case(state: ProxyState, message: MessageModel) -> ClientCase {
    if has_method(message, "initialize"@) {
        ClientCase::Initialize
    } else if has_method(message, "initialized"@) {
        ClientCase::Initialized
    } else if has_method(message, "shutdown"@) {
        ClientCase::Shutdown
    } else if has_method(message, "exit"@) {
        ClientCase::Exit
    } else if message.is_response() && state.pending_backend_requests.has(message.id->0) {
        ClientCase::Response
    } else if has_method(message, "textDocument/didOpen"@) {
        ClientCase::DidOpen
    } else if has_method(message, "textDocument/didChange"@) {
        ClientCase::DidChange
    } else if has_method(message, "textDocument/didClose"@) {
        ClientCase::DidClose
    } else if has_method(message, "$/cancelRequest"@) {
        ClientCase::Cancel
    } else if message.is_request() {
        ClientCase::Request
    } else if message.is_notification() {
        ClientCase::Notification
    } else {
        ClientCase::Other
    }
}

/// `after` is `before` with `message` kept as the client's `initialize`
/// request.
pub open spec fn initialize_kept(
    before: ProxyState,
    after: ProxyState,
    message: MessageModel,
) -> bool {
    &&& match after.client_initialize {
        Some(kept) => kept@ == message,
        None => false,
    }
    &&& after.pool == before.pool
    &&& after.open_documents == before.open_documents
    &&& after.pending_requests == before.pending_requests
    &&& after.pending_backend_requests == before.pending_backend_requests
    &&& after.git_toplevel == before.git_toplevel
    &&& after.next_proxy_request_id == before.next_proxy_request_id
}

/// The environment that the document of `message` is bound to in the cache.
pub open spec fn document_venv(state: ProxyState, message: MessageModel) -> Option<Seq<char>> {
    match document_uri(message) {
        Some(uri) => match state.open_documents.value_of(uri) {
            Some(document) => opt_text(document.venv),
            None => None,
        },
        None => None,
    }
}

/// What passing the notification `message` on to the server of `venv` does:
/// the server counts as used at `now`. Without an environment, or without a
/// server for it, nothing happens.
pub open spec fn notified(
    before: ProxyState,
    after: ProxyState,
    actions: Seq<ActionModel>,
    venv: Option<Seq<char>>,
    message: MessageModel,
    now: u64,
) -> bool {
    match venv {
        Some(v) => match before.pool.backends.find(v) {
            Some(at) => touched(before, after, at, now) && actions == seq![
                ActionModel::ToBackend {
                    venv_path: v,
                    session: before.pool.backends.entries@[at].value.session,
                    message,
                },
            ],
            None => after == before && actions.len() == 0,
        },
        None => after == before && actions.len() == 0,
    }
}

/// The environment that a lookup found.
pub open spec fn found_venv(lookup: LookupModel) -> Option<Seq<char>> {
    match lookup {
        LookupModel::Found(venv) => venv,
        _ => None,
    }
}

/// What a message from the client does, case by case. `result` holds the
/// actions, or is an error where the proxy cannot go on: a change that
/// cannot be applied to the cached text, and a failed search for the
/// environment of a document that is being opened.
pub open spec fn client_message_handled(
    before: ProxyState,
    after: ProxyState,
    result: Result<Seq<ActionModel>, ()>,
    message: MessageModel,
    lookup: LookupModel,
    fallback: Option<Seq<char>>,
    now: u64,
) -> bool {
    match client_case(before, message) {
        ClientCase::Initialize => result is Ok && match fallback {
            Some(venv) => exists|kept: ProxyState|
                {
                    &&& #[trigger] initialize_kept(before, kept, message)
                    &&& spawn_ordered(kept, after, result->Ok_0, venv, Some(message))
                },
            None => initialize_kept(before, after, message) && result->Ok_0 == seq![
                ActionModel::ToClient(result_reply(message.id, minimal_capabilities())),
            ],
        },
        ClientCase::Initialized => after == before && result == Ok::<Seq<ActionModel>, ()>(
            broadcast_actions(before.pool.backends.entries@, initialized_message()),
        ),
        ClientCase::Shutdown => result is Ok && all_shut_down(
            before,
            after,
            result->Ok_0,
            message,
        ),
        ClientCase::Exit => after == before && result == Ok::<Seq<ActionModel>, ()>(
            seq![ActionModel::Exit],
        ),
        ClientCase::Response => result is Ok && response_returned(
            before,
            after,
            Some(result->Ok_0),
            message,
        ),
        ClientCase::DidOpen => match lookup {
            LookupModel::Failed(_) => result is Err && after == before,
            _ => result is Ok && open_handled(
                before,
                after,
                result->Ok_0,
                message,
                found_venv(lookup),
                now,
            ),
        },
        ClientCase::DidChange => exists|cached: ProxyState, ok: bool|
            {
                &&& #[trigger] change_cached(before, cached, ok, message)
                &&& if ok {
                    result is Ok && notified(
                        cached,
                        after,
                        result->Ok_0,
                        document_venv(cached, message),
                        message,
                        now,
                    )
                } else {
                    result is Err && after == cached
                }
            },
        ClientCase::DidClose => result is Ok && exists|
            cached: ProxyState,
            closed: Option<OpenDocument>,
        |
            {
                &&& #[trigger] document_closed(before, cached, closed, message)
                &&& notified(
                    cached,
                    after,
                    result->Ok_0,
                    document_venv(before, message),
                    message,
                    now,
                )
            },
        ClientCase::Cancel => result is Ok && cancel_handled(
            before,
            after,
            result->Ok_0,
            message,
        ),
        ClientCase::Request => result is Ok && request_dispatched(
            before,
            after,
            result->Ok_0,
            message,
            lookup,
            now,
        ),
        ClientCase::Notification => after == before && result == Ok::<Seq<ActionModel>, ()>(
            broadcast_actions(before.pool.backends.entries@, message),
        ),
        ClientCase::Other => after == before && result == Ok::<Seq<ActionModel>, ()>(
            Seq::empty(),
        ),
    }
}

/// The actions of a result, without the text of an error.
pub open spec fn action_result(result: Result<Vec<Action>, ProxyError>) -> Result<
    Seq<ActionModel>,
    (),
> {
    match result {
        Ok(actions) => Ok(action_models(actions@)),
        Err(_) => Err(()),
    }
}

/// Whether `msg` has the method `name`.
pub fn method_is(msg: &RpcMessage, name: &str) -> (yes: bool)
    ensures
        yes == has_method(msg@, name@),
{
    match &msg.method {
        Some(method) => text_is(method.as_str(), name),
        None => false,
    }
}

/// Whether the environment of the document of `message` has to be searched
/// for before the message is handled: for a document that is being opened,
/// and for a request about a document that is not open.
pub open spec fn wants_lookup(state: ProxyState, message: MessageModel) -> bool {
    match document_uri(message) {
        Some(uri) => has_method(message, "textDocument/didOpen"@) || (message.is_request()
            && !state.open_documents.has(uri)),
        None => false,
    }
}

impl LspProxy {
    /// The path of the file from which the search for the environment of the
    /// document of `msg` is to start, where a search is wanted and the
    /// document's URI names a file: its result is the lookup that
    /// `handle_client_message` expects with the message.
    pub fn venv_lookup_path(&self, msg: &RpcMessage) -> (path: Option<String>)
        ensures
            opt_text(path) == if wants_lookup(self.state, msg@) {
                document_file(msg@)
            } else {
                None
            },
    {
        let uri: String = match LspProxy::extract_text_document_uri(msg) {
            Some(uri) => uri,
            None => {
                return None;
            },
        };
        let opening: bool = method_is(msg, "textDocument/didOpen");
        if !opening && (!msg.is_request() || self.state.open_documents.contains_key(&uri)) {
            return None;
        }
        crate::uri::uri_file_path(uri.as_str())
    }

    /// Handles one message from the client; see `client_message_handled`.
    /// `lookup` is what the search for the environment of the message's
    /// document came to, and `fallback` the environment for which a server
    /// stands ready to answer the client's `initialize`.
    pub fn handle_client_message(
        &mut self,
        msg: RpcMessage,
        lookup: Lookup,
        fallback: Option<String>,
        now: u64,
    ) -> (result: Result<Vec<Action>, ProxyError>)
        requires
            old(self).wf(),
            old(self).state.pool.next_session < u64::MAX,
        ensures
            final(self).wf(),
            final(self).backend_ttl == old(self).backend_ttl,
            final(self).warmup_timeout == old(self).warmup_timeout,
            client_message_handled(
                old(self).state,
                final(self).state,
                action_result(result),
                msg@,
                lookup@,
                opt_text(fallback),
                now,
            ),
            result matches Err(e) ==> if client_case(old(self).state, msg@) is DidOpen {
                e is Venv
            } else {
                e is InvalidMessage
            },
    {
        let ghost message = msg@;
        let ghost looked = lookup@;
        if method_is(&msg, "initialize") {
            self.dispatch_initialize(&msg);
            let ghost kept = self.state;
            match fallback {
                Some(venv) => {
                    let actions = self.create_backend_instance(venv, Some(msg));
                    proof {
                        assert(initialize_kept(old(self).state, kept, message));
                    }
                    return Ok(actions);
                },
                None => {
                    let mut actions: Vec<Action> = Vec::new();
                    let reply: Action = Action::ToClient(
                        LspProxy::minimal_initialize_response(&msg),
                    );
                    actions.push(reply);
                    assert(action_models(actions@) =~= seq![reply@]);
                    return Ok(actions);
                },
            }
        }
        if method_is(&msg, "initialized") {
            return Ok(self.dispatch_initialized());
        }
        if method_is(&msg, "shutdown") {
            return Ok(self.dispatch_shutdown(&msg));
        }
        if method_is(&msg, "exit") {
            let mut actions: Vec<Action> = Vec::new();
            actions.push(Action::Exit);
            assert(action_models(actions@) =~= seq![ActionModel::Exit]);
            return Ok(actions);
        }
        if msg.is_response() {
            proof {
                crate::table::lemma_find_from(
                    self.state.pending_backend_requests.keys(),
                    message.id->0,
                    0,
                );
            }
            match self.dispatch_client_response(&msg) {
                Some(actions) => {
                    return Ok(actions);
                },
                None => {},
            }
        }
        if method_is(&msg, "textDocument/didOpen") {
            let found: Option<String> = match lookup {
                Lookup::Found(venv) => venv,
                Lookup::NotNeeded => None,
                Lookup::Failed(why) => {
                    return Err(ProxyError::Venv(VenvError::Io(why)));
                },
            };
            return Ok(self.handle_did_open(msg, found, now));
        }
        if method_is(&msg, "textDocument/didChange") {
            let changed: Result<(), ProxyError> = self.handle_did_change(&msg);
            let ghost cached = self.state;
            proof {
                assert(change_cached(old(self).state, cached, changed is Ok, message));
            }
            match changed {
                Ok(()) => {},
                Err(e) => {
                    return Err(e);
                },
            }
            let venv: Option<String> = match LspProxy::extract_text_document_uri(&msg) {
                Some(uri) => self.venv_for_uri(&uri),
                None => None,
            };
            let actions: Vec<Action> = match venv {
                Some(v) => self.touch_and_send(&v, msg, now),
                None => Vec::new(),
            };
            return Ok(actions);
        }
        if method_is(&msg, "textDocument/didClose") {
            let venv: Option<String> = match LspProxy::extract_text_document_uri(&msg) {
                Some(uri) => self.venv_for_uri(&uri),
                None => None,
            };
            let closed: Option<OpenDocument> = self.handle_did_close(&msg);
            let ghost cached = self.state;
            proof {
                assert(document_closed(old(self).state, cached, closed, message));
            }
            let actions: Vec<Action> = match venv {
                Some(v) => self.touch_and_send(&v, msg, now),
                None => Vec::new(),
            };
            return Ok(actions);
        }
        if method_is(&msg, "$/cancelRequest") {
            return Ok(self.dispatch_cancel_request(&msg));
        }
        assert(self.state == old(self).state);
        if msg.is_request() {
            assert(client_case(old(self).state, message) is Request);
            let actions: Vec<Action> = self.dispatch_client_request(msg, lookup, now);
            return Ok(actions);
        }
        if msg.is_notification() {
            return Ok(self.dispatch_client_notification(&msg));
        }
        let actions: Vec<Action> = Vec::new();
        assert(client_case(old(self).state, message) is Other);
        assert(action_models(actions@) =~= Seq::<ActionModel>::empty());
        Ok(actions)
    }
}

/// A crash costs only the crashed server: when the reader of the current
/// server of `venv` delivers a read error, that server leaves the pool and
/// every other server stays as it is; each request that waited for it is
/// answered as cancelled, under its own id, and is off the books, while the
/// requests that wait for other servers stay on the books; the documents
/// stay cached; and the last thing ordered is the end of reading, without a
/// shutdown.
pub proof fn lemma_crash_settles(
    before: ProxyState,
    after: ProxyState,
    actions: Seq<ActionModel>,
    venv: Seq<char>,
    session: u64,
)
    requires
        before.wf(),
        before.pool.is_current(venv, session),
        backend_message_handled(before, after, actions, venv, session, Err(())),
    ensures
        !after.pool.backends.has(venv),
        forall|other: Seq<char>|
            other != venv ==> #[trigger] after.pool.backends.value_of(other)
                == before.pool.backends.value_of(other),
        after.open_documents == before.open_documents,
        after.pending_backend_requests.entries@.len()
            <= before.pending_backend_requests.entries@.len(),
        actions.len() > 0,
        actions.last() == (ActionModel::Abort { venv_path: venv, session }),
        forall|j: int|
            0 <= j < before.pending_requests.entries@.len() && waits_for(venv, session)(
                #[trigger] before.pending_requests.entries@[j],
            ) ==> actions.contains(
                ActionModel::ToClient(cancel_reply(before.pending_requests.entries@[j].key@)),
            ),
        forall|j: int|
            0 <= j < before.pending_requests.entries@.len() && !waits_for(venv, session)(
                #[trigger] before.pending_requests.entries@[j],
            ) ==> after.pending_requests.entries@.contains(before.pending_requests.entries@[j]),
        forall|i: int|
            0 <= i < after.pending_requests.entries@.len() ==> !waits_for(venv, session)(
                #[trigger] after.pending_requests.entries@[i],
            ),
{
    let keys = before.pool.backends.keys();
    lemma_find_from(keys, venv, 0);
    let at = before.pool.backends.find(venv)->0;
    let gone = before.pool.backends.entries@[at].value;
    assert(keys[at] == before.pool.backends.entries@[at].key@);
    assert(gone.venv_path@ == venv && gone.session == session);
    let leaves = waits_for(venv, session);
    let pending = before.pending_requests.entries@;
    assert(after.pool.backends.keys() =~= keys.remove(at));
    assert forall|i: int, j: int| 0 <= i < j < keys.len() implies keys[i] != keys[j] by {}
    lemma_find_from(after.pool.backends.keys(), venv, 0);
    assert forall|other: Seq<char>| other != venv implies #[trigger] after.pool.backends.value_of(
        other,
    ) == before.pool.backends.value_of(other) by {
        lemma_find_after_remove(keys, at, other);
        lemma_find_from(keys, other, 0);
    }
    crate::table::lemma_kept(
        before.pending_backend_requests.entries@,
        crate::proxy::pool_management::asked_by(venv, session),
        before.pending_backend_requests.entries@.len() as int,
    );
    assert forall|j: int| 0 <= j < pending.len() && leaves(#[trigger] pending[j]) implies actions.contains(
        ActionModel::ToClient(cancel_reply(pending[j].key@)),
    ) by {
        lemma_retired_requests_cancelled(before, after, at, true, j);
    }
    assert forall|j: int| 0 <= j < pending.len() && !leaves(
        #[trigger] pending[j],
    ) implies after.pending_requests.entries@.contains(pending[j]) by {
        lemma_kept_has(pending, leaves, pending.len() as int, j);
    }
    crate::table::lemma_kept(pending, leaves, pending.len() as int);
}

/// A response settles its request once: when the current server of `venv`
/// answers, the request of that id is off the books afterwards, whatever
/// became of the answer, so that no second answer can be passed on for it;
/// the answer goes to the client where the request had been handed to this
/// very server, or was not on the books at all, and is dropped where the
/// request had been handed to another server; requests of other ids stay as
/// they are.
pub proof fn lemma_response_settles(
    before: ProxyState,
    after: ProxyState,
    actions: Seq<ActionModel>,
    venv: Seq<char>,
    session: u64,
    message: MessageModel,
)
    requires
        before.wf(),
        before.pool.is_current(venv, session),
        message.is_response(),
        backend_message_handled(before, after, actions, venv, session, Ok(message)),
    ensures
        !after.pending_requests.has(message.id->0),
        forall|other: IdModel|
            other != message.id->0 ==> #[trigger] after.pending_requests.value_of(other)
                == before.pending_requests.value_of(other),
        actions == match before.pending_requests.value_of(message.id->0) {
            Some(pending) => if pending.backend_session == session && pending.venv_path@ == venv {
                seq![ActionModel::ToClient(message)]
            } else {
                Seq::<ActionModel>::empty()
            },
            None => seq![ActionModel::ToClient(message)],
        },
        after.pool == before.pool,
{
    let id = message.id->0;
    let keys = before.pending_requests.keys();
    lemma_find_from(keys, id, 0);
    assert forall|i: int, j: int| 0 <= i < j < keys.len() implies keys[i] != keys[j] by {}
    match before.pending_requests.find(id) {
        Some(at) => {
            let rest = after.pending_requests.keys();
            assert(rest =~= keys.remove(at));
            lemma_find_from(rest, id, 0);
            if let Some(k) = find_from(rest, id, 0) {
                let j = if k < at {
                    k
                } else {
                    k + 1
                };
                assert(keys[j] == id);
            }
            assert forall|other: IdModel| other != id implies #[trigger] after.pending_requests.value_of(
                other,
            ) == before.pending_requests.value_of(other) by {
                lemma_find_after_remove(keys, at, other);
                lemma_find_from(keys, other, 0);
            }
        },
        None => {},
    }
}

} // verus!
