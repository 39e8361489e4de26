//! Bringing a server into service: the handshake with it, the replay of the
//! open documents, its place in the pool, and what becomes of the request
//! that waited for it.

use crate::backend_pool::{BackendInstance, WarmupState};
use crate::error::{BackendError, ProxyError};
use crate::json::{
    integer_model, lemma_member_models, member_models, Json, JsonMember, JsonModel,
};
use crate::message::{
    error_reply, opt_message, IdModel, MessageModel, RpcId, RpcMessage, INTERNAL_ERROR,
};
use crate::proxy::client_dispatch::{
    copy_id, lookup_failed_text, minimal_capabilities, request_forwarded, result_reply, text_is,
};
use crate::proxy::diagnostics::{
    backend_error_message, make_notification, message_models, notification,
};
use crate::proxy::document::{
    opened_language, opened_text, opened_version, text_document, written_uri,
};
use crate::proxy::pool_management::{evictee, retire_actions, retired};
use crate::proxy::{action_models, Action, ActionModel, LspProxy};
use crate::state::{OpenDocument, ProxyState};
use crate::table::Entry;
use crate::uri::{file_path_of, uri_file_path};
use crate::venv::{parent_path, path_parent, path_starts_with, path_within};
use vstd::prelude::*;
use vstd::string::to_string_from_display_ensures;
use vstd::string::StringExecFns;

verus! {

/// The time at which a server started at `now` stops warming up.
pub open spec fn warmup_end(now: u64, timeout: u64) -> u64 {
    if now + timeout <= u64::MAX {
        (now + timeout) as u64
    } else {
        u64::MAX
    }
}

/// Whether `instance` is the server of `venv` as it is when it has just been
/// started in session `session`: used now, warming up unless the warmup time
/// is zero, and with nothing in its queue.
pub open spec fn fresh_instance(
    instance: BackendInstance,
    venv: Seq<char>,
    session: u64,
    next_id: u64,
    now: u64,
    timeout: u64,
) -> bool {
    &&& instance.venv_path@ == venv
    &&& instance.session == session
    &&& instance.next_id == next_id
    &&& instance.last_used == now
    &&& instance.warmup_state == if timeout == 0 {
        WarmupState::Ready
    } else {
        WarmupState::Warming
    }
    &&& instance.warmup_deadline == warmup_end(now, timeout)
    &&& instance.warmup_queue@.len() == 0
}

/// `after` is `before` with a fresh server for `venv` in the pool.
pub open spec fn instance_placed(
    before: ProxyState,
    after: ProxyState,
    venv: Seq<char>,
    session: u64,
    next_id: u64,
    now: u64,
    timeout: u64,
) -> bool {
    &&& match after.pool.backends.value_of(venv) {
        Some(instance) => fresh_instance(instance, venv, session, next_id, now, timeout),
        None => false,
    }
    &&& forall|other: Seq<char>|
        other != venv ==> after.pool.backends.value_of(other) == before.pool.backends.value_of(
            other,
        )
    &&& after.pool.backends.entries@.len() == before.pool.backends.entries@.len() + (
    if before.pool.backends.has(venv) {
        0int
    } else {
        1int
    })
    &&& after.pool.max_backends == before.pool.max_backends
    &&& after.pool.backend_ttl == before.pool.backend_ttl
    &&& after.pool.next_session == before.pool.next_session
    &&& after.pending_requests == before.pending_requests
    &&& after.pending_backend_requests == before.pending_backend_requests
    &&& after.open_documents == before.open_documents
    &&& after.client_initialize == before.client_initialize
    &&& after.git_toplevel == before.git_toplevel
    &&& after.next_proxy_request_id == before.next_proxy_request_id
}

/// The server that has to leave so that the one of `venv` can enter the
/// pool: none where the environment already has a place or the pool has
/// room.
pub open spec fn displaced(state: ProxyState, venv: Seq<char>) -> Option<int> {
    if state.pool.backends.has(venv) {
        None
    } else {
        evictee(state)
    }
}

/// What putting a started server into the pool does: a server is retired
/// first where there is no room, then the new one takes its place.
pub open spec fn instance_admitted(
    before: ProxyState,
    after: ProxyState,
    actions: Seq<ActionModel>,
    venv: Seq<char>,
    session: u64,
    next_id: u64,
    now: u64,
    timeout: u64,
) -> bool {
    match displaced(before, venv) {
        Some(at) => actions == retire_actions(
            before,
            before.pool.backends.entries@[at].value,
            false,
        ) && exists|room: ProxyState|
            {
                &&& #[trigger] retired(before, room, at)
                &&& instance_placed(room, after, venv, session, next_id, now, timeout)
            },
        None => actions.len() == 0 && instance_placed(
            before,
            after,
            venv,
            session,
            next_id,
            now,
            timeout,
        ),
    }
}

/// Whether `message` is the client's `initialize` request.
pub open spec fn is_initialize(message: MessageModel) -> bool {
    message.method == Some("initialize"@)
}

/// The answer to the client's `initialize` request `request`: the server's
/// own answer under the request's id, or no capabilities where there is
/// none.
pub open spec fn initialize_reply(
    request: MessageModel,
    answer: Option<MessageModel>,
) -> MessageModel {
    match answer {
        Some(a) => MessageModel { id: request.id, ..a },
        None => result_reply(request.id, minimal_capabilities()),
    }
}

/// What becomes of the request that waited for the server of `venv` once the
/// server is in the pool: the client's `initialize` is answered, any other
/// request is handed to the server.
pub open spec fn deferred_served(
    before: ProxyState,
    after: ProxyState,
    actions: Seq<ActionModel>,
    venv: Seq<char>,
    deferred: Option<MessageModel>,
    answer: Option<MessageModel>,
    now: u64,
) -> bool {
    match deferred {
        Some(request) => if is_initialize(request) {
            after == before && actions == seq![
                ActionModel::ToClient(initialize_reply(request, answer)),
            ]
        } else {
            request_forwarded(before, after, actions, venv, request, now, true)
        },
        None => after == before && actions.len() == 0,
    }
}

/// What becomes of the request that waited for a server that could not be
/// started: the client's `initialize` is answered without capabilities; for
/// anything else the client is shown the failure, and a request is answered
/// with an internal error.
pub open spec fn failure_actions(
    venv: Seq<char>,
    error: Seq<char>,
    deferred: Option<MessageModel>,
) -> Seq<ActionModel> {
    match deferred {
        Some(request) => if is_initialize(request) {
            seq![ActionModel::ToClient(result_reply(request.id, minimal_capabilities()))]
        } else {
            seq![
                ActionModel::ToClient(backend_error_message(venv, error)),
                ActionModel::ToClient(
                    error_reply(request.id, INTERNAL_ERROR, lookup_failed_text(error)),
                ),
            ]
        },
        None => seq![ActionModel::ToClient(backend_error_message(venv, error))],
    }
}

impl LspProxy {
    /// Puts the server of `venv_path`, started in session `session`, into the
    /// pool; see `instance_admitted`.
    pub fn admit_instance(
        &mut self,
        venv_path: String,
        session: u64,
        next_id: u64,
        now: u64,
    ) -> (actions: Vec<Action>)
        requires
            old(self).wf(),
            session <= old(self).state.pool.next_session,
        ensures
            final(self).wf(),
            final(self).backend_ttl == old(self).backend_ttl,
            final(self).warmup_timeout == old(self).warmup_timeout,
            instance_admitted(
                old(self).state,
                final(self).state,
                action_models(actions@),
                venv_path@,
                session,
                next_id,
                now,
                old(self).warmup_timeout,
            ),
    {
        proof {
            crate::table::lemma_find_from(self.state.pool.backends.keys(), venv_path@, 0);
        }
        let actions: Vec<Action> = if !self.state.pool.contains(&venv_path)
            && self.state.pool.is_full() {
            proof {
                let backends = self.state.pool.backends.entries@;
                let pending = self.state.pending_requests.entries@;
                crate::backend_pool::lemma_lru_index(backends, pending, false, backends.len() as int);
                crate::backend_pool::lemma_lru_index(backends, pending, true, backends.len() as int);
                assert(crate::backend_pool::lru_candidate(backends, pending, false, 0));
            }
            self.evict_lru_backend()
        } else {
            Vec::new()
        };
        let ghost room = self.state;
        proof {
            crate::table::lemma_find_from(self.state.pool.backends.keys(), venv_path@, 0);
            if displaced(old(self).state, venv_path@) is Some {
                let at = displaced(old(self).state, venv_path@)->0;
                assert(self.state.pool.backends.keys() =~= old(self).state.pool.backends.keys().remove(
                    at,
                ));
                crate::table::lemma_find_from(old(self).state.pool.backends.keys(), venv_path@, 0);
            }
        }
        let timeout: u64 = self.warmup_timeout;
        let deadline: u64 = if timeout <= u64::MAX - now {
            now + timeout
        } else {
            u64::MAX
        };
        let instance: BackendInstance = BackendInstance {
            venv_path: venv_path.clone(),
            session,
            last_used: now,
            next_id,
            warmup_state: if timeout == 0 {
                WarmupState::Ready
            } else {
                WarmupState::Warming
            },
            warmup_deadline: deadline,
            warmup_queue: Vec::new(),
        };
        self.state.pool.insert(venv_path, instance);
        proof {
            assert(instance_placed(
                room,
                self.state,
                venv_path@,
                session,
                next_id,
                now,
                old(self).warmup_timeout,
            ));
        }
        actions
    }

    /// Settles the request that waited for the server of `venv_path`, now
    /// that the server is in the pool; see `deferred_served`. `answer` is the
    /// server's answer to `initialize`.
    pub fn serve_deferred(
        &mut self,
        venv_path: &String,
        deferred: Option<RpcMessage>,
        answer: Option<RpcMessage>,
        now: u64,
    ) -> (actions: Vec<Action>)
        requires
            old(self).wf(),
        ensures
            final(self).wf(),
            final(self).backend_ttl == old(self).backend_ttl,
            final(self).warmup_timeout == old(self).warmup_timeout,
            deferred_served(
                old(self).state,
                final(self).state,
                action_models(actions@),
                venv_path@,
                opt_message(deferred),
                opt_message(answer),
                now,
            ),
    {
        let request: RpcMessage = match deferred {
            Some(request) => request,
            None => {
                return Vec::new();
            },
        };
        let initialize: bool = match &request.method {
            Some(method) => text_is(method.as_str(), "initialize"),
            None => false,
        };
        if !initialize {
            return self.forward_request(venv_path, request, now, true);
        }
        let reply: RpcMessage = match answer {
            Some(a) => {
                let mut reply: RpcMessage = a;
                reply.id = copy_id(&request.id);
                reply
            },
            None => LspProxy::minimal_initialize_response(&request),
        };
        let mut actions: Vec<Action> = Vec::new();
        let send: Action = Action::ToClient(reply);
        actions.push(send);
        assert(action_models(actions@) =~= seq![send@]);
        actions
    }

    /// What follows when the server of `venv_path` could not be started or
    /// did not complete the handshake; see `failure_actions`. Nothing is
    /// remembered of the attempt.
    pub fn backend_failed(
        venv_path: &str,
        error: &str,
        deferred: Option<RpcMessage>,
    ) -> (actions: Vec<Action>)
        ensures
            action_models(actions@) == failure_actions(venv_path@, error@, opt_message(deferred)),
    {
        let mut actions: Vec<Action> = Vec::new();
        match deferred {
            Some(request) => {
                let initialize: bool = match &request.method {
                    Some(method) => text_is(method.as_str(), "initialize"),
                    None => false,
                };
                if initialize {
                    let send: Action = Action::ToClient(
                        LspProxy::minimal_initialize_response(&request),
                    );
                    actions.push(send);
                    assert(action_models(actions@) =~= seq![send@]);
                } else {
                    let show: Action = Action::ToClient(
                        LspProxy::notify_backend_error(venv_path, error),
                    );
                    let mut text: String = "lsp-proxy: backend error: ".to_string();
                    text.append(error);
                    let answer: Action = Action::ToClient(
                        RpcMessage::error_response(&request, text.as_str()),
                    );
                    actions.push(show);
                    actions.push(answer);
                    assert(action_models(actions@) =~= seq![show@, answer@]);
                }
            },
            None => {
                let show: Action = Action::ToClient(
                    LspProxy::notify_backend_error(venv_path, error),
                );
                actions.push(show);
                assert(action_models(actions@) =~= seq![show@]);
            },
        }
        actions
    }
}

/// What bringing the server of `venv` into service does: the server is
/// admitted to the pool, then the request that waited for it is settled.
pub open spec fn backend_in_service(
    before: ProxyState,
    after: ProxyState,
    actions: Seq<ActionModel>,
    venv: Seq<char>,
    session: u64,
    next_id: u64,
    deferred: Option<MessageModel>,
    answer: Option<MessageModel>,
    now: u64,
    timeout: u64,
) -> bool {
    exists|placed: ProxyState, first: Seq<ActionModel>, second: Seq<ActionModel>|
        {
            &&& #[trigger] instance_admitted(
                before,
                placed,
                first,
                venv,
                session,
                next_id,
                now,
                timeout,
            )
            &&& #[trigger] deferred_served(placed, after, second, venv, deferred, answer, now)
            &&& actions == first + second
        }
}

/// The parameters of the client's `initialize` request, as far as it was
/// seen.
pub open spec fn initialize_params(state: ProxyState) -> Option<JsonModel> {
    match state.client_initialize {
        Some(message) => message@.params,
        None => None,
    }
}

/// The `initialize` request that the proxy makes of a server: the client's
/// parameters under the id 1.
pub open spec fn initialize_message(params: JsonModel) -> MessageModel {
    MessageModel {
        jsonrpc: "2.0"@,
        id: Some(IdModel::Number(1)),
        method: Some("initialize"@),
        params: Some(params),
        result: None,
        error: None,
    }
}

/// What a message read during the handshake means.
pub ghost enum HandshakeModel {
    /// Not the answer to `initialize`: read on.
    Continue,
    /// The answer.
    Done,
    /// The answer, and it is an error.
    Refused,
}

/// Reads a message during the handshake: only the response with id 1 ends
/// it; notifications and other responses are passed over.
pub open spec fn handshake_meaning(message: MessageModel) -> HandshakeModel {
    if message.is_response() && message.id == Some(IdModel::Number(1)) {
        if message.error is Some {
            HandshakeModel::Refused
        } else {
            HandshakeModel::Done
        }
    } else {
        HandshakeModel::Continue
    }
}

/// One step of the handshake.
#[derive(Debug)]
pub enum HandshakeStep {
    Continue,
    Done(RpcMessage),
    Failed(BackendError),
}

/// The notification that opens `document` under `uri` at a server.
pub open spec fn did_open_message(uri: Seq<char>, document: OpenDocument) -> MessageModel {
    notification(
        "textDocument/didOpen"@,
        JsonModel::Object(
            seq![
                (
                    "textDocument"@,
                    JsonModel::Object(
                        seq![
                            ("uri"@, JsonModel::String(uri)),
                            ("languageId"@, JsonModel::String(document.language_id@)),
                            ("version"@, integer_model(document.version as i64)),
                            ("text"@, JsonModel::String(document.text@)),
                        ],
                    ),
                ),
            ],
        ),
    )
}

/// Whether a document is replayed to a new server of `venv`: where it is
/// bound to that environment, or its file lies under the directory that
/// holds the environment.
pub open spec fn is_replayed(document: OpenDocument, venv: Seq<char>, under_parent: bool) -> bool {
    under_parent || match document.venv {
        Some(v) => v@ == venv,
        None => false,
    }
}

/// The open notifications for the documents among `documents[..n]` that are
/// replayed to a new server of `venv`, in the order in which the documents
/// were opened; `under_parent[i]` says whether the file of document `i` lies
/// under the directory that holds the environment.
pub open spec fn replayed(
    documents: Seq<Entry<String, OpenDocument>>,
    venv: Seq<char>,
    under_parent: Seq<bool>,
    n: int,
) -> Seq<MessageModel>
    decreases n,
{
    if n <= 0 {
        Seq::empty()
    } else {
        let before = replayed(documents, venv, under_parent, n - 1);
        if is_replayed(
            documents[n - 1].value,
            venv,
            n - 1 < under_parent.len() && under_parent[n - 1],
        ) {
            before.push(did_open_message(documents[n - 1].key@, documents[n - 1].value))
        } else {
            before
        }
    }
}

/// Whether the file that the URI `uri` names lies under the directory that
/// holds the environment `venv`.
pub open spec fn lies_under_parent(venv: Seq<char>, uri: Seq<char>) -> bool {
    match (parent_path(venv), file_path_of(uri)) {
        (Some(directory), Some(file)) => path_within(file, directory),
        _ => false,
    }
}

/// For each of `documents`, whether its file lies under the directory that
/// holds the environment `venv`.
pub open spec fn parent_flags(
    documents: Seq<Entry<String, OpenDocument>>,
    venv: Seq<char>,
) -> Seq<bool> {
    Seq::new(documents.len(), |i: int| lies_under_parent(venv, documents[i].key@))
}

/// The notification that opens `document` under `uri` at a server.
pub fn make_did_open(uri: &str, document: &OpenDocument) -> (message: RpcMessage)
    ensures
        message@ == did_open_message(uri@, *document),
{
    let mut inner: Vec<JsonMember> = Vec::new();
    inner.push(JsonMember::new("uri", Json::string(uri)));
    inner.push(JsonMember::new("languageId", Json::string(document.language_id.as_str())));
    inner.push(JsonMember::new("version", Json::integer(document.version as i64)));
    inner.push(JsonMember::new("text", Json::string(document.text.as_str())));
    proof {
        lemma_member_models(inner@);
        assert(member_models(inner@) =~= seq![
            ("uri"@, JsonModel::String(uri@)),
            ("languageId"@, JsonModel::String(document.language_id@)),
            ("version"@, integer_model(document.version as i64)),
            ("text"@, JsonModel::String(document.text@)),
        ]);
    }
    let mut outer: Vec<JsonMember> = Vec::new();
    outer.push(JsonMember::new("textDocument", Json::object(inner)));
    proof {
        lemma_member_models(outer@);
        assert(member_models(outer@) =~= seq![
            (
                "textDocument"@,
                JsonModel::Object(
                    seq![
                        ("uri"@, JsonModel::String(uri@)),
                        ("languageId"@, JsonModel::String(document.language_id@)),
                        ("version"@, integer_model(document.version as i64)),
                        ("text"@, JsonModel::String(document.text@)),
                    ],
                ),
            ),
        ]);
    }
    make_notification("textDocument/didOpen", Json::object(outer))
}

impl LspProxy {
    /// Brings the server of `venv_path`, started in session `session`, into
    /// service; see `backend_in_service`. `deferred` is the request that
    /// waited for the server and `answer` the server's answer to
    /// `initialize`.
    pub fn backend_started(
        &mut self,
        venv_path: String,
        session: u64,
        next_id: u64,
        deferred: Option<RpcMessage>,
        answer: Option<RpcMessage>,
        now: u64,
    ) -> (actions: Vec<Action>)
        requires
            old(self).wf(),
            session <= old(self).state.pool.next_session,
        ensures
            final(self).wf(),
            final(self).backend_ttl == old(self).backend_ttl,
            final(self).warmup_timeout == old(self).warmup_timeout,
            backend_in_service(
                old(self).state,
                final(self).state,
                action_models(actions@),
                venv_path@,
                session,
                next_id,
                opt_message(deferred),
                opt_message(answer),
                now,
                old(self).warmup_timeout,
            ),
    {
        let ghost waited = opt_message(deferred);
        let ghost answered = opt_message(answer);
        let venv: String = venv_path.clone();
        let mut actions: Vec<Action> = self.admit_instance(venv_path, session, next_id, now);
        let ghost placed = self.state;
        let ghost first = action_models(actions@);
        let more: Vec<Action> = self.serve_deferred(&venv, deferred, answer, now);
        let ghost second = action_models(more@);
        crate::proxy::pool_management::append_actions(&mut actions, more);
        proof {
            assert(instance_admitted(
                old(self).state,
                placed,
                first,
                venv_path@,
                session,
                next_id,
                now,
                old(self).warmup_timeout,
            ));
            assert(deferred_served(placed, self.state, second, venv_path@, waited, answered, now));
        }
        actions
    }

    /// The `initialize` request for a new server: the parameters of the
    /// client's own `initialize` under the id 1. Before the client has sent
    /// its request there is nothing to ask with.
    pub fn initialize_request(&self) -> (result: Result<RpcMessage, ProxyError>)
        ensures
            match initialize_params(self.state) {
                Some(params) => result matches Ok(message) && message@ == initialize_message(
                    params,
                ),
                None => result matches Err(ProxyError::InvalidMessage(_)),
            },
    {
        let params: Option<Json> = match &self.state.client_initialize {
            Some(message) => match &message.params {
                Some(params) => Some(params.clone()),
                None => None,
            },
            None => None,
        };
        match params {
            Some(params) => Ok(
                RpcMessage {
                    jsonrpc: "2.0".to_string(),
                    id: Some(RpcId::Number(1)),
                    method: Some("initialize".to_string()),
                    params: Some(params),
                    result: None,
                    error: None,
                },
            ),
            None => Err(ProxyError::InvalidMessage("No initialize params cached".to_string())),
        }
    }

    /// Reads one message of the handshake with a new server: the response
    /// with id 1 ends the handshake, as a failure where it carries an error;
    /// anything else is passed over.
    pub fn complete_backend_initialization(msg: RpcMessage) -> (step: HandshakeStep)
        ensures
            match handshake_meaning(msg@) {
                HandshakeModel::Continue => step is Continue,
                HandshakeModel::Done => step matches HandshakeStep::Done(answer) && answer@ == msg@,
                HandshakeModel::Refused => step matches HandshakeStep::Failed(
                    BackendError::InitializeResponseError(text),
                ) && exists|code: String|
                    {
                        &&& #[trigger] to_string_from_display_ensures::<i64>(
                            &msg@.error->0.code,
                            code,
                        )
                        &&& text@ == "code="@ + code@ + ", message="@ + msg@.error->0.message
                    },
            },
    {
        if !msg.is_response() {
            return HandshakeStep::Continue;
        }
        let answers: bool = match &msg.id {
            Some(RpcId::Number(n)) => *n == 1,
            _ => false,
        };
        if !answers {
            return HandshakeStep::Continue;
        }
        match &msg.error {
            Some(error) => {
                let code: String = error.code.to_string();
                let mut text: String = "code=".to_string();
                text.append(code.as_str());
                text.append(", message=");
                text.append(error.message.as_str());
                proof {
                    assert(msg@.error->0.code == error.code);
                    assert(msg@.error->0.message == error.message@);
                    assert(to_string_from_display_ensures::<i64>(&msg@.error->0.code, code));
                    assert(text@ == "code="@ + code@ + ", message="@ + msg@.error->0.message);
                }
                HandshakeStep::Failed(BackendError::InitializeResponseError(text))
            },
            None => HandshakeStep::Done(msg),
        }
    }

    /// The open notifications to replay to a new server of `venv_path`, given
    /// for each cached document whether its file lies under the directory
    /// that holds the environment.
    pub fn replay_documents(
        &self,
        venv_path: &String,
        under_parent: &Vec<bool>,
    ) -> (messages: Vec<RpcMessage>)
        ensures
            message_models(messages@) == replayed(
                self.state.open_documents.entries@,
                venv_path@,
                under_parent@,
                self.state.open_documents.entries@.len() as int,
            ),
    {
        let mut messages: Vec<RpcMessage> = Vec::new();
        let ghost documents = self.state.open_documents.entries@;
        let mut i: usize = 0;
        assert(message_models(messages@) =~= replayed(documents, venv_path@, under_parent@, 0));
        while i < self.state.open_documents.entries.len()
            invariant
                0 <= i <= documents.len(),
                documents == self.state.open_documents.entries@,
                messages@.len() == replayed(documents, venv_path@, under_parent@, i as int).len(),
                message_models(messages@) == replayed(
                    documents,
                    venv_path@,
                    under_parent@,
                    i as int,
                ),
            decreases documents.len() - i,
        {
            let entry = &self.state.open_documents.entries[i];
            let under: bool = i < under_parent.len() && under_parent[i];
            let bound: bool = match &entry.value.venv {
                Some(v) => *v == *venv_path,
                None => false,
            };
            if under || bound {
                let ghost before = messages@;
                let message: RpcMessage = make_did_open(entry.key.as_str(), &entry.value);
                messages.push(message);
                proof {
                    assert(messages@ == before.push(message));
                    assert(message_models(messages@) =~= message_models(before).push(message@));
                }
            }
            i = i + 1;
        }
        messages
    }

    /// The open notifications to replay to a new server of `venv_path`: one
    /// for every cached document that is bound to the environment or whose
    /// file lies under the directory that holds the environment, and none for
    /// any other document; in the order in which the documents were opened.
    pub fn restore_documents_to_backend(&self, venv_path: &String) -> (messages: Vec<RpcMessage>)
        ensures
            message_models(messages@) == replayed(
                self.state.open_documents.entries@,
                venv_path@,
                parent_flags(self.state.open_documents.entries@, venv_path@),
                self.state.open_documents.entries@.len() as int,
            ),
    {
        let parent: Option<String> = path_parent(venv_path.as_str());
        let mut under_parent: Vec<bool> = Vec::new();
        let mut i: usize = 0;
        while i < self.state.open_documents.entries.len()
            invariant
                0 <= i <= self.state.open_documents.entries@.len(),
                match parent {
                    Some(d) => parent_path(venv_path@) == Some(d@),
                    None => parent_path(venv_path@) is None,
                },
                under_parent@.len() == i,
                forall|j: int|
                    0 <= j < i ==> under_parent@[j] == lies_under_parent(
                        venv_path@,
                        self.state.open_documents.entries@[j].key@,
                    ),
            decreases self.state.open_documents.entries@.len() - i,
        {
            let under: bool = match &parent {
                Some(directory) => match uri_file_path(
                    self.state.open_documents.entries[i].key.as_str(),
                ) {
                    Some(file) => path_starts_with(file.as_str(), directory.as_str()),
                    None => false,
                },
                None => false,
            };
            under_parent.push(under);
            i = i + 1;
        }
        proof {
            assert(under_parent@ =~= parent_flags(
                self.state.open_documents.entries@,
                venv_path@,
            ));
        }
        self.replay_documents(venv_path, &under_parent)
    }
}

/// Replaying a cached document to a new server tells the server what the
/// client's own open notification would have told it: the same URI, the same
/// language, the same version and the same text, where the text is what the
/// changes since have made of it.
pub proof fn lemma_replay_restores_document(uri: Seq<char>, document: OpenDocument)
    ensures
        has_open_method(did_open_message(uri, document)),
        written_uri(did_open_message(uri, document)) == Some(uri),
        opened_language(did_open_message(uri, document)) == document.language_id@,
        opened_version(did_open_message(uri, document)) == document.version,
        opened_text(did_open_message(uri, document)) == Some(document.text@),
{
    reveal_strlit("textDocument");
    reveal_strlit("uri");
    reveal_strlit("languageId");
    reveal_strlit("version");
    reveal_strlit("text");
    let message = did_open_message(uri, document);
    let inner = seq![
        ("uri"@, JsonModel::String(uri)),
        ("languageId"@, JsonModel::String(document.language_id@)),
        ("version"@, integer_model(document.version as i64)),
        ("text"@, JsonModel::String(document.text@)),
    ];
    assert("uri"@.len() == 3);
    assert("languageId"@.len() == 10);
    assert("version"@.len() == 7);
    assert("text"@.len() == 4);
    assert(text_document(message) == Some(JsonModel::Object(inner)));
    assert(crate::json::first_member(inner, "uri"@, 0) == Some(inner[0].1));
    assert(crate::json::first_member(inner, "languageId"@, 1) == Some(inner[1].1));
    assert(crate::json::first_member(inner, "languageId"@, 0) == Some(inner[1].1));
    assert(crate::json::first_member(inner, "version"@, 2) == Some(inner[2].1));
    assert(crate::json::first_member(inner, "version"@, 1) == Some(inner[2].1));
    assert(crate::json::first_member(inner, "version"@, 0) == Some(inner[2].1));
    assert(crate::json::first_member(inner, "text"@, 3) == Some(inner[3].1));
    assert(crate::json::first_member(inner, "text"@, 2) == Some(inner[3].1));
    assert(crate::json::first_member(inner, "text"@, 1) == Some(inner[3].1));
    assert(crate::json::first_member(inner, "text"@, 0) == Some(inner[3].1));
}

/// Whether `message` is an open notification.
pub open spec fn has_open_method(message: MessageModel) -> bool {
    message.method == Some("textDocument/didOpen"@) && message.id is None
}

/// A server that is admitted to an empty pool is alone in it afterwards, and
/// no server had to leave for it.
pub proof fn lemma_admitted_alone(
    before: ProxyState,
    after: ProxyState,
    actions: Seq<ActionModel>,
    venv: Seq<char>,
    session: u64,
    next_id: u64,
    now: u64,
    timeout: u64,
)
    requires
        before.wf(),
        after.wf(),
        before.pool.backends.entries@.len() == 0,
        instance_admitted(before, after, actions, venv, session, next_id, now, timeout),
    ensures
        actions.len() == 0,
        after.pool.backends.keys() == seq![venv],
        after.pool.backends.entries@.len() == 1 <= after.pool.max_backends,
{
    crate::table::lemma_find_from(before.pool.backends.keys(), venv, 0);
    crate::table::lemma_find_from(after.pool.backends.keys(), venv, 0);
    assert(after.pool.backends.keys() =~= seq![venv]);
}

} // verus!
