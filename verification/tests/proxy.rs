use lsp_proxy::backend_pool::{BackendMessage, WarmupState};
use lsp_proxy::backend_state::BackendState;
use lsp_proxy::error::{BackendError, ProxyError};
use lsp_proxy::json::{Json, JsonMember};
use lsp_proxy::message::{RpcId, RpcMessage};
use lsp_proxy::proxy::client_dispatch::Lookup;
use lsp_proxy::proxy::initialization::HandshakeStep;
use lsp_proxy::proxy::{Action, LspProxy};

fn base(id: Option<i64>, method: Option<&str>, params: Option<Json>) -> RpcMessage {
    RpcMessage {
        jsonrpc: "2.0".to_string(),
        id: id.map(RpcId::Number),
        method: method.map(|m| m.to_string()),
        params,
        result: None,
        error: None,
    }
}

fn document_params(uri: &str, extra: Vec<JsonMember>) -> Json {
    let mut document = vec![JsonMember::new("uri", Json::string(uri))];
    document.extend(extra);
    Json::object(vec![JsonMember::new("textDocument", Json::object(document))])
}

fn did_open(uri: &str, text: &str) -> RpcMessage {
    base(
        None,
        Some("textDocument/didOpen"),
        Some(document_params(
            uri,
            vec![
                JsonMember::new("languageId", Json::string("python")),
                JsonMember::new("version", Json::PosInt(1)),
                JsonMember::new("text", Json::string(text)),
            ],
        )),
    )
}

fn hover(id: i64, uri: &str) -> RpcMessage {
    base(Some(id), Some("textDocument/hover"), Some(document_params(uri, vec![])))
}

fn found(venv: &str) -> Lookup {
    Lookup::Found(Some(venv.to_string()))
}

/// Performs what the driver would: every ordered start succeeds at once.
fn settle(proxy: &mut LspProxy, actions: Vec<Action>, now: u64) -> Vec<Action> {
    let mut done = Vec::new();
    for action in actions {
        match action {
            Action::Spawn { venv_path, session, deferred } => {
                done.push(Action::Spawn {
                    venv_path: venv_path.clone(),
                    session,
                    deferred: None,
                });
                let more = proxy.backend_started(venv_path, session, 2, deferred, None, now);
                done.extend(more);
            }
            other => done.push(other),
        }
    }
    done
}

fn open(proxy: &mut LspProxy, uri: &str, venv: &str, now: u64) -> Vec<Action> {
    let actions = proxy
        .handle_client_message(did_open(uri, "x = 1\n"), found(venv), None, now)
        .unwrap();
    settle(proxy, actions, now)
}

fn client_replies(actions: &[Action]) -> Vec<&RpcMessage> {
    actions
        .iter()
        .filter_map(|a| match a {
            Action::ToClient(m) => Some(m),
            _ => None,
        })
        .collect()
}

#[test]
fn routing_under_pool_pressure() {
    let mut proxy = LspProxy::new(1, None);
    let actions = open(&mut proxy, "file:///a/one.py", "/a/.venv", 10);
    assert!(matches!(&actions[0], Action::Spawn { venv_path, session: 1, .. } if venv_path == "/a/.venv"));
    assert_eq!(proxy.state.pool.backends_keys(), vec!["/a/.venv".to_string()]);

    let sent = proxy
        .handle_client_message(hover(7, "file:///a/one.py"), Lookup::NotNeeded, None, 11)
        .unwrap();
    assert!(matches!(&sent[..], [Action::ToBackend { venv_path, session: 1, message }]
        if venv_path == "/a/.venv" && message.id == Some(RpcId::Number(7))));
    assert_eq!(proxy.state.pending_requests.len(), 1);

    let actions = open(&mut proxy, "file:///b/two.py", "/b/.venv", 12);
    assert_eq!(proxy.state.pool.backends_keys(), vec!["/b/.venv".to_string()]);
    assert!(proxy.state.pool.len() <= proxy.state.pool.max_backends());
    assert_eq!(proxy.state.pending_requests.len(), 0);

    let replies = client_replies(&actions);
    assert_eq!(replies.len(), 2);
    assert_eq!(replies[0].id, Some(RpcId::Number(7)));
    assert_eq!(replies[0].error.as_ref().unwrap().code, -32800);
    assert_eq!(replies[1].method.as_deref(), Some("textDocument/publishDiagnostics"));
    let params = replies[1].params.as_ref().unwrap();
    assert_eq!(params.get("uri").unwrap().as_str(), Some("file:///a/one.py"));
    assert_eq!(params.get("diagnostics").unwrap().as_array().unwrap().len(), 0);
    assert!(matches!(&actions[2], Action::Shutdown { venv_path, session: 1, next_id: 2 }
        if venv_path == "/a/.venv"));
    assert!(matches!(&actions[3], Action::Spawn { venv_path, session: 2, .. } if venv_path == "/b/.venv"));
}

#[test]
fn backend_crash_mid_request() {
    let mut proxy = LspProxy::new(4, None);
    open(&mut proxy, "file:///v/app.py", "/v/.venv", 1);
    proxy
        .handle_client_message(hover(42, "file:///v/app.py"), Lookup::NotNeeded, None, 2)
        .unwrap();

    let crash = BackendMessage {
        venv_path: "/v/.venv".to_string(),
        session: 1,
        result: Err(BackendError::SpawnFailed("EOF".to_string())),
    };
    let actions = proxy.handle_backend_message(crash);
    let replies = client_replies(&actions);
    assert_eq!(replies[0].id, Some(RpcId::Number(42)));
    assert_eq!(replies[0].error.as_ref().unwrap().code, -32800);
    assert!(matches!(actions.last(), Some(Action::Abort { venv_path, session: 1 })
        if venv_path == "/v/.venv"));
    assert!(!proxy.state.pool.contains(&"/v/.venv".to_string()));
    assert!(proxy.state.pending_requests.is_empty());

    let actions = proxy
        .handle_client_message(hover(43, "file:///v/app.py"), Lookup::NotNeeded, None, 3)
        .unwrap();
    assert!(matches!(&actions[..], [Action::Spawn { venv_path, session: 2, deferred: Some(m) }]
        if venv_path == "/v/.venv" && m.id == Some(RpcId::Number(43))));
    let actions = settle(&mut proxy, actions, 3);
    assert!(matches!(&actions[1], Action::ToBackend { venv_path, session: 2, message }
        if venv_path == "/v/.venv" && message.id == Some(RpcId::Number(43))));
    assert_eq!(proxy.state.pool.get(&"/v/.venv".to_string()).unwrap().session, 2);

    let answer = BackendMessage {
        venv_path: "/v/.venv".to_string(),
        session: 2,
        result: Ok(RpcMessage { result: Some(Json::Null), ..base(Some(43), None, None) }),
    };
    let actions = proxy.handle_backend_message(answer);
    assert!(matches!(&actions[..], [Action::ToClient(m)] if m.id == Some(RpcId::Number(43))));
    assert!(proxy.state.pending_requests.is_empty());
}

#[test]
fn stale_news_is_dropped() {
    let mut proxy = LspProxy::new(2, None);
    open(&mut proxy, "file:///v/app.py", "/v/.venv", 1);
    let stale = BackendMessage {
        venv_path: "/v/.venv".to_string(),
        session: 9,
        result: Ok(base(None, Some("window/logMessage"), None)),
    };
    assert!(proxy.handle_backend_message(stale).is_empty());
    let stale_crash = BackendMessage {
        venv_path: "/v/.venv".to_string(),
        session: 9,
        result: Err(BackendError::SpawnFailed("EOF".to_string())),
    };
    assert!(proxy.handle_backend_message(stale_crash).is_empty());
    assert!(proxy.state.pool.contains(&"/v/.venv".to_string()));
}

#[test]
fn backend_requests_get_falling_negative_ids_and_answers_find_their_way_back() {
    let mut proxy = LspProxy::new(2, None);
    open(&mut proxy, "file:///a/x.py", "/a/.venv", 1);
    open(&mut proxy, "file:///b/y.py", "/b/.venv", 1);
    let ask = |venv: &str, session: u64, id: i64| BackendMessage {
        venv_path: venv.to_string(),
        session,
        result: Ok(base(Some(id), Some("workspace/configuration"), None)),
    };
    let first = proxy.handle_backend_message(ask("/a/.venv", 1, 5));
    let second = proxy.handle_backend_message(ask("/b/.venv", 2, 5));
    assert!(matches!(&first[..], [Action::ToClient(m)] if m.id == Some(RpcId::Number(-1))
        && m.method.as_deref() == Some("workspace/configuration")));
    assert!(matches!(&second[..], [Action::ToClient(m)] if m.id == Some(RpcId::Number(-2))));

    let answer = RpcMessage { result: Some(Json::array(vec![])), ..base(Some(-2), None, None) };
    let actions = proxy.handle_client_message(answer, Lookup::NotNeeded, None, 2).unwrap();
    assert!(matches!(&actions[..], [Action::ToBackend { venv_path, session: 2, message }]
        if venv_path == "/b/.venv" && message.id == Some(RpcId::Number(5))));
    assert_eq!(proxy.state.pending_backend_requests.len(), 1);

    let unknown = RpcMessage { result: Some(Json::Null), ..base(Some(-9), None, None) };
    assert!(proxy.handle_client_message(unknown, Lookup::NotNeeded, None, 2).unwrap().is_empty());
}

#[test]
fn response_from_another_server_is_dropped() {
    let mut proxy = LspProxy::new(2, None);
    open(&mut proxy, "file:///a/x.py", "/a/.venv", 1);
    open(&mut proxy, "file:///b/y.py", "/b/.venv", 1);
    proxy.handle_client_message(hover(3, "file:///a/x.py"), Lookup::NotNeeded, None, 2).unwrap();
    let wrong = BackendMessage {
        venv_path: "/b/.venv".to_string(),
        session: 2,
        result: Ok(RpcMessage { result: Some(Json::Null), ..base(Some(3), None, None) }),
    };
    assert!(proxy.handle_backend_message(wrong).is_empty());
    assert!(proxy.state.pending_requests.is_empty());
}

#[test]
fn change_notifications_keep_the_cache_current() {
    let mut proxy = LspProxy::new(2, None);
    open(&mut proxy, "file:///a/x.py", "/a/.venv", 1);
    let position = |line: u64, character: u64| {
        Json::object(vec![
            JsonMember::new("line", Json::PosInt(line)),
            JsonMember::new("character", Json::PosInt(character)),
        ])
    };
    let change = |changes: Vec<Json>, version: u64| {
        base(
            None,
            Some("textDocument/didChange"),
            Some(Json::object(vec![
                JsonMember::new(
                    "textDocument",
                    Json::object(vec![
                        JsonMember::new("uri", Json::string("file:///a/x.py")),
                        JsonMember::new("version", Json::PosInt(version)),
                    ]),
                ),
                JsonMember::new("contentChanges", Json::array(changes)),
            ])),
        )
    };
    let edit = Json::object(vec![
        JsonMember::new(
            "range",
            Json::object(vec![
                JsonMember::new("start", position(0, 4)),
                JsonMember::new("end", position(0, 5)),
            ]),
        ),
        JsonMember::new("text", Json::string("42")),
    ]);
    let actions = proxy.handle_client_message(change(vec![edit], 2), Lookup::NotNeeded, None, 5).unwrap();
    assert!(matches!(&actions[..], [Action::ToBackend { venv_path, .. }] if venv_path == "/a/.venv"));
    let key = "file:///a/x.py".to_string();
    assert_eq!(proxy.state.open_documents.get(&key).unwrap().text, "x = 42\n");
    assert_eq!(proxy.state.open_documents.get(&key).unwrap().version, 2);
    assert_eq!(proxy.state.pool.get(&"/a/.venv".to_string()).unwrap().last_used, 5);

    proxy.handle_client_message(change(vec![], 3), Lookup::NotNeeded, None, 6).unwrap();
    assert_eq!(proxy.state.open_documents.get(&key).unwrap().text, "x = 42\n");
    assert_eq!(proxy.state.open_documents.get(&key).unwrap().version, 2);

    let full = Json::object(vec![JsonMember::new("text", Json::string("y\n"))]);
    proxy.handle_client_message(change(vec![full], 4), Lookup::NotNeeded, None, 7).unwrap();
    assert_eq!(proxy.state.open_documents.get(&key).unwrap().text, "y\n");
    assert_eq!(proxy.state.open_documents.get(&key).unwrap().version, 4);

    let bad = Json::object(vec![
        JsonMember::new(
            "range",
            Json::object(vec![
                JsonMember::new("start", position(9, 0)),
                JsonMember::new("end", position(9, 0)),
            ]),
        ),
        JsonMember::new("text", Json::string("z")),
    ]);
    let result = proxy.handle_client_message(change(vec![bad], 5), Lookup::NotNeeded, None, 8);
    assert!(matches!(result, Err(ProxyError::InvalidMessage(_))));
    assert_eq!(proxy.state.open_documents.get(&key).unwrap().text, "y\n");
    assert_eq!(proxy.state.open_documents.get(&key).unwrap().version, 4);
}

#[test]
fn close_forgets_the_document() {
    let mut proxy = LspProxy::new(2, None);
    open(&mut proxy, "file:///a/x.py", "/a/.venv", 1);
    let close = base(None, Some("textDocument/didClose"), Some(document_params("file:///a/x.py", vec![])));
    let actions = proxy.handle_client_message(close, Lookup::NotNeeded, None, 2).unwrap();
    assert!(matches!(&actions[..], [Action::ToBackend { venv_path, .. }] if venv_path == "/a/.venv"));
    assert!(proxy.state.open_documents.is_empty());
}

#[test]
fn uris_are_cached_under_their_normal_form() {
    let mut proxy = LspProxy::new(2, None);
    open(&mut proxy, "file:///a/b/../x.py", "/a/.venv", 1);
    assert!(proxy.state.open_documents.contains_key(&"file:///a/x.py".to_string()));
    assert_eq!(
        LspProxy::extract_text_document_uri(&hover(1, "FILE:///a/x.py")),
        Some("file:///a/x.py".to_string())
    );
    assert_eq!(LspProxy::extract_text_document_uri(&hover(1, "not a uri")), None);
    assert_eq!(LspProxy::document_path(&hover(1, "file:///a/b%20c.py")), Some("/a/b c.py".to_string()));
    assert_eq!(LspProxy::document_path(&hover(1, "untitled:Untitled-1")), None);
}

#[test]
fn requests_without_a_home_are_refused() {
    let mut proxy = LspProxy::new(2, None);
    let refusal = |actions: Vec<Action>| match &actions[..] {
        [Action::ToClient(m)] => {
            let error = m.error.as_ref().unwrap();
            assert_eq!(error.code, -32603);
            error.message.clone()
        }
        other => panic!("unexpected {:?}", other),
    };
    let text = refusal(
        proxy.handle_client_message(base(Some(1), Some("workspace/symbol"), None), Lookup::NotNeeded, None, 1).unwrap(),
    );
    assert_eq!(text, "lsp-proxy: .venv not found (strict mode). Create .venv or run hooks.");
    let text = refusal(
        proxy.handle_client_message(hover(2, "untitled:Untitled-1"), Lookup::NotNeeded, None, 1).unwrap(),
    );
    assert_eq!(text, "lsp-proxy: cannot resolve venv for non-file URI: untitled:Untitled-1");
    let text = refusal(
        proxy.handle_client_message(hover(3, "file:///n/x.py"), Lookup::Found(None), None, 1).unwrap(),
    );
    assert_eq!(text, "lsp-proxy: .venv not found (strict mode). Create .venv or run hooks.");
    let text = refusal(
        proxy
            .handle_client_message(hover(4, "file:///n/x.py"), Lookup::Failed("denied".to_string()), None, 1)
            .unwrap(),
    );
    assert_eq!(text, "lsp-proxy: backend error: denied");

    open(&mut proxy, "file:///a/x.py", "/a/.venv", 1);
    let one = proxy
        .handle_client_message(base(Some(5), Some("workspace/symbol"), None), Lookup::NotNeeded, None, 2)
        .unwrap();
    assert!(matches!(&one[..], [Action::ToBackend { venv_path, .. }] if venv_path == "/a/.venv"));
    open(&mut proxy, "file:///b/y.py", "/b/.venv", 3);
    let text = refusal(
        proxy
            .handle_client_message(base(Some(6), Some("workspace/symbol"), None), Lookup::NotNeeded, None, 4)
            .unwrap(),
    );
    assert_eq!(
        text,
        "lsp-proxy: cannot route 'workspace/symbol' without a document URI (multiple backends active)"
    );
    assert!(proxy.state.pending_requests.contains_key(&RpcId::Number(5)));
    assert!(!proxy.state.pending_requests.contains_key(&RpcId::Number(6)));
}

#[test]
fn only_index_methods_start_a_missing_server() {
    let mut proxy = LspProxy::new(2, None);
    open(&mut proxy, "file:///a/x.py", "/a/.venv", 1);
    proxy.retire_backend(&"/a/.venv".to_string(), false);
    let completion = base(
        Some(1),
        Some("textDocument/completion"),
        Some(document_params("file:///a/x.py", vec![])),
    );
    let actions = proxy.handle_client_message(completion, Lookup::NotNeeded, None, 2).unwrap();
    assert!(matches!(&actions[..], [Action::ToClient(m)]
        if m.error.as_ref().unwrap().message == "lsp-proxy: backend not available"));
    let actions = proxy.handle_client_message(hover(2, "file:///a/x.py"), Lookup::NotNeeded, None, 2).unwrap();
    assert!(matches!(&actions[..], [Action::Spawn { .. }]));
}

#[test]
fn warmup_queues_index_requests_until_the_deadline() {
    let mut proxy = LspProxy::new(2, None);
    proxy.warmup_timeout = 100;
    open(&mut proxy, "file:///a/x.py", "/a/.venv", 1000);
    let venv = "/a/.venv".to_string();
    assert_eq!(proxy.state.pool.get(&venv).unwrap().warmup_state, WarmupState::Warming);
    assert_eq!(proxy.state.pool.get(&venv).unwrap().warmup_deadline, 1100);

    let request = |id: i64, method: &str| {
        base(Some(id), Some(method), Some(document_params("file:///a/x.py", vec![])))
    };
    let actions = proxy
        .handle_client_message(request(1, "textDocument/definition"), Lookup::NotNeeded, None, 1001)
        .unwrap();
    assert!(actions.is_empty());
    let actions = proxy
        .handle_client_message(request(2, "textDocument/hover"), Lookup::NotNeeded, None, 1002)
        .unwrap();
    assert_eq!(actions.len(), 1);
    proxy
        .handle_client_message(request(3, "textDocument/references"), Lookup::NotNeeded, None, 1003)
        .unwrap();
    assert_eq!(proxy.state.pool.get(&venv).unwrap().warmup_queue.len(), 2);
    assert_eq!(proxy.state.pending_requests.len(), 3);

    let cancel = base(
        None,
        Some("$/cancelRequest"),
        Some(Json::object(vec![JsonMember::new("id", Json::PosInt(1))])),
    );
    assert!(proxy.handle_client_message(cancel, Lookup::NotNeeded, None, 1004).unwrap().is_empty());
    assert_eq!(proxy.state.pool.get(&venv).unwrap().warmup_queue.len(), 1);
    assert!(!proxy.state.pending_requests.contains_key(&RpcId::Number(1)));

    let cancel_sent = base(
        None,
        Some("$/cancelRequest"),
        Some(Json::object(vec![JsonMember::new("id", Json::PosInt(2))])),
    );
    let actions = proxy.handle_client_message(cancel_sent, Lookup::NotNeeded, None, 1005).unwrap();
    assert!(matches!(&actions[..], [Action::ToBackend { message, .. }]
        if message.method.as_deref() == Some("$/cancelRequest")));

    assert!(proxy.drain_warmup_queue(1099).is_empty());
    let actions = proxy.drain_warmup_queue(1100);
    assert!(matches!(&actions[..], [Action::ToBackend { venv_path, session: 1, message }]
        if venv_path == "/a/.venv" && message.id == Some(RpcId::Number(3))));
    assert_eq!(proxy.state.pool.get(&venv).unwrap().warmup_state, WarmupState::Ready);
    assert!(proxy.state.pool.get(&venv).unwrap().warmup_queue.is_empty());
    assert!(proxy.state.pending_requests.contains_key(&RpcId::Number(3)));
    let failed = proxy.warmup_write_failed(&request(3, "textDocument/references"));
    assert!(matches!(&failed[..], [Action::ToClient(m)] if m.id == Some(RpcId::Number(3))
        && m.error.as_ref().unwrap().message == "lsp-proxy: backend write failed during warmup drain"));
    assert!(!proxy.state.pending_requests.contains_key(&RpcId::Number(3)));
}

#[test]
fn sweep_retires_idle_servers_on_which_nothing_hangs() {
    let mut proxy = LspProxy::new(3, Some(100));
    open(&mut proxy, "file:///a/x.py", "/a/.venv", 0);
    open(&mut proxy, "file:///b/y.py", "/b/.venv", 0);
    open(&mut proxy, "file:///c/z.py", "/c/.venv", 90);
    proxy.handle_client_message(hover(1, "file:///b/y.py"), Lookup::NotNeeded, None, 0).unwrap();
    let actions = proxy.evict_expired_backends(100);
    assert_eq!(
        proxy.state.pool.backends_keys(),
        vec!["/b/.venv".to_string(), "/c/.venv".to_string()]
    );
    assert_eq!(actions.len(), 2);
    assert!(matches!(&actions[0], Action::ToClient(m)
        if m.method.as_deref() == Some("textDocument/publishDiagnostics")));
    assert!(matches!(&actions[1], Action::Shutdown { venv_path, .. } if venv_path == "/a/.venv"));
    assert_eq!(proxy.state.pending_requests.len(), 1);

    let mut without_ttl = LspProxy::new(3, None);
    open(&mut without_ttl, "file:///a/x.py", "/a/.venv", 0);
    assert!(without_ttl.evict_expired_backends(u64::MAX).is_empty());
    assert_eq!(without_ttl.state.pool.len(), 1);
}

#[test]
fn lifecycle_messages() {
    let mut proxy = LspProxy::new(2, None);
    let initialize = base(
        Some(0),
        Some("initialize"),
        Some(Json::object(vec![JsonMember::new("processId", Json::PosInt(1))])),
    );
    assert!(matches!(proxy.initialize_request(), Err(ProxyError::InvalidMessage(_))));
    let actions = proxy.handle_client_message(initialize.clone(), Lookup::NotNeeded, None, 1).unwrap();
    match &actions[..] {
        [Action::ToClient(m)] => {
            assert_eq!(m.id, Some(RpcId::Number(0)));
            let capabilities = m.result.as_ref().unwrap().get("capabilities").unwrap();
            assert!(matches!(capabilities, Json::Object(members) if members.is_empty()));
        }
        other => panic!("unexpected {:?}", other),
    }
    let request = proxy.initialize_request().unwrap();
    assert_eq!(request.id, Some(RpcId::Number(1)));
    assert_eq!(request.method.as_deref(), Some("initialize"));
    assert_eq!(request.params.unwrap().get("processId").unwrap().as_u64(), Some(1));

    open(&mut proxy, "file:///a/x.py", "/a/.venv", 2);
    open(&mut proxy, "file:///b/y.py", "/b/.venv", 2);
    let actions = proxy
        .handle_client_message(base(None, Some("initialized"), None), Lookup::NotNeeded, None, 3)
        .unwrap();
    assert_eq!(actions.len(), 2);
    assert!(matches!(&actions[1], Action::ToBackend { venv_path, session: 2, message }
        if venv_path == "/b/.venv" && message.method.as_deref() == Some("initialized")));
    let actions = proxy
        .handle_client_message(base(None, Some("workspace/didChangeConfiguration"), None), Lookup::NotNeeded, None, 3)
        .unwrap();
    assert_eq!(actions.len(), 2);

    let actions = proxy
        .handle_client_message(base(Some(9), Some("shutdown"), None), Lookup::NotNeeded, None, 4)
        .unwrap();
    assert_eq!(actions.len(), 3);
    assert!(matches!(&actions[0], Action::Shutdown { venv_path, session: 1, .. } if venv_path == "/a/.venv"));
    assert!(matches!(&actions[2], Action::ToClient(m)
        if m.id == Some(RpcId::Number(9)) && matches!(m.result, Some(Json::Null))));
    assert!(proxy.state.pool.is_empty());
    let actions = proxy
        .handle_client_message(base(None, Some("exit"), None), Lookup::NotNeeded, None, 5)
        .unwrap();
    assert!(matches!(&actions[..], [Action::Exit]));
}

#[test]
fn initialize_with_a_server_at_hand_forwards_its_answer() {
    let mut proxy = LspProxy::new(2, None);
    let initialize = base(Some(0), Some("initialize"), Some(Json::object(vec![])));
    let actions = proxy
        .handle_client_message(initialize, Lookup::NotNeeded, Some("/r/.venv".to_string()), 1)
        .unwrap();
    let (venv, session, deferred) = match actions.into_iter().next().unwrap() {
        Action::Spawn { venv_path, session, deferred } => (venv_path, session, deferred),
        other => panic!("unexpected {:?}", other),
    };
    assert_eq!((venv.as_str(), session), ("/r/.venv", 1));
    let answer = RpcMessage {
        result: Some(Json::object(vec![JsonMember::new("capabilities", Json::object(vec![
            JsonMember::new("hoverProvider", Json::Bool(true)),
        ]))])),
        ..base(Some(1), None, None)
    };
    let actions = proxy.backend_started(venv, session, 2, deferred, Some(answer), 2);
    match &actions[..] {
        [Action::ToClient(m)] => {
            assert_eq!(m.id, Some(RpcId::Number(0)));
            assert!(m.result.as_ref().unwrap().get("capabilities").unwrap().get("hoverProvider").is_some());
        }
        other => panic!("unexpected {:?}", other),
    }
    assert!(proxy.state.pool.contains(&"/r/.venv".to_string()));
}

#[test]
fn failed_start_is_shown_to_the_client() {
    let actions = LspProxy::backend_failed("/a/.venv", "No such file", Some(hover(4, "file:///a/x.py")));
    assert_eq!(actions.len(), 2);
    match &actions[0] {
        Action::ToClient(m) => {
            assert_eq!(m.method.as_deref(), Some("window/showMessage"));
            let params = m.params.as_ref().unwrap();
            assert_eq!(params.get("type").unwrap().as_u64(), Some(1));
            assert_eq!(
                params.get("message").unwrap().as_str(),
                Some("typemux-cc: Failed to start LSP backend for /a/.venv: No such file")
            );
        }
        other => panic!("unexpected {:?}", other),
    }
    assert!(matches!(&actions[1], Action::ToClient(m) if m.id == Some(RpcId::Number(4))
        && m.error.as_ref().unwrap().message == "lsp-proxy: backend error: No such file"));
    assert_eq!(LspProxy::backend_failed("/a/.venv", "x", None).len(), 1);
    let initialize = base(Some(0), Some("initialize"), None);
    let actions = LspProxy::backend_failed("/a/.venv", "x", Some(initialize));
    assert!(matches!(&actions[..], [Action::ToClient(m)] if m.result.is_some()));
}

#[test]
fn handshake_waits_for_the_answer_with_id_one() {
    let notification = base(None, Some("window/logMessage"), None);
    assert!(matches!(LspProxy::complete_backend_initialization(notification), HandshakeStep::Continue));
    assert!(matches!(
        LspProxy::complete_backend_initialization(base(Some(2), None, None)),
        HandshakeStep::Continue
    ));
    let answer = RpcMessage { result: Some(Json::Null), ..base(Some(1), None, None) };
    assert!(matches!(LspProxy::complete_backend_initialization(answer), HandshakeStep::Done(m)
        if m.id == Some(RpcId::Number(1))));
    let refused = RpcMessage {
        error: Some(lsp_proxy::message::RpcError {
            code: -32002,
            message: "not ready".to_string(),
            data: None,
        }),
        ..base(Some(1), None, None)
    };
    assert!(matches!(
        LspProxy::complete_backend_initialization(refused),
        HandshakeStep::Failed(BackendError::InitializeResponseError(text))
            if text == "code=-32002, message=not ready"
    ));
}

#[test]
fn replay_reopens_the_documents_of_the_environment() {
    let mut proxy = LspProxy::new(2, None);
    open(&mut proxy, "file:///a/x.py", "/a/.venv", 1);
    open(&mut proxy, "file:///b/y.py", "/b/.venv", 1);
    open(&mut proxy, "file:///a/sub/z.py", "/a/sub/.venv", 1);
    let messages = proxy.restore_documents_to_backend(&"/a/.venv".to_string());
    let uris: Vec<&str> = messages
        .iter()
        .map(|m| {
            m.params.as_ref().unwrap().get("textDocument").unwrap().get("uri").unwrap().as_str().unwrap()
        })
        .collect();
    assert_eq!(uris, vec!["file:///a/x.py", "file:///a/sub/z.py"]);
    let first = messages[0].params.as_ref().unwrap().get("textDocument").unwrap();
    assert_eq!(messages[0].method.as_deref(), Some("textDocument/didOpen"));
    assert_eq!(first.get("languageId").unwrap().as_str(), Some("python"));
    assert_eq!(first.get("version").unwrap().as_i64(), Some(1));
    assert_eq!(first.get("text").unwrap().as_str(), Some("x = 1\n"));
    let exact = proxy.replay_documents(&"/b/.venv".to_string(), &vec![false, false, false]);
    assert_eq!(exact.len(), 1);
}

#[test]
fn cancelling_for_a_session_answers_each_waiting_request() {
    let mut proxy = LspProxy::new(2, None);
    open(&mut proxy, "file:///a/x.py", "/a/.venv", 1);
    open(&mut proxy, "file:///b/y.py", "/b/.venv", 1);
    proxy.handle_client_message(hover(1, "file:///a/x.py"), Lookup::NotNeeded, None, 2).unwrap();
    proxy.handle_client_message(hover(2, "file:///b/y.py"), Lookup::NotNeeded, None, 2).unwrap();
    proxy.handle_client_message(hover(3, "file:///a/x.py"), Lookup::NotNeeded, None, 2).unwrap();
    let replies = proxy.cancel_pending_requests_for_session(&"/a/.venv".to_string(), 1);
    let ids: Vec<_> = replies.iter().map(|m| m.id.clone()).collect();
    assert_eq!(ids, vec![Some(RpcId::Number(1)), Some(RpcId::Number(3))]);
    assert!(replies.iter().all(|m| {
        let error = m.error.as_ref().unwrap();
        error.code == -32800 && error.message == "Request cancelled due to backend restart"
    }));
    assert_eq!(proxy.state.pending_requests.len(), 1);
    assert!(proxy.state.pending_requests.contains_key(&RpcId::Number(2)));
    assert!(proxy.cancel_pending_requests_for_session(&"/a/.venv".to_string(), 7).is_empty());
}

#[test]
fn diagnostics_are_voided_uri_by_uri() {
    let uris = vec!["file:///a/x.py".to_string(), "file:///b/y.py".to_string()];
    let messages = LspProxy::clear_diagnostics_for_uris(&uris);
    assert_eq!(messages.len(), 2);
    for (message, uri) in messages.iter().zip(&uris) {
        assert!(message.is_notification());
        assert_eq!(message.method_name(), Some("textDocument/publishDiagnostics"));
        let params = message.params.as_ref().unwrap();
        assert_eq!(params.get("uri").unwrap().as_str(), Some(uri.as_str()));
        assert!(params.get("diagnostics").unwrap().as_array().unwrap().is_empty());
    }
}

#[test]
fn pool_never_exceeds_its_maximum() {
    let mut proxy = LspProxy::new(2, None);
    for (i, name) in ["a", "b", "c", "d", "e"].iter().enumerate() {
        let uri = format!("file:///{}/x.py", name);
        let venv = format!("/{}/.venv", name);
        open(&mut proxy, &uri, &venv, i as u64);
        assert!(proxy.state.pool.len() <= 2);
        assert_eq!(proxy.state.pool.get(&venv).unwrap().session, i as u64 + 1);
    }
    assert_eq!(
        proxy.state.pool.backends_keys(),
        vec!["/d/.venv".to_string(), "/e/.venv".to_string()]
    );
}

#[test]
fn backend_state_of_a_document() {
    let mut proxy = LspProxy::new(2, None);
    open(&mut proxy, "file:///a/x.py", "/a/.venv", 1);
    let state = proxy.backend_state(&"file:///a/x.py".to_string(), None);
    assert!(matches!(state, BackendState::Running { active_venv, session: 1 } if active_venv == "/a/.venv"));
    let state = proxy.backend_state(&"file:///b/y.py".to_string(), Some("/b/y.py".to_string()));
    assert!(state.is_disabled());
    assert_eq!(state.disabled_info().unwrap().1, Some(&"/b/y.py".to_string()));
    proxy.retire_backend(&"/a/.venv".to_string(), false);
    assert!(proxy.backend_state(&"file:///a/x.py".to_string(), None).is_disabled());
}

#[test]
fn lookup_is_wanted_for_opening_and_for_requests_about_unopened_documents() {
    let mut proxy = LspProxy::new(2, None);
    let opening = did_open("file:///a/x.py", "x");
    assert_eq!(proxy.venv_lookup_path(&opening), Some("/a/x.py".to_string()));
    assert_eq!(proxy.venv_lookup_path(&hover(1, "file:///a/x.py")), Some("/a/x.py".to_string()));
    open(&mut proxy, "file:///a/x.py", "/a/.venv", 1);
    assert_eq!(proxy.venv_lookup_path(&hover(1, "file:///a/x.py")), None);
    assert_eq!(proxy.venv_lookup_path(&opening), Some("/a/x.py".to_string()));
    assert_eq!(proxy.venv_lookup_path(&hover(1, "untitled:Untitled-1")), None);
    let close = base(None, Some("textDocument/didClose"), Some(document_params("file:///b/y.py", vec![])));
    assert_eq!(proxy.venv_lookup_path(&close), None);
    assert_eq!(proxy.venv_lookup_path(&base(Some(1), Some("workspace/symbol"), None)), None);
}

#[test]
fn request_without_a_document_goes_to_the_only_server_at_once() {
    let mut proxy = LspProxy::new(2, None);
    proxy.warmup_timeout = 1000;
    open(&mut proxy, "file:///a/x.py", "/a/.venv", 1);
    let venv = "/a/.venv".to_string();
    assert_eq!(proxy.state.pool.get(&venv).unwrap().warmup_state, WarmupState::Warming);

    let by_document = base(
        Some(1),
        Some("textDocument/definition"),
        Some(document_params("file:///a/x.py", vec![])),
    );
    let actions = proxy.handle_client_message(by_document, Lookup::NotNeeded, None, 2).unwrap();
    assert!(actions.is_empty());
    assert_eq!(proxy.state.pool.get(&venv).unwrap().warmup_queue.len(), 1);

    for (id, params) in [
        (2, None),
        (3, Some(document_params("not a uri", vec![]))),
    ] {
        let request = base(Some(id), Some("textDocument/definition"), params);
        let actions = proxy.handle_client_message(request, Lookup::NotNeeded, None, 3).unwrap();
        assert!(matches!(&actions[..], [Action::ToBackend { venv_path, session: 1, message }]
            if venv_path == "/a/.venv" && message.id == Some(RpcId::Number(id))));
        assert_eq!(proxy.state.pool.get(&venv).unwrap().warmup_queue.len(), 1);
        let pending = proxy.state.pending_requests.get(&RpcId::Number(id)).unwrap();
        assert_eq!((pending.venv_path.as_str(), pending.backend_session), ("/a/.venv", 1));
        assert_eq!(proxy.state.pool.get(&venv).unwrap().last_used, 3);
    }
}

#[test]
fn failed_search_for_an_opened_document_ends_the_proxy() {
    let mut proxy = LspProxy::new(2, None);
    let result = proxy.handle_client_message(
        did_open("file:///a/x.py", "x"),
        Lookup::Failed("permission denied".to_string()),
        None,
        1,
    );
    assert!(matches!(
        result,
        Err(ProxyError::Venv(lsp_proxy::error::VenvError::Io(why))) if why == "permission denied"
    ));
    assert!(proxy.state.open_documents.is_empty());
    assert!(proxy.state.pool.is_empty());
}

#[test]
fn document_is_opened_only_where_its_uri_names_a_file() {
    let mut proxy = LspProxy::new(2, None);
    let actions = proxy
        .handle_client_message(did_open("untitled:Untitled-1", "x"), found("/a/.venv"), None, 1)
        .unwrap();
    assert!(actions.is_empty());
    assert!(proxy.state.open_documents.is_empty());
    let actions = proxy.handle_did_open(did_open("file:///a/x.py", "x"), None, 1);
    assert!(actions.is_empty());
    assert!(proxy.state.open_documents.contains_key(&"file:///a/x.py".to_string()));
    assert!(proxy.state.open_documents.get(&"file:///a/x.py".to_string()).unwrap().venv.is_none());
}

#[test]
fn document_with_a_path_that_is_not_utf8_is_still_opened() {
    let mut proxy = LspProxy::new(2, None);
    let uri = "file:///a/%FF.py";
    assert_eq!(LspProxy::document_path(&hover(1, uri)), Some("/a/\u{FFFD}.py".to_string()));
    open(&mut proxy, uri, "/a/.venv", 1);
    assert!(proxy.state.open_documents.contains_key(&uri.to_string()));
}

#[test]
fn replay_leaves_out_documents_of_other_places() {
    let mut proxy = LspProxy::new(4, None);
    open(&mut proxy, "file:///w/a/x.py", "/w/a/.venv", 1);
    open(&mut proxy, "file:///w/ab/y.py", "/w/ab/.venv", 1);
    open(&mut proxy, "file:///w/a/deep/z.py", "/w/other/.venv", 1);
    proxy.handle_did_open(did_open("file:///w/q.py", "x"), None, 1);
    let uris = |messages: Vec<RpcMessage>| -> Vec<String> {
        messages
            .iter()
            .map(|m| {
                let document = m.params.as_ref().unwrap().get("textDocument").unwrap();
                document.get("uri").unwrap().as_str().unwrap().to_string()
            })
            .collect()
    };
    assert_eq!(
        uris(proxy.restore_documents_to_backend(&"/w/a/.venv".to_string())),
        vec!["file:///w/a/x.py".to_string(), "file:///w/a/deep/z.py".to_string()]
    );
    assert_eq!(
        uris(proxy.restore_documents_to_backend(&"/w/other/.venv".to_string())),
        vec!["file:///w/a/deep/z.py".to_string()]
    );
    assert_eq!(uris(proxy.restore_documents_to_backend(&"/w/.venv".to_string())).len(), 4);
}
