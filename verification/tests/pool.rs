use lsp_proxy::backend_pool::{BackendInstance, BackendPool, WarmupState};
use lsp_proxy::message::{RpcId, RpcMessage};
use lsp_proxy::state::{count_pending, PendingRequest, ProxyState};
use lsp_proxy::table::Table;

fn instance(venv: &str, session: u64, last_used: u64) -> BackendInstance {
    BackendInstance {
        venv_path: venv.to_string(),
        session,
        last_used,
        next_id: 2,
        warmup_state: WarmupState::Ready,
        warmup_deadline: 0,
        warmup_queue: Vec::new(),
    }
}

fn pool_of(max: usize, ttl: Option<u64>, members: &[(&str, u64)]) -> BackendPool {
    let mut pool = BackendPool::new(max, ttl);
    for (venv, last_used) in members {
        let session = pool.next_session_id();
        pool.insert(venv.to_string(), instance(venv, session, *last_used));
    }
    pool
}

fn pending_for(entries: &[(i64, &str, u64)]) -> Table<RpcId, PendingRequest> {
    let mut table = Table::new();
    for (id, venv, session) in entries {
        table.insert(
            RpcId::Number(*id),
            PendingRequest { backend_session: *session, venv_path: venv.to_string() },
        );
    }
    table
}

#[test]
fn new_pool_is_empty() {
    let pool = BackendPool::new(3, Some(1000));
    assert!(pool.is_empty());
    assert_eq!(pool.len(), 0);
    assert!(!pool.is_full());
    assert_eq!(pool.max_backends(), 3);
    assert!(pool.first_key().is_none());
    assert!(pool.backends_keys().is_empty());
    assert!(pool.lru_venv(&Table::new()).is_none());
}

#[test]
fn sessions_increase() {
    let mut pool = BackendPool::new(2, None);
    assert_eq!(pool.next_session_id(), 1);
    assert_eq!(pool.next_session_id(), 2);
    assert_eq!(pool.next_session_id(), 3);
}

#[test]
fn insert_get_remove() {
    let mut pool = pool_of(2, None, &[("/a/.venv", 10), ("/b/.venv", 20)]);
    assert_eq!(pool.len(), 2);
    assert!(pool.is_full());
    assert!(pool.contains(&"/a/.venv".to_string()));
    assert!(!pool.contains(&"/c/.venv".to_string()));
    assert_eq!(pool.get(&"/b/.venv".to_string()).unwrap().session, 2);
    assert_eq!(pool.first_key(), Some(&"/a/.venv".to_string()));
    assert_eq!(pool.backends_keys(), vec!["/a/.venv".to_string(), "/b/.venv".to_string()]);
    pool.get_mut(&"/a/.venv".to_string()).unwrap().last_used = 99;
    assert_eq!(pool.get(&"/a/.venv".to_string()).unwrap().last_used, 99);
    let removed = pool.remove(&"/a/.venv".to_string()).unwrap();
    assert_eq!(removed.session, 1);
    assert!(pool.remove(&"/a/.venv".to_string()).is_none());
    assert_eq!(pool.len(), 1);
    assert!(!pool.is_full());
}

#[test]
fn insert_replaces_the_server_of_the_same_environment() {
    let mut pool = pool_of(1, None, &[("/a/.venv", 10)]);
    let session = pool.next_session_id();
    pool.insert("/a/.venv".to_string(), instance("/a/.venv", session, 50));
    assert_eq!(pool.len(), 1);
    assert_eq!(pool.get(&"/a/.venv".to_string()).unwrap().session, 2);
}

#[test]
fn lru_prefers_servers_nothing_waits_for() {
    let pool = pool_of(3, None, &[("/a", 10), ("/b", 20), ("/c", 30)]);
    assert_eq!(pool.lru_venv(&pending_for(&[])), Some("/a".to_string()));
    assert_eq!(pool.lru_venv(&pending_for(&[(1, "/a", 1)])), Some("/b".to_string()));
    assert_eq!(
        pool.lru_venv(&pending_for(&[(1, "/a", 1), (2, "/b", 2), (3, "/c", 3)])),
        Some("/a".to_string())
    );
    assert_eq!(pool.lru_venv(&pending_for(&[(1, "/a", 7)])), Some("/a".to_string()));
}

#[test]
fn lru_takes_the_first_of_equally_old_servers() {
    let pool = pool_of(3, None, &[("/a", 20), ("/b", 10), ("/c", 10)]);
    assert_eq!(pool.lru_venv(&pending_for(&[])), Some("/b".to_string()));
}

#[test]
fn expiry_needs_a_time_to_live() {
    let pool = pool_of(3, None, &[("/a", 0)]);
    assert!(pool.expired_venvs(1_000_000).is_empty());
}

#[test]
fn expiry_is_idle_time_at_or_over_the_time_to_live() {
    let pool = pool_of(3, Some(100), &[("/a", 0), ("/b", 50), ("/c", 500)]);
    assert_eq!(pool.expired_venvs(99), Vec::<String>::new());
    assert_eq!(pool.expired_venvs(100), vec!["/a".to_string()]);
    assert_eq!(pool.expired_venvs(150), vec!["/a".to_string(), "/b".to_string()]);
    assert_eq!(pool.expired_venvs(400), vec!["/a".to_string(), "/b".to_string()]);
    assert_eq!(
        pool.expired_venvs(600),
        vec!["/a".to_string(), "/b".to_string(), "/c".to_string()]
    );
}

#[test]
fn pending_requests_are_counted_per_server_and_session() {
    let pending = pending_for(&[(1, "/a", 1), (2, "/a", 1), (3, "/a", 2), (4, "/b", 1)]);
    assert_eq!(count_pending(&pending, &"/a".to_string(), 1), 2);
    assert_eq!(count_pending(&pending, &"/a".to_string(), 2), 1);
    assert_eq!(count_pending(&pending, &"/b".to_string(), 1), 1);
    assert_eq!(count_pending(&pending, &"/c".to_string(), 1), 0);
}

#[test]
fn proxy_ids_are_negative_and_fall() {
    let mut state = ProxyState::new(2, None);
    assert_eq!(state.alloc_proxy_request_id(), RpcId::Number(-1));
    assert_eq!(state.alloc_proxy_request_id(), RpcId::Number(-2));
    assert_eq!(state.alloc_proxy_request_id(), RpcId::Number(-3));
}

#[test]
fn warmup_queue_cancels_the_oldest_request_of_an_id() {
    let request = |id: i64, method: &str| RpcMessage {
        jsonrpc: "2.0".to_string(),
        id: Some(RpcId::Number(id)),
        method: Some(method.to_string()),
        params: None,
        result: None,
        error: None,
    };
    let mut server = instance("/a", 1, 0);
    server.warmup_state = WarmupState::Warming;
    assert!(server.is_warming());
    server.warmup_queue.push(request(1, "first"));
    server.warmup_queue.push(request(2, "second"));
    server.warmup_queue.push(request(1, "third"));
    assert_eq!(server.queued_position(&RpcId::Number(2)), Some(1));
    assert_eq!(server.queued_position(&RpcId::Number(9)), None);
    let cancelled = server.cancel_warmup_request(&RpcId::Number(1)).unwrap();
    assert_eq!(cancelled.method.as_deref(), Some("first"));
    assert_eq!(server.warmup_queue.len(), 2);
    assert_eq!(server.warmup_queue[1].method.as_deref(), Some("third"));
    assert!(server.cancel_warmup_request(&RpcId::Number(9)).is_none());
    assert_eq!(server.next_id(), 2);
    assert_eq!(server.next_id(), 3);
}

#[test]
fn table_keeps_insertion_order_and_one_entry_per_key() {
    let mut table: Table<String, u32> = Table::new();
    assert!(table.is_empty());
    assert_eq!(table.insert("a".to_string(), 1), None);
    assert_eq!(table.insert("b".to_string(), 2), None);
    assert_eq!(table.insert("a".to_string(), 3), Some(1));
    assert_eq!(table.len(), 2);
    assert_eq!(table.position(&"a".to_string()), Some(0));
    assert_eq!(table.get(&"a".to_string()), Some(&3));
    assert_eq!(table.get(&"z".to_string()), None);
    *table.get_mut(&"b".to_string()).unwrap() = 9;
    assert_eq!(table.remove(&"a".to_string()), Some(3));
    assert_eq!(table.remove(&"a".to_string()), None);
    assert!(table.contains_key(&"b".to_string()));
    let entry = table.remove_at(0);
    assert_eq!((entry.key.as_str(), entry.value), ("b", 9));
    assert!(table.is_empty());
}
