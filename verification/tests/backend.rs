use lsp_proxy::backend::{
    shutdown_fire_and_forget, BackendKind, LspBackend, ShutdownCommand, ShutdownEvent,
    ShutdownPhase,
};
use lsp_proxy::backend_state::BackendState;
use lsp_proxy::error::BackendError;
use lsp_proxy::message::{RpcId, RpcMessage};
use lsp_proxy::venv::{
    after_probe, find_fallback_venv, find_venv, get_git_toplevel, next_probe, venv_candidate,
    VenvStep,
};

fn response(id: i64) -> RpcMessage {
    RpcMessage {
        jsonrpc: "2.0".to_string(),
        id: Some(RpcId::Number(id)),
        method: None,
        params: None,
        result: None,
        error: None,
    }
}

#[test]
fn environment_puts_the_venv_first() {
    let overrides = BackendKind::Ty.apply_env("/p/.venv", "/usr/bin:/bin");
    assert_eq!(overrides.len(), 2);
    assert_eq!(overrides[0].name, "VIRTUAL_ENV");
    assert_eq!(overrides[0].value, "/p/.venv");
    assert_eq!(overrides[1].name, "PATH");
    assert_eq!(overrides[1].value, "/p/.venv/bin:/usr/bin:/bin");
}

#[test]
fn backend_state_reports_what_it_holds() {
    let running = BackendState::Running { active_venv: "/p/.venv".to_string(), session: 4 };
    assert!(!running.is_disabled());
    assert_eq!(running.active_venv(), Some(&"/p/.venv".to_string()));
    assert_eq!(running.session(), Some(4));
    assert!(running.disabled_info().is_none());
    let disabled = BackendState::Disabled {
        reason: "No fallback .venv found".to_string(),
        last_file: Some("/p/a.py".to_string()),
    };
    assert!(disabled.is_disabled());
    assert!(disabled.active_venv().is_none());
    assert!(disabled.session().is_none());
    assert_eq!(
        disabled.disabled_info(),
        Some(("No fallback .venv found", Some(&"/p/a.py".to_string())))
    );
}

#[test]
fn graceful_shutdown_runs_its_course() {
    let mut backend = LspBackend::spawn();
    assert_eq!(backend.next_id(), 1);
    let first = backend.begin_shutdown();
    match first {
        ShutdownCommand::Send(ShutdownPhase::Requesting, message) => {
            assert_eq!(message.id, Some(RpcId::Number(2)));
            assert_eq!(message.method.as_deref(), Some("shutdown"));
        }
        other => panic!("unexpected {:?}", other),
    }
    assert_eq!(backend.into_split(), 3);
    let step = LspBackend::shutdown_gracefully(ShutdownPhase::Requesting, ShutdownEvent::Done, 2);
    assert!(matches!(step, ShutdownCommand::Read(ShutdownPhase::AwaitingResponse)));
    let step = LspBackend::shutdown_gracefully(
        ShutdownPhase::AwaitingResponse,
        ShutdownEvent::Message(response(1)),
        2,
    );
    assert!(matches!(step, ShutdownCommand::Read(ShutdownPhase::AwaitingResponse)));
    let step = LspBackend::shutdown_gracefully(
        ShutdownPhase::AwaitingResponse,
        ShutdownEvent::Message(response(2)),
        2,
    );
    match step {
        ShutdownCommand::Send(ShutdownPhase::Notifying, message) => {
            assert!(message.id.is_none());
            assert_eq!(message.method.as_deref(), Some("exit"));
        }
        other => panic!("unexpected {:?}", other),
    }
    let step = LspBackend::shutdown_gracefully(ShutdownPhase::Notifying, ShutdownEvent::Failed, 2);
    assert!(matches!(step, ShutdownCommand::Wait(ShutdownPhase::AwaitingExit)));
    let step = LspBackend::shutdown_gracefully(ShutdownPhase::AwaitingExit, ShutdownEvent::Exited, 2);
    assert!(matches!(step, ShutdownCommand::Finish(Ok(()))));
}

#[test]
fn shutdown_that_stalls_ends_in_a_kill() {
    let step = LspBackend::shutdown_gracefully(ShutdownPhase::Requesting, ShutdownEvent::Failed, 5);
    assert!(matches!(step, ShutdownCommand::Kill(ShutdownPhase::Killing)));
    let step =
        LspBackend::shutdown_gracefully(ShutdownPhase::AwaitingResponse, ShutdownEvent::TimedOut, 5);
    assert!(matches!(step, ShutdownCommand::Send(ShutdownPhase::Notifying, _)));
    let step =
        LspBackend::shutdown_gracefully(ShutdownPhase::AwaitingExit, ShutdownEvent::TimedOut, 5);
    assert!(matches!(step, ShutdownCommand::Kill(ShutdownPhase::Killing)));
    let step = LspBackend::shutdown_gracefully(ShutdownPhase::Killing, ShutdownEvent::Done, 5);
    assert!(matches!(step, ShutdownCommand::Wait(ShutdownPhase::AwaitingKill)));
    let step = LspBackend::shutdown_gracefully(ShutdownPhase::Killing, ShutdownEvent::Failed, 5);
    assert!(matches!(step, ShutdownCommand::Finish(Err(BackendError::SpawnFailed(_)))));
    let step =
        LspBackend::shutdown_gracefully(ShutdownPhase::AwaitingKill, ShutdownEvent::TimedOut, 5);
    assert!(
        matches!(step, ShutdownCommand::Finish(Err(BackendError::SpawnFailed(m))) if m == "Backend kill timeout")
    );
    let step = LspBackend::shutdown_gracefully(
        ShutdownPhase::AwaitingKill,
        ShutdownEvent::WaitFailed("gone".to_string()),
        5,
    );
    assert!(matches!(step, ShutdownCommand::Finish(Err(BackendError::SpawnFailed(m))) if m == "gone"));
}

#[test]
fn detached_shutdown_sends_shutdown_then_exit() {
    let (request, exit) = shutdown_fire_and_forget(9);
    assert_eq!(request.id, Some(RpcId::Number(9)));
    assert_eq!(request.method.as_deref(), Some("shutdown"));
    assert!(exit.id.is_none());
    assert_eq!(exit.method.as_deref(), Some("exit"));
}

#[test]
fn venv_search_walks_up_to_the_boundary() {
    let step = find_venv("/repo/pkg/sub/test.py", Some("/repo"));
    let (dir, venv, marker) = match step {
        VenvStep::Probe { dir, venv, marker } => (dir, venv, marker),
        other => panic!("unexpected {:?}", other),
    };
    assert_eq!(dir, "/repo/pkg/sub");
    assert_eq!(venv, "/repo/pkg/sub/.venv");
    assert_eq!(marker, "/repo/pkg/sub/.venv/pyvenv.cfg");
    let step = after_probe(&dir, venv, false, Some("/repo"));
    let (dir, venv) = match step {
        VenvStep::Probe { dir, venv, .. } => (dir, venv),
        other => panic!("unexpected {:?}", other),
    };
    assert_eq!(dir, "/repo/pkg");
    let step = after_probe(&dir, venv, false, Some("/repo"));
    let (dir, venv) = match step {
        VenvStep::Probe { dir, venv, .. } => (dir, venv),
        other => panic!("unexpected {:?}", other),
    };
    assert_eq!(dir, "/repo");
    assert_eq!(venv, "/repo/.venv");
    assert!(matches!(after_probe(&dir, venv, false, Some("/repo")), VenvStep::Done(None)));
    assert!(
        matches!(after_probe("/repo", "/repo/.venv".to_string(), true, Some("/repo")), VenvStep::Done(Some(v)) if v == "/repo/.venv")
    );
}

#[test]
fn venv_search_without_boundary_ends_at_the_root() {
    let mut step = find_venv("/a/test.py", None);
    let mut probed = Vec::new();
    loop {
        match step {
            VenvStep::Probe { dir, venv, .. } => {
                probed.push(dir.clone());
                step = after_probe(&dir, venv, false, None);
            }
            VenvStep::Done(found) => {
                assert!(found.is_none());
                break;
            }
        }
    }
    assert_eq!(probed, vec!["/a".to_string(), "/".to_string()]);
}

#[test]
fn fallback_prefers_the_repository_root() {
    let root = Some("/repo/.venv".to_string());
    let cwd = "/repo/sub/.venv".to_string();
    assert_eq!(find_fallback_venv(root.clone(), true, cwd.clone(), true), root);
    assert_eq!(find_fallback_venv(root.clone(), false, cwd.clone(), true), Some(cwd.clone()));
    assert_eq!(find_fallback_venv(root, false, cwd.clone(), false), None);
    assert_eq!(find_fallback_venv(None, true, cwd.clone(), true), Some(cwd.clone()));
    assert_eq!(find_fallback_venv(None, false, cwd, false), None);
    assert_eq!(get_git_toplevel(true, "/repo".to_string()), Some("/repo".to_string()));
    assert_eq!(get_git_toplevel(false, "".to_string()), None);
}

fn search(file: &str, boundary: Option<&str>, markers: &[&str]) -> Option<String> {
    let mut step = find_venv(file, boundary);
    loop {
        match step {
            VenvStep::Probe { dir, venv, marker } => {
                let exists = markers.contains(&marker.as_str());
                step = after_probe(&dir, venv, exists, boundary);
            }
            VenvStep::Done(found) => return found,
        }
    }
}

#[test]
fn test_find_venv() {
    let markers = ["/tmp/project/.venv/pyvenv.cfg"];
    let result = search("/tmp/project/subdir/test.py", None, &markers);
    assert_eq!(result, Some("/tmp/project/.venv".to_string()));
}

#[test]
fn test_find_venv_not_found() {
    let result = search("/tmp/project/test.py", None, &[]);
    assert_eq!(result, None);
}

#[test]
fn venv_above_the_boundary_is_not_found() {
    let markers = ["/home/.venv/pyvenv.cfg"];
    assert_eq!(search("/home/repo/a/test.py", Some("/home/repo"), &markers), None);
    assert_eq!(
        search("/home/repo/a/test.py", None, &markers),
        Some("/home/.venv".to_string())
    );
}

#[test]
fn shutdown_phases_have_their_times() {
    assert_eq!(ShutdownPhase::AwaitingResponse.wait_millis(), 2000);
    assert_eq!(ShutdownPhase::AwaitingExit.wait_millis(), 1000);
    assert_eq!(ShutdownPhase::AwaitingKill.wait_millis(), 500);
    assert_eq!(ShutdownPhase::Requesting.wait_millis(), 0);
    assert_eq!(lsp_proxy::backend::INITIALIZE_TIMEOUT_SECS, 10);
    assert_eq!(lsp_proxy::backend::TTL_SWEEP_SECS, 60);
}

#[test]
fn candidate_is_the_venv_directory_and_its_marker() {
    let (venv, marker) = venv_candidate("/repo");
    assert_eq!(venv, "/repo/.venv");
    assert_eq!(marker, "/repo/.venv/pyvenv.cfg");
}

#[test]
fn next_probe_asks_about_the_directory_itself_or_ends() {
    match next_probe(Some("/repo/pkg".to_string()), Some("/repo")) {
        VenvStep::Probe { dir, venv, marker } => {
            assert_eq!(dir, "/repo/pkg");
            assert_eq!(venv, "/repo/pkg/.venv");
            assert_eq!(marker, "/repo/pkg/.venv/pyvenv.cfg");
        }
        other => panic!("unexpected {:?}", other),
    }
    assert!(matches!(next_probe(Some("/repository".to_string()), Some("/repo")), VenvStep::Done(None)));
    assert!(matches!(next_probe(Some("/other".to_string()), Some("/repo")), VenvStep::Done(None)));
    assert!(matches!(next_probe(None, Some("/repo")), VenvStep::Done(None)));
    assert!(matches!(next_probe(None, None), VenvStep::Done(None)));
    assert!(matches!(find_venv("/", None), VenvStep::Done(None)));
    assert!(matches!(find_venv("", None), VenvStep::Done(None)));
}
