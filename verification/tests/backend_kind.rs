use lsp_proxy::backend::BackendKind;

#[test]
fn backend_kind_command_and_args() {
    assert_eq!(BackendKind::Pyright.command(), "pyright-langserver");
    assert_eq!(BackendKind::Pyright.args(), &["--stdio"]);
    assert_eq!(BackendKind::Ty.command(), "ty");
    assert_eq!(BackendKind::Ty.args(), &["server"]);
    assert_eq!(BackendKind::Pyrefly.command(), "pyrefly");
    assert_eq!(BackendKind::Pyrefly.args(), &["lsp"]);
}

#[test]
fn backend_kind_display_name() {
    assert_eq!(BackendKind::Pyright.display_name(), "pyright");
    assert_eq!(BackendKind::Ty.display_name(), "ty");
    assert_eq!(BackendKind::Pyrefly.display_name(), "pyrefly");
}

#[test]
fn backend_kind_display_trait() {
    assert_eq!(BackendKind::Pyright.to_string(), "pyright");
    assert_eq!(BackendKind::Ty.to_string(), "ty");
    assert_eq!(BackendKind::Pyrefly.to_string(), "pyrefly");
}
