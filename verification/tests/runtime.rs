use kube_router_rs::cri::{
    endpoint_parser, pid_outcome, verbose_info, CriError, RuntimeService,
    DEFAULT_CONNECTION_TIMEOUT,
};
use kube_router_rs::time::Duration;

#[test]
fn endpoint_parser_splits_proto_and_path() {
    assert_eq!(
        endpoint_parser("unix:///run/containerd/containerd.sock").unwrap(),
        ("unix", "/run/containerd/containerd.sock")
    );
    assert!(endpoint_parser("no-scheme").is_err());
    assert!(endpoint_parser("unix://").is_err());
}

#[test]
fn connect_rejects_non_unix() {
    let timeout = Duration::from_secs(DEFAULT_CONNECTION_TIMEOUT);
    assert!(matches!(
        RuntimeService::connect("tcp://127.0.0.1:1234", timeout),
        Err(CriError::Endpoint(_))
    ));
    let ok = RuntimeService::connect("unix:///run/x.sock", timeout).unwrap();
    assert_eq!(ok.path, "/run/x.sock");
    assert_eq!(ok.timeout, timeout);
}

#[test]
fn missing_or_unreadable_information_is_an_error() {
    assert_eq!(verbose_info(Some("{}".to_string())).unwrap(), "{}");
    assert_eq!(
        verbose_info(None).unwrap_err().message(),
        "container info error: missing verbose 'info' field"
    );
    assert_eq!(pid_outcome(Ok(12345)).unwrap(), 12345);
    assert_eq!(
        pid_outcome(Err("missing field".to_string()))
            .unwrap_err()
            .message(),
        "container info error: missing field"
    );
}

#[test]
fn runtime_errors_have_text() {
    assert_eq!(
        endpoint_parser("://x").unwrap_err().message(),
        "bad endpoint: bad endpoint format, should be 'protocol://path'"
    );
    assert_eq!(
        CriError::Transport("down".to_string()).message(),
        "transport error: down"
    );
    assert_eq!(CriError::Rpc("no".to_string()).message(), "rpc error: no");
    assert_eq!(
        CriError::Timeout(Duration::from_millis(1500)).message(),
        "timed out after 1.5s"
    );
}
