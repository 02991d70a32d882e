use zed_core::relay::{
    build_open_request, client_exit_decision, final_exit_status, handshake_server_name,
    handshake_url, is_forwarded_url, partition_args, CliRequest, CliResponse, ForwardError,
};

#[test]
fn url_arguments_recognized() {
    assert!(is_forwarded_url("zed://some/path"));
    assert!(is_forwarded_url("http://example.com"));
    assert!(is_forwarded_url("https://example.com"));
    assert!(is_forwarded_url("file:///tmp/x"));
    assert!(is_forwarded_url("ssh://host/x"));
    assert!(!is_forwarded_url("src/main.rs"));
    assert!(!is_forwarded_url("httpx://nope"));
}

#[test]
fn arguments_partitioned_in_order() {
    let args = vec![
        "https://example.com".to_string(),
        "main.rs".to_string(),
        "gone.rs".to_string(),
        "zed://thing".to_string(),
        "lib.rs".to_string(),
    ];
    let canonical = vec![
        None,
        Some("/repo/main.rs".to_string()),
        None,
        None,
        Some("/repo/lib.rs".to_string()),
    ];
    let (paths, urls) = partition_args(&args, &canonical);
    assert_eq!(paths, vec!["/repo/main.rs".to_string(), "/repo/lib.rs".to_string()]);
    assert_eq!(urls, vec!["https://example.com".to_string(), "zed://thing".to_string()]);
}

#[test]
fn open_request_carries_paths_and_urls() {
    let request = build_open_request(vec!["/a".to_string()], vec!["zed://b".to_string()]);
    match request {
        CliRequest::Open { paths, urls, wait, open_new_workspace, env } => {
            assert_eq!(paths, vec!["/a".to_string()]);
            assert_eq!(urls, vec!["zed://b".to_string()]);
            assert!(!wait);
            assert!(open_new_workspace.is_none());
            assert!(env.is_none());
        },
    }
}

#[test]
fn handshake_url_round_trip() {
    let url = handshake_url("server-7f3a");
    assert_eq!(url.as_str(), "zed-cli://server-7f3a");
    let name = handshake_server_name(url.as_str()).unwrap();
    assert_eq!(name.as_str(), "server-7f3a");
}

#[test]
fn handshake_rejects_other_schemes() {
    assert!(handshake_server_name("http://server-7f3a").is_none());
    assert!(handshake_server_name("zed-cli:/short").is_none());
    assert!(handshake_server_name("").is_none());
}

#[test]
fn exit_status_is_first_terminal_message() {
    let responses = vec![
        CliResponse::Ping,
        CliResponse::Stdout { message: "opening".to_string() },
        CliResponse::Stderr { message: "warning".to_string() },
        CliResponse::Exit { status: 3 },
        CliResponse::Exit { status: 4 },
    ];
    assert_eq!(final_exit_status(&responses), Some(3));
}

#[test]
fn stream_without_terminal_message_yields_no_status() {
    let responses = vec![CliResponse::Ping, CliResponse::Stdout { message: "x".to_string() }];
    assert_eq!(final_exit_status(&responses), None);
}

#[test]
fn unreachable_instance_is_an_error() {
    let outcome = client_exit_decision(false, &Vec::new());
    assert_eq!(outcome, Err(ForwardError::CouldNotReachInstance));
    let ok = client_exit_decision(true, &vec![CliResponse::Exit { status: 0 }]);
    assert_eq!(ok, Ok(Some(0)));
}
