use mindchat_core::connect::{
    domain_candidates, endpoint_plan, host_candidates, literal_candidates, parse_ip_literal,
    EndpointPlan, connect_failed_event, connect_timeout_event, dedupe_candidates, group_attempts,
    group_closed_failure, group_timeout_failure, map_xmpp_error, next_ping, stream_ended_event,
    tunnel_closed_failure, watchdog_check, AttemptGroup, AttemptProgress, Candidate,
    WatchdogAction, WorkerConnection, WorkerSlots, bounded_reply, connecting_command_reply,
    WorkerCommandKind,
};
use mindchat_core::model::DisconnectKind;
use mindchat_core::proxy::{ConnectStrategy, ProxyConfig, ProxyKind};
use mindchat_core::session::SessionState;
use mindchat_core::transport::{ConnectionRequest, SecretString, TransportError, TransportEvent};
use mindchat_core::xmpp::{strategy_connect_failure, ConnectFailure, XmppError, XmppErrorKind};

fn candidate(ip: &[u8], port: u16, direct_tls: bool) -> Candidate {
    Candidate { ip: ip.to_vec(), port, direct_tls }
}

const LOCAL: [u8; 4] = [127, 0, 0, 1];
const V4: [u8; 4] = [192, 0, 2, 1];
const V6: [u8; 16] = [0x20, 0x01, 0x0d, 0xb8, 0, 0, 0, 0, 0, 0, 0, 0, 0, 0, 0, 1];

#[test]
fn dedupe_candidates_removes_duplicate_pairs_preserving_order() {
    let attempts = vec![
        candidate(&LOCAL, 5222, false),
        candidate(&LOCAL, 5223, true),
        candidate(&LOCAL, 5222, false),
        candidate(&LOCAL, 5222, true),
        candidate(&LOCAL, 5222, false),
    ];
    assert_eq!(
        dedupe_candidates(attempts),
        vec![candidate(&LOCAL, 5222, false), candidate(&LOCAL, 5223, true), candidate(&LOCAL, 5222, true)]
    );
}

#[test]
fn multi_address_candidates_group_for_happy_eyeballs() {
    let attempts = vec![
        candidate(&V4, 5222, false),
        candidate(&V6, 5222, false),
        candidate(&V4, 5222, false),
        candidate(&V4, 5223, true),
    ];
    assert_eq!(
        group_attempts(&attempts),
        vec![
            AttemptGroup { port: 5222, direct_tls: false, addresses: vec![V4.to_vec(), V6.to_vec(), V4.to_vec()] },
            AttemptGroup { port: 5223, direct_tls: true, addresses: vec![V4.to_vec()] },
        ]
    );
    assert!(group_attempts(&vec![]).is_empty());
}

#[test]
fn connect_attempt_proxy_without_configuration_fails_recoverably_offline() {
    let failure = strategy_connect_failure(ConnectStrategy::Socks5, false)
        .expect("a proxy strategy without configuration must fail");
    assert!(failure.recoverable, "the missing-configuration failure must stay recoverable");
    assert!(failure.detail.contains("socks5"));
}

#[test]
fn attempt_progress_stops_at_a_terminal_failure_and_remembers_the_last_one() {
    let mut progress = AttemptProgress::new();
    assert!(progress.record_failure(group_timeout_failure(5222)).is_none());
    let auth = ConnectFailure {
        detail: "authentication error".to_owned(),
        recoverable: false,
        kind: DisconnectKind::AuthenticationFailed,
    };
    assert_eq!(progress.record_failure(auth.clone()), Some(auth));
    assert!(progress.record_failure(group_closed_failure(5223)).is_none());
    let last = progress.finish();
    assert_eq!(last.detail, "connection to port 5223 closed during handshake");
    assert!(last.recoverable);

    let empty = AttemptProgress::new().finish();
    assert_eq!(empty.detail, "no connection candidates");
}

#[test]
fn worker_terminal_events_carry_their_reasons() {
    assert_eq!(
        connect_failed_event(3, tunnel_closed_failure()),
        TransportEvent::Disconnected {
            account_id: 3,
            recoverable: true,
            detail: Some("the proxy tunnel closed during the XMPP handshake".to_owned()),
            kind: DisconnectKind::NetworkLost,
        }
    );
    assert_eq!(
        connect_timeout_event(3),
        TransportEvent::Disconnected {
            account_id: 3,
            recoverable: true,
            detail: Some("connection attempt exceeded 30 seconds".to_owned()),
            kind: DisconnectKind::NetworkLost,
        }
    );
    assert!(matches!(stream_ended_event(3), TransportEvent::Disconnected { detail: None, .. }));
    assert_eq!(group_timeout_failure(5223).detail, "connection to port 5223 timed out after 10 seconds");
}

#[test]
fn watchdog_reports_a_stale_live_session_once() {
    let mut session = SessionState::new();
    assert_eq!(watchdog_check(&mut session, 1, u128::MAX, true), (None, WatchdogAction::Idle));
    session.live = true;
    assert_eq!(watchdog_check(&mut session, 1, 180_000_000_000, true), (None, WatchdogAction::Idle));
    let (event, action) = watchdog_check(&mut session, 1, 180_000_000_001, true);
    assert_eq!(action, WatchdogAction::Reconnect);
    assert!(matches!(event, Some(TransportEvent::Disconnected { recoverable: true, .. })));
    assert!(!session.live);
    session.live = true;
    assert_eq!(watchdog_check(&mut session, 1, 300_000_000_000, false).1, WatchdogAction::Stop);
}

#[test]
fn ping_ids_count_up_and_wrap() {
    assert_eq!(next_ping(0), (1, "mindchat-ping-1".to_owned()));
    assert_eq!(next_ping(u64::MAX).0, 0);
}

#[test]
fn xmpp_errors_map_to_transport_errors() {
    let auth = XmppError { kind: XmppErrorKind::Auth, tls_verification: false, detail: "denied".to_owned() };
    assert_eq!(map_xmpp_error(auth), TransportError::AuthenticationFailed);
    let io = XmppError { kind: XmppErrorKind::Io, tls_verification: false, detail: "reset".to_owned() };
    assert_eq!(map_xmpp_error(io), TransportError::ConnectionFailed("reset".to_owned()));
}

fn request(jid: &str, server: &str, proxy: Option<ProxyConfig>) -> ConnectionRequest {
    ConnectionRequest {
        account_id: 7,
        jid: jid.to_owned(),
        server: server.to_owned(),
        password: SecretString::new("s3cret"),
        auto_reconnect: true,
        proxy,
        proxy_password: None,
    }
}

#[test]
fn worker_connection_checks_the_request() {
    let direct = WorkerConnection::from_request(request("alice@example.org", " example.org ", None))
        .expect("valid request");
    assert_eq!(direct.server, "example.org");
    assert_eq!(direct.password, "s3cret");
    assert_eq!(direct.connect_strategy, ConnectStrategy::Direct);

    let proxy = ProxyConfig::new("127.0.0.1", 1080, ProxyKind::Socks5).expect("proxy");
    let tunnel = WorkerConnection::from_request(request("alice@example.org", "example.org", Some(proxy)))
        .expect("valid proxied request");
    assert_eq!(tunnel.connect_strategy, ConnectStrategy::Socks5);

    assert!(matches!(
        WorkerConnection::from_request(request("alice@example.org", "   ", None)),
        Err(TransportError::ProtocolViolation(ref d)) if d == "XMPP server is empty"
    ));
    assert!(matches!(
        WorkerConnection::from_request(request("alice@example.org", "example.org:0", None)),
        Err(TransportError::ProtocolViolation(_))
    ));
    assert!(matches!(
        WorkerConnection::from_request(request("not a jid@@", "example.org", None)),
        Err(TransportError::ProtocolViolation(ref d)) if d == "invalid account JID supplied to XMPP transport"
    ));
}

#[test]
fn disconnected_events_release_the_account_worker_slot() {
    let mut slots = WorkerSlots::new();
    slots.insert(42);
    assert_eq!(slots.check_free(42), Err(TransportError::Unsupported("account is already connecting".to_owned())));
    slots.observe(&TransportEvent::Disconnected {
        account_id: 42,
        recoverable: true,
        detail: None,
        kind: DisconnectKind::Unknown,
    });
    assert!(slots.connected_accounts().is_empty());
    assert_eq!(slots.check_owned(42), Err(TransportError::ConnectionFailed("account has no active XMPP worker".to_owned())));
}

#[test]
fn disconnected_event_channel_synthesizes_terminal_event_for_tracked_worker() {
    let mut slots = WorkerSlots::new();
    slots.insert(42);
    assert!(matches!(
        slots.retire_one(),
        Some(TransportEvent::Disconnected { account_id: 42, recoverable: true, detail: Some(_), kind: DisconnectKind::Unknown })
    ));
    assert!(slots.connected_accounts().is_empty(), "the dead worker must be retired");
    assert!(slots.retire_one().is_none(), "no more workers to retire");
}

#[test]
fn disconnected_event_channel_yields_one_terminal_event_per_tracked_worker() {
    let mut slots = WorkerSlots::new();
    slots.insert(43);
    slots.insert(42);
    slots.insert(43);
    assert_eq!(slots.connected_accounts(), vec![42, 43]);
    let mut synthesized = Vec::new();
    while let Some(TransportEvent::Disconnected { account_id, .. }) = slots.retire_one() {
        synthesized.push(account_id);
    }
    synthesized.sort_unstable();
    assert_eq!(synthesized, vec![42, 43]);
    assert!(slots.connected_accounts().is_empty());
}

#[test]
fn candidate_ordering_places_plain_endpoints_before_srv() {
    let plan = endpoint_plan("127.0.0.1").expect("explicit IP resolves without DNS");
    let EndpointPlan::Literal(ip) = plan else {
        panic!("an IP literal needs no lookup");
    };
    assert_eq!(
        literal_candidates(&ip),
        vec![candidate(&LOCAL, 5222, false), candidate(&LOCAL, 5223, true)]
    );
}

#[test]
fn ipv6_endpoint_resolves_without_dns() {
    let loopback: Vec<u8> = vec![0, 0, 0, 0, 0, 0, 0, 0, 0, 0, 0, 0, 0, 0, 0, 1];
    assert_eq!(parse_ip_literal("::1"), Some(loopback.clone()));
    let plan = endpoint_plan("[::1]:5222").expect("bracketed IPv6 resolves without DNS");
    assert_eq!(plan, EndpointPlan::Explicit { host: "::1".to_owned(), port: 5222 });
    assert_eq!(host_candidates(&vec![loopback.clone()], 5222), vec![candidate(&loopback, 5222, false)]);
}

#[test]
fn domains_merge_plain_and_service_candidates_without_repeats() {
    assert_eq!(endpoint_plan(" example.org ").expect("domain"), EndpointPlan::Domain("example.org".to_owned()));
    assert!(endpoint_plan("example.org:not-a-port").is_err());
    let merged = domain_candidates(
        "example.org",
        vec![candidate(&V4, 5222, false)],
        vec![candidate(&V4, 5223, true)],
        vec![candidate(&V4, 5222, false), candidate(&V6, 5222, false)],
    )
    .expect("candidates");
    assert_eq!(
        merged,
        vec![candidate(&V4, 5222, false), candidate(&V4, 5223, true), candidate(&V6, 5222, false)]
    );
    assert_eq!(
        domain_candidates("example.org", vec![], vec![], vec![]),
        Err("cannot resolve XMPP server example.org".to_owned())
    );
}

#[test]
fn commands_during_connect_stop_the_worker_with_fixed_replies() {
    assert_eq!(connecting_command_reply(WorkerCommandKind::Disconnect), Ok(()));
    assert_eq!(
        connecting_command_reply(WorkerCommandKind::Send),
        Err(TransportError::ConnectionFailed("account is still connecting".to_owned()))
    );
}

#[test]
fn bounded_replies_pass_results_through_and_name_the_timed_out_operation() {
    assert_eq!(bounded_reply(Some(Ok(())), false), Ok(()));
    assert_eq!(
        bounded_reply(Some(Err(TransportError::AuthenticationFailed)), true),
        Err(TransportError::AuthenticationFailed)
    );
    assert_eq!(
        bounded_reply(None, false),
        Err(TransportError::ConnectionFailed("timed out while sending XMPP stanza".to_owned()))
    );
    assert_eq!(
        bounded_reply(None, true),
        Err(TransportError::ConnectionFailed("timed out while closing XMPP connection".to_owned()))
    );
}

#[test]
fn head_start_close_names_the_first_address() {
    let failure = mindchat_core::connect::head_start_closed_failure("[2001:db8::1]:5222");
    assert_eq!(failure.detail, "connection to [2001:db8::1]:5222 closed during handshake");
    assert!(failure.recoverable);
    assert_eq!(failure.kind, DisconnectKind::NetworkLost);
}
