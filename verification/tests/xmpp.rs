use mindchat_core::model::{ConversationKind, DisconnectKind};
use mindchat_core::proxy::ConnectStrategy;
use mindchat_core::session::IncomingMessage;
use mindchat_core::session::IncomingMessageType;
use mindchat_core::transport::OutgoingMessage;
use mindchat_core::xmpp::{
    build_message_stanza, classify_disconnect, disconnected_is_recoverable, is_auth_error,
    is_inbound_stale, order_srv_candidates, parse_receipt_message_id, reconnect_decision,
    strategy_connect_failure, terminal_failure_for_event, terminal_if_auth,
    validate_endpoint_syntax, ClientEvent, ConnectFailure, LoopAction, SrvCandidate, StanzaType,
    XmppError, XmppErrorKind,
};
use std::time::Duration;

fn error(kind: XmppErrorKind, detail: &str) -> XmppError {
    XmppError { kind, tls_verification: false, detail: detail.to_owned() }
}

fn tls_error(detail: &str) -> XmppError {
    XmppError { kind: XmppErrorKind::Tls, tls_verification: true, detail: detail.to_owned() }
}

#[test]
fn direct_strategy_has_no_connect_failure() {
    assert_eq!(strategy_connect_failure(ConnectStrategy::Direct, false), None);
    assert_eq!(strategy_connect_failure(ConnectStrategy::Direct, true), None);
}

#[test]
fn proxy_strategies_require_tunnel_configuration() {
    for strategy in [ConnectStrategy::HttpConnect, ConnectStrategy::Socks5] {
        assert_eq!(strategy_connect_failure(strategy, true), None, "a configured {strategy:?} tunnel must pass the guard");
        let failure = strategy_connect_failure(strategy, false)
            .expect("a proxy strategy without configuration fails in the connect path");
        assert!(failure.recoverable, "{strategy:?} must be recoverable");
        assert!(
            failure.detail.contains("proxy configuration"),
            "detail should name the missing configuration: {}",
            failure.detail
        );
        assert!(failure.detail.contains(strategy.as_str()));
    }
}

#[test]
fn outgoing_direct_messages_request_receipts_but_groupchat_does_not() {
    let direct = build_message_stanza(OutgoingMessage {
        account_id: 7,
        conversation_id: 1,
        message_id: 42,
        kind: ConversationKind::Direct,
        recipient: "bob@example.org".to_owned(),
        body: "Hello".to_owned(),
        in_reply_to: None,
    })
    .expect("direct stanza");
    assert_eq!(direct.type_, StanzaType::Chat);
    assert_eq!(direct.id, "mindchat-42");
    assert!(direct.request_receipt);

    let groupchat = build_message_stanza(OutgoingMessage {
        account_id: 7,
        conversation_id: 2,
        message_id: 43,
        kind: ConversationKind::MultiUserChat,
        recipient: "room@example.org".to_owned(),
        body: "Hello room".to_owned(),
        in_reply_to: None,
    })
    .expect("groupchat stanza");
    assert_eq!(groupchat.type_, StanzaType::Groupchat);
    assert!(!groupchat.request_receipt);
}

#[test]
fn outgoing_message_to_an_invalid_address_is_refused() {
    let result = build_message_stanza(OutgoingMessage {
        account_id: 7,
        conversation_id: 1,
        message_id: 42,
        kind: ConversationKind::Direct,
        recipient: "not a jid@@".to_owned(),
        body: "Hello".to_owned(),
        in_reply_to: None,
    });
    assert!(result.is_err());
}

#[test]
fn parse_receipt_message_id_requires_mindchat_numeric_id() {
    assert_eq!(parse_receipt_message_id("mindchat-42"), Some(42));
    assert_eq!(parse_receipt_message_id("mindchat-0"), None);
    assert_eq!(parse_receipt_message_id("foreign-42"), None);
    assert_eq!(parse_receipt_message_id("mindchat-4 2"), None);
    assert_eq!(parse_receipt_message_id("mindchat-"), None);
    assert_eq!(parse_receipt_message_id("mindchat-18446744073709551616"), None);
}

#[test]
fn validates_endpoint_syntax() {
    assert!(validate_endpoint_syntax("example.org").is_ok());
    assert!(validate_endpoint_syntax("example.org:5223").is_ok());
    assert!(validate_endpoint_syntax("[::1]:5222").is_ok());
    assert!(validate_endpoint_syntax("example.org:not-a-port").is_err());
    assert!(validate_endpoint_syntax("").is_err());
}

#[test]
fn is_auth_error_maps_only_auth_variants() {
    assert!(is_auth_error(&error(XmppErrorKind::Auth, "authentication error: not-authorized")));
    assert!(!is_auth_error(&error(XmppErrorKind::Disconnected, "disconnected")));
    assert!(!is_auth_error(&error(XmppErrorKind::Protocol, "no TLS")));
}

#[test]
fn temporary_auth_failure_is_recoverable() {
    let temporary = error(XmppErrorKind::AuthTemporary, "authentication error: temporary-auth-failure");
    let failure = terminal_failure_for_event(&ClientEvent::Disconnected(temporary))
        .expect("a disconnected first event is a terminal failure");
    assert!(failure.recoverable, "a transient server auth failure must be retryable");
}

#[test]
fn terminal_failure_for_event_marks_auth_non_recoverable() {
    let auth = error(XmppErrorKind::Auth, "authentication error: not-authorized");
    let failure = terminal_failure_for_event(&ClientEvent::Disconnected(auth))
        .expect("a disconnected first event is a terminal failure");
    assert!(!failure.recoverable, "rejected credentials must be non-recoverable");
    assert!(!failure.detail.is_empty(), "auth failures must carry precise detail");
    assert!(failure.detail.contains("authentication"));
    assert_eq!(failure.kind, DisconnectKind::AuthenticationFailed);
}

#[test]
fn classify_disconnect_maps_typed_failures_to_every_kind() {
    let cases = vec![
        (error(XmppErrorKind::Auth, "not-authorized"), DisconnectKind::AuthenticationFailed),
        (tls_error("invalid peer certificate: Expired"), DisconnectKind::TlsVerificationFailed),
        (error(XmppErrorKind::Tls, "handshake alert"), DisconnectKind::NetworkLost),
        (error(XmppErrorKind::StreamError, "policy violation"), DisconnectKind::ServerRefused),
        (error(XmppErrorKind::Io, "read timed out"), DisconnectKind::NetworkLost),
        (error(XmppErrorKind::Disconnected, "disconnected"), DisconnectKind::NetworkLost),
        (error(XmppErrorKind::Connection, "test connector error"), DisconnectKind::NetworkLost),
        (error(XmppErrorKind::Addr, "invalid socket address"), DisconnectKind::NetworkLost),
        (error(XmppErrorKind::ReconnectBudgetExhausted, "budget"), DisconnectKind::NetworkLost),
        (error(XmppErrorKind::InvalidState, "invalid state"), DisconnectKind::Unknown),
        (error(XmppErrorKind::Fmt, "fmt"), DisconnectKind::Unknown),
        (error(XmppErrorKind::Utf8, "utf8"), DisconnectKind::Unknown),
        (error(XmppErrorKind::Protocol, "no TLS"), DisconnectKind::Unknown),
    ];
    let mut covered: Vec<DisconnectKind> = cases.iter().map(|(_, kind)| *kind).collect();
    covered.sort();
    covered.dedup();
    assert_eq!(
        covered,
        vec![
            DisconnectKind::AuthenticationFailed,
            DisconnectKind::TlsVerificationFailed,
            DisconnectKind::ServerRefused,
            DisconnectKind::NetworkLost,
            DisconnectKind::Unknown,
        ]
    );
    for (failure, expected) in cases {
        assert_eq!(classify_disconnect(&failure), expected, "classify_disconnect({failure:?})");
    }
}

#[test]
fn terminal_failure_for_event_marks_tls_verification_non_recoverable() {
    let failure = terminal_failure_for_event(&ClientEvent::Disconnected(tls_error(
        "invalid peer certificate: UnknownIssuer",
    )))
    .expect("a disconnected first event is a terminal failure");
    assert!(!failure.recoverable, "TLS certificate failure must be non-recoverable");
    assert_eq!(failure.kind, DisconnectKind::TlsVerificationFailed);
}

#[test]
fn disconnect_kind_variant_set_is_stable() {
    let all = [
        DisconnectKind::AuthenticationFailed,
        DisconnectKind::TlsVerificationFailed,
        DisconnectKind::ServerRefused,
        DisconnectKind::NetworkLost,
        DisconnectKind::Cancelled,
        DisconnectKind::Unknown,
    ];
    for (index, kind) in all.iter().enumerate() {
        assert!(
            all.iter().enumerate().all(|(other_index, other)| index == other_index || kind != other),
            "every disconnect kind must be distinct"
        );
    }
}

#[test]
fn terminal_failure_for_event_ignores_non_terminal_first_events() {
    assert!(terminal_failure_for_event(&ClientEvent::Online {
        stream_management: false,
        domain: "example.org".to_owned(),
    })
    .is_none());
}

#[test]
fn mid_session_disconnect_recoverability_matches_connect_path() {
    assert!(disconnected_is_recoverable(&error(XmppErrorKind::AuthTemporary, "temporary-auth-failure")));
    assert!(!disconnected_is_recoverable(&error(XmppErrorKind::Auth, "not-authorized")));
    assert!(disconnected_is_recoverable(&error(XmppErrorKind::Io, "XMPP connection suspended")));
}

#[test]
fn reconnect_decision_keeps_polling_only_for_recoverable_loss_with_auto_reconnect() {
    let io_loss = || ClientEvent::Disconnected(error(XmppErrorKind::Io, "network loss"));
    let auth_failure = ClientEvent::Disconnected(error(XmppErrorKind::Auth, "not-authorized"));
    let budget_exhausted = ClientEvent::Disconnected(error(XmppErrorKind::ReconnectBudgetExhausted, "budget"));

    assert_eq!(reconnect_decision(&io_loss(), true), LoopAction::Keep);
    assert_eq!(reconnect_decision(&io_loss(), false), LoopAction::Stop);
    assert_eq!(reconnect_decision(&auth_failure, true), LoopAction::Stop);
    assert_eq!(reconnect_decision(&budget_exhausted, true), LoopAction::Stop);

    let online = ClientEvent::Online { stream_management: false, domain: "example.org".to_owned() };
    assert_eq!(reconnect_decision(&online, false), LoopAction::Keep);
    let stanza = ClientEvent::Message(IncomingMessage {
        message_type: IncomingMessageType::Chat,
        from: None,
        id: None,
        body: None,
        receipts: vec![],
        receipt_requested: false,
    });
    assert_eq!(reconnect_decision(&stanza, false), LoopAction::Keep);
}

#[test]
fn inbound_watchdog_is_stale_only_past_the_threshold() {
    let threshold = Duration::from_secs(180);
    assert!(!is_inbound_stale(Duration::ZERO, threshold));
    assert!(!is_inbound_stale(threshold, threshold), "exactly at the threshold is not stale");
    assert!(is_inbound_stale(threshold + Duration::from_millis(1), threshold));
    assert!(is_inbound_stale(Duration::from_secs(300), threshold));
}

#[test]
fn srv_candidates_order_by_priority_then_weight() {
    let candidate = |priority: u16, weight: u16, target: &str, port: u16| SrvCandidate {
        priority,
        weight,
        target: target.to_owned(),
        port,
    };
    let ordered = order_srv_candidates(vec![
        candidate(10, 1, "b.example.org", 5222),
        candidate(5, 50, "a.example.org", 5222),
        candidate(10, 100, "c.example.org", 5222),
        candidate(5, 90, "d.example.org", 5222),
    ]);
    assert_eq!(
        ordered,
        vec![
            candidate(5, 90, "d.example.org", 5222),
            candidate(5, 50, "a.example.org", 5222),
            candidate(10, 100, "c.example.org", 5222),
            candidate(10, 1, "b.example.org", 5222),
        ]
    );
}

#[test]
fn srv_ordering_keeps_equal_records_in_arrival_order() {
    let candidate = |target: &str| SrvCandidate { priority: 1, weight: 1, target: target.to_owned(), port: 5222 };
    assert_eq!(
        order_srv_candidates(vec![candidate("a"), candidate("b")]),
        vec![candidate("a"), candidate("b")]
    );
}

#[test]
fn connect_attempt_keeps_auth_failures_non_recoverable() {
    let auth = ConnectFailure {
        detail: "authentication error".to_owned(),
        recoverable: false,
        kind: DisconnectKind::AuthenticationFailed,
    };
    let network = ConnectFailure {
        detail: "connection to x timed out".to_owned(),
        recoverable: true,
        kind: DisconnectKind::NetworkLost,
    };
    assert!(
        matches!(terminal_if_auth(auth.clone()), Some(failure) if !failure.recoverable),
        "an auth failure must be returned as terminal"
    );
    assert!(terminal_if_auth(network).is_none(), "a recoverable failure must not short-circuit the candidate list");
}
