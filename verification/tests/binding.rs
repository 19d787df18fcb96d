use mindchat_core::caps::{CapabilitySet, ProtocolCapability};
use mindchat_core::ffi::{
    diagnostics_report, to_proxy_config, FfiAccount, FfiConnectionState, FfiCoreEvent,
    FfiCoreSnapshot, FfiDisconnectKind, FfiProtocolCapability, FfiProxyConfig, FfiProxyKind,
    FfiRosterSubscription, MindChatBindingError, PersistenceTrack,
};
use mindchat_core::model::{
    Account, ConnectionState, CoreError, CoreEvent, CoreSnapshot, DisconnectKind,
    RosterSubscription,
};
use mindchat_core::persistence::{PersistenceError, StateFileMetadata};
use mindchat_core::proxy::ProxyKind;
use mindchat_core::transport::{SecretString, TransportError};

#[test]
fn registration_refusal_surfaces_as_ui_safe_connection_error() {
    let error = MindChatBindingError::from(TransportError::ConnectionFailed(
        "this server does not support in-band registration".to_owned(),
    ));
    assert_eq!(
        error,
        MindChatBindingError::ConnectionFailed {
            detail: "this server does not support in-band registration".to_owned(),
        }
    );
}

#[test]
fn ffi_disconnect_kind_maps_all_variants_both_ways() {
    let domain = [
        DisconnectKind::AuthenticationFailed,
        DisconnectKind::TlsVerificationFailed,
        DisconnectKind::ServerRefused,
        DisconnectKind::NetworkLost,
        DisconnectKind::Cancelled,
        DisconnectKind::Unknown,
    ];
    let ffi = [
        FfiDisconnectKind::AuthenticationFailed,
        FfiDisconnectKind::TlsVerificationFailed,
        FfiDisconnectKind::ServerRefused,
        FfiDisconnectKind::NetworkLost,
        FfiDisconnectKind::Cancelled,
        FfiDisconnectKind::Unknown,
    ];
    assert_eq!(domain.len(), ffi.len(), "the domain and FFI enums stay in lockstep");
    for (domain_kind, ffi_kind) in domain.into_iter().zip(ffi) {
        assert_eq!(FfiDisconnectKind::from(domain_kind), ffi_kind);
        assert_eq!(DisconnectKind::from(ffi_kind), domain_kind);
    }
}

fn failed_account() -> Account {
    Account {
        id: 7,
        jid: "alice@example.org".to_owned(),
        server: "example.org".to_owned(),
        display_name: "Alice".to_owned(),
        connection_state: ConnectionState::Failed,
        capabilities: CapabilitySet::new(),
        connection_error: Some("not authorized".to_owned()),
        disconnect_kind: Some(DisconnectKind::AuthenticationFailed),
        auto_reconnect: true,
        proxies: Vec::new(),
    }
}

#[test]
fn account_projection_carries_the_disconnect_kind() {
    let ffi: FfiAccount = FfiAccount::from_account(failed_account());
    assert_eq!(ffi.connection_state, FfiConnectionState::Failed);
    assert_eq!(ffi.connection_error.as_deref(), Some("not authorized"));
    assert_eq!(ffi.disconnect_kind, Some(FfiDisconnectKind::AuthenticationFailed));
}

#[test]
fn account_projection_lists_capabilities_in_declaration_order() {
    let mut account = failed_account();
    account.capabilities =
        CapabilitySet::from_slice(&[ProtocolCapability::Receipts, ProtocolCapability::MultiUserChat]);
    let ffi = FfiAccount::from_account(account);
    assert_eq!(ffi.capabilities, vec![FfiProtocolCapability::MultiUserChat, FfiProtocolCapability::Receipts]);
}

#[test]
fn transport_errors_map_to_binding_errors() {
    assert_eq!(
        MindChatBindingError::from(TransportError::AuthenticationFailed),
        MindChatBindingError::AuthenticationFailed
    );
    assert_eq!(
        MindChatBindingError::from(TransportError::TlsVerification("expired".to_owned())),
        MindChatBindingError::ConnectionFailed { detail: "expired".to_owned() }
    );
    assert_eq!(
        MindChatBindingError::from(TransportError::ProtocolViolation("bad".to_owned())),
        MindChatBindingError::InvalidInput { detail: "bad".to_owned() }
    );
    assert_eq!(
        MindChatBindingError::from(TransportError::Unsupported("busy".to_owned())),
        MindChatBindingError::Internal { detail: "busy".to_owned() }
    );
}

#[test]
fn domain_errors_map_without_exposing_internal_types() {
    assert!(matches!(
        MindChatBindingError::from_core_error(CoreError::InvalidJid),
        MindChatBindingError::InvalidInput { .. }
    ));
    assert!(matches!(
        MindChatBindingError::from_core_error(CoreError::UnknownAccount(3)),
        MindChatBindingError::NotFound { .. }
    ));
    assert_eq!(
        MindChatBindingError::from_core_error(CoreError::CapabilityUnavailable(
            ProtocolCapability::MessageReactions
        )),
        MindChatBindingError::CapabilityUnavailable {
            capability: FfiProtocolCapability::MessageReactions
        }
    );
    assert_eq!(
        MindChatBindingError::from_core_error(CoreError::UnknownAccount(3)).message(),
        CoreError::UnknownAccount(3).message()
    );
}

#[test]
fn persistence_errors_are_internal_with_their_text() {
    assert_eq!(
        MindChatBindingError::from_persistence_error(PersistenceError::UnsupportedVersion(99)),
        MindChatBindingError::Internal { detail: "unsupported state schema version 99".to_owned() }
    );
    assert_eq!(
        MindChatBindingError::from_persistence_error(PersistenceError::TooLarge(20)),
        MindChatBindingError::Internal { detail: "state file too large: 20 bytes".to_owned() }
    );
}

#[test]
fn proxy_config_conversion_validates_and_round_trips() {
    let config = FfiProxyConfig { host: "127.0.0.1".to_owned(), port: 1080, kind: FfiProxyKind::Socks5 };
    let domain = to_proxy_config(&config).expect("valid proxy");
    assert_eq!(domain.kind, ProxyKind::Socks5);
    assert_eq!(FfiProxyConfig::from(domain), config);

    let invalid = FfiProxyConfig { host: "bad host".to_owned(), port: 1080, kind: FfiProxyKind::HttpConnect };
    assert!(matches!(to_proxy_config(&invalid), Err(MindChatBindingError::InvalidInput { .. })));
    let zero = FfiProxyConfig { host: "proxy".to_owned(), port: 0, kind: FfiProxyKind::HttpConnect };
    assert!(matches!(to_proxy_config(&zero), Err(MindChatBindingError::InvalidInput { .. })));
}

#[test]
fn roster_subscription_maps_both_ways() {
    assert_eq!(FfiRosterSubscription::from(RosterSubscription::Neither), FfiRosterSubscription::Neither);
    assert_eq!(RosterSubscription::from(FfiRosterSubscription::PendingOutbound), RosterSubscription::PendingOutbound);
    assert_eq!(FfiCoreEvent::from(CoreEvent::MessageAdded(5)), FfiCoreEvent::MessageAdded { message_id: 5 });
}

#[test]
fn snapshot_projection_keeps_every_record() {
    let snapshot = CoreSnapshot {
        accounts: vec![failed_account()],
        contacts: vec![],
        conversations: vec![],
        messages: vec![],
        reactions: vec![],
    };
    let ffi = FfiCoreSnapshot::from_snapshot(snapshot);
    assert_eq!(ffi.accounts.len(), 1);
    assert_eq!(ffi.accounts[0].id, 7);
}

#[test]
fn diagnostics_report_tracks_save_and_load_metadata() {
    let mut track = PersistenceTrack::new();
    let empty = CoreSnapshot::default();
    let report = diagnostics_report(&empty, &track);
    assert_eq!(report.state_path, None);
    assert!(!report.state_quarantined);

    track.record_save("/data/state.json".to_owned(), Some(120), 1_000);
    let report = diagnostics_report(&empty, &track);
    assert_eq!(report.state_path.as_deref(), Some("/data/state.json"));
    assert_eq!(report.state_size_bytes, Some(120));
    assert_eq!(report.state_schema_version, Some(1));
    assert_eq!(report.state_last_saved_at_epoch_ms, Some(1_000));

    track.record_load_success(
        "/data/state.json".to_owned(),
        StateFileMetadata { size_bytes: 130, schema_version: 1 },
        2_000,
    );
    let report = diagnostics_report(&empty, &track);
    assert_eq!(report.state_size_bytes, Some(130));
    assert_eq!(report.state_last_loaded_at_epoch_ms, Some(2_000));
}

#[test]
fn diagnostics_report_flags_quarantined_load_failure() {
    let mut track = PersistenceTrack::new();
    track.record_load_failure("/data/state.json".to_owned(), &PersistenceError::Corrupt("eof".to_owned()), Some(3), 5);
    let report = diagnostics_report(&CoreSnapshot::default(), &track);
    assert!(report.state_quarantined);
    assert_eq!(report.state_size_bytes, Some(3));
    assert_eq!(report.state_schema_version, None);
}

#[test]
fn diagnostics_report_records_unsupported_version_on_quarantine() {
    let mut track = PersistenceTrack::new();
    track.record_load_failure("/data/state.json".to_owned(), &PersistenceError::UnsupportedVersion(99), None, 5);
    let report = diagnostics_report(&CoreSnapshot::default(), &track);
    assert!(report.state_quarantined);
    assert_eq!(report.state_schema_version, Some(99));
}

#[test]
fn diagnostics_report_counts_current_snapshot_records() {
    let snapshot = CoreSnapshot {
        accounts: vec![failed_account()],
        contacts: vec![],
        conversations: vec![],
        messages: vec![],
        reactions: vec![],
    };
    let report = diagnostics_report(&snapshot, &PersistenceTrack::new());
    assert_eq!(report.account_count, 1);
    assert_eq!(report.message_count, 0);
}

#[test]
fn secret_debug_output_is_redacted() {
    let secret = SecretString::new("not-for-logs");
    assert_eq!(secret.debug_text(), "SecretString([redacted])");
}

#[test]
fn proxy_kind_maps_both_ways() {
    assert_eq!(ProxyKind::from(FfiProxyKind::HttpConnect), ProxyKind::HttpConnect);
    assert_eq!(FfiProxyKind::from(ProxyKind::Socks5), FfiProxyKind::Socks5);
    assert_eq!(ConnectionState::from(FfiConnectionState::Online), ConnectionState::Online);
}
