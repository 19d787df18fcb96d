use mindchat_core::caps::{CapabilitySet, ProtocolCapability};
use mindchat_core::model::{
    Account, ConnectionState, Contact, ContactPresence, CoreSnapshot, DisconnectKind,
    RosterSubscription,
};
use mindchat_core::persistence::{
    check_state_size, persisted_for_save, restore_persisted, sanitize_snapshot, PersistedState,
    PersistenceError, StateFileMetadata, CURRENT_SCHEMA_VERSION, MAX_STATE_FILE_BYTES,
};

fn live_snapshot() -> CoreSnapshot {
    CoreSnapshot {
        accounts: vec![Account {
            id: 1,
            jid: "alice@example.org".to_owned(),
            server: "example.org".to_owned(),
            display_name: "Alice".to_owned(),
            connection_state: ConnectionState::Failed,
            capabilities: CapabilitySet::from_slice(&[ProtocolCapability::Receipts]),
            connection_error: Some("boom".to_owned()),
            disconnect_kind: Some(DisconnectKind::NetworkLost),
            auto_reconnect: false,
            proxies: vec![],
        }],
        contacts: vec![Contact {
            account_id: 1,
            jid: "bob@example.org".to_owned(),
            display_name: "Bob".to_owned(),
            presence: ContactPresence::Online,
            status: Some("Ready".to_owned()),
            subscription: RosterSubscription::Mutual,
        }],
        conversations: vec![],
        messages: vec![],
        reactions: vec![],
    }
}

#[test]
fn load_state_sanitizes_session_ephemera() {
    let loaded = sanitize_snapshot(live_snapshot());
    assert_eq!(loaded.accounts[0].connection_state, ConnectionState::Offline);
    assert!(loaded.accounts[0].capabilities.is_empty());
    assert_eq!(loaded.accounts[0].connection_error, None);
    assert_eq!(loaded.accounts[0].disconnect_kind, None);
    assert!(!loaded.accounts[0].auto_reconnect);
    assert_eq!(loaded.accounts[0].display_name, "Alice");
    assert_eq!(loaded.contacts[0].presence, ContactPresence::Offline);
    assert_eq!(loaded.contacts[0].status, None);
    assert_eq!(loaded.contacts[0].subscription, RosterSubscription::Mutual);
}

#[test]
fn sanitizing_twice_changes_nothing_more() {
    let once = sanitize_snapshot(live_snapshot());
    let twice = sanitize_snapshot(once.clone());
    assert_eq!(once, twice);
}

#[test]
fn load_state_rejects_unsupported_schema_version() {
    let persisted = PersistedState { schema_version: 99, snapshot: live_snapshot() };
    assert!(matches!(restore_persisted(persisted, 10), Err(PersistenceError::UnsupportedVersion(99))));
}

#[test]
fn load_state_with_metadata_reports_size_and_version_without_content() {
    let persisted = persisted_for_save(&live_snapshot());
    assert_eq!(persisted.schema_version, CURRENT_SCHEMA_VERSION);
    let (snapshot, metadata) = restore_persisted(persisted, 321).expect("current schema");
    assert_eq!(metadata, StateFileMetadata { size_bytes: 321, schema_version: CURRENT_SCHEMA_VERSION });
    assert_eq!(snapshot.accounts.len(), 1);
}

#[test]
fn load_state_rejects_oversized_file() {
    assert_eq!(check_state_size(MAX_STATE_FILE_BYTES), Ok(()));
    assert_eq!(
        check_state_size(MAX_STATE_FILE_BYTES + 1),
        Err(PersistenceError::TooLarge(MAX_STATE_FILE_BYTES + 1))
    );
}

#[test]
fn persistence_errors_render_ui_safe_messages() {
    assert_eq!(PersistenceError::Corrupt("eof".to_owned()).message(), "corrupt state file: eof");
    assert_eq!(PersistenceError::UnsupportedVersion(2).message(), "unsupported state schema version 2");
    assert_eq!(PersistenceError::TooLarge(5).message(), "state file too large: 5 bytes");
}
