use mindchat_core::extension::{
    is_valid_extension_id, required_permission, ExtensionCommandError, ExtensionEvent,
    ExtensionManifest, ExtensionManifestError, ExtensionPermission, ExtensionPolicy,
    ExtensionPolicyError,
};
use mindchat_core::model::{CoreCommand, CoreEvent};

#[test]
fn manifest_requires_a_stable_reverse_domain_id() {
    let mut manifest = ExtensionManifest::new("quick-replies", "Quick replies", "1.0.0", &[]);
    assert_eq!(manifest.validate(), Err(ExtensionManifestError::InvalidId));

    manifest.id = "org.mindchat.quick-replies".to_owned();
    assert_eq!(manifest.validate(), Ok(()));

    manifest.id = "org.mindchat.quick-replies-".to_owned();
    assert_eq!(manifest.validate(), Err(ExtensionManifestError::InvalidId));
}

#[test]
fn permission_manifest_names_round_trip_and_reject_unknown_values() {
    assert_eq!(
        ExtensionPermission::from_manifest_name(ExtensionPermission::SendMessages.manifest_name()),
        Some(ExtensionPermission::SendMessages)
    );
    assert_eq!(ExtensionPermission::from_manifest_name("read_everything"), None);
}

#[test]
fn policy_filters_events_by_specific_observation_permissions() {
    let policy = ExtensionPolicy::new(
        ExtensionManifest::new(
            "org.mindchat.status-dot",
            "Status dot",
            "1.0.0",
            &[ExtensionPermission::ObserveMessageChanges, ExtensionPermission::ObserveRosterChanges],
        ),
        &[ExtensionPermission::ObserveMessageChanges, ExtensionPermission::ObserveRosterChanges],
    )
    .expect("manifest");
    let events = [
        CoreEvent::AccountChanged(1),
        CoreEvent::ConversationChanged(2),
        CoreEvent::MessageAdded(3),
        CoreEvent::MessageChanged(4),
        CoreEvent::RosterChanged(5),
    ];

    assert_eq!(
        policy.visible_events(&events),
        vec![
            ExtensionEvent::MessageAdded { message_id: 3 },
            ExtensionEvent::MessageChanged { message_id: 4 },
            ExtensionEvent::RosterChanged { account_id: 5 },
        ]
    );
}

#[test]
fn policy_denies_requested_commands_that_the_host_did_not_grant() {
    let policy = ExtensionPolicy::new(
        ExtensionManifest::new(
            "org.mindchat.status-dot",
            "Status dot",
            "1.0.0",
            &[ExtensionPermission::MarkConversationsRead],
        ),
        &[],
    )
    .expect("manifest");

    assert_eq!(
        policy.authorize_command(&CoreCommand::MarkConversationRead { conversation_id: 1 }),
        Err(ExtensionCommandError::PermissionDenied {
            extension_id: "org.mindchat.status-dot".to_owned(),
            permission: ExtensionPermission::MarkConversationsRead,
        })
    );
}

#[test]
fn policy_rejects_a_grant_that_the_manifest_did_not_request() {
    assert_eq!(
        ExtensionPolicy::new(
            ExtensionManifest::new("org.mindchat.status-dot", "Status dot", "1.0.0", &[]),
            &[ExtensionPermission::SendMessages],
        ),
        Err(ExtensionPolicyError::UndeclaredGrant {
            extension_id: "org.mindchat.status-dot".to_owned(),
            permission: ExtensionPermission::SendMessages,
        })
    );
}

#[test]
fn extension_ids_need_reverse_domain_segments() {
    assert!(is_valid_extension_id("org.mindchat.quick-replies"));
    assert!(!is_valid_extension_id("org"));
    assert!(!is_valid_extension_id("org..mindchat"));
    assert!(!is_valid_extension_id("Org.mindchat"));
}

#[test]
fn every_permission_name_round_trips() {
    for permission in [
        ExtensionPermission::ObserveAccountChanges,
        ExtensionPermission::ObserveRosterChanges,
        ExtensionPermission::ObserveConversationChanges,
        ExtensionPermission::ObserveMessageChanges,
        ExtensionPermission::SendMessages,
        ExtensionPermission::MarkConversationsRead,
        ExtensionPermission::AddReactions,
    ] {
        assert_eq!(ExtensionPermission::from_manifest_name(permission.manifest_name()), Some(permission));
    }
}

#[test]
fn mark_read_needs_the_mark_permission() {
    assert_eq!(
        required_permission(&CoreCommand::MarkConversationRead { conversation_id: 9 }),
        ExtensionPermission::MarkConversationsRead
    );
}
