use mindchat_core::caps::{CapabilitySet, ProtocolCapability};
use mindchat_core::coordinator::{
    flush_continues, TransportCoordinator, TransportCoordinatorError, FLUSH_OUTBOX_MAX_BATCH,
    FLUSH_SEND_TIMEOUT_MS,
};
use mindchat_core::extension::{
    ExtensionCommandError, ExtensionManifest, ExtensionPermission, ExtensionPolicy,
};
use mindchat_core::model::{
    AccountId, AccountSetup, ConnectionState, Contact, ContactPresence, ConversationKind,
    CoreCommand, CoreError, CoreEvent, DeliveryState, DisconnectKind, RosterSubscription,
};
use mindchat_core::state::MindChatCore;
use mindchat_core::store::{CoreStore, InMemoryStore};
use mindchat_core::transport::{
    ConnectionRequest, OutgoingMessage, SecretString, TransportError, TransportEvent, XmppTransport,
};
use std::collections::VecDeque;

#[derive(Default)]
struct FakeTransport {
    connection_requests: Vec<ConnectionRequest>,
    disconnected_accounts: Vec<AccountId>,
    sent_messages: Vec<OutgoingMessage>,
    events: VecDeque<TransportEvent>,
    fail_next_send: bool,
}

impl XmppTransport for FakeTransport {
    fn connect(&mut self, request: ConnectionRequest) -> Result<(), TransportError> {
        self.connection_requests.push(request);
        Ok(())
    }

    fn disconnect(&mut self, account_id: AccountId) -> Result<(), TransportError> {
        self.disconnected_accounts.push(account_id);
        Ok(())
    }

    fn send(&mut self, message: OutgoingMessage) -> Result<(), TransportError> {
        if self.fail_next_send {
            self.fail_next_send = false;
            return Err(TransportError::ConnectionFailed("temporary failure".to_owned()));
        }
        self.sent_messages.push(message);
        Ok(())
    }

    fn next_event(&mut self) -> Result<Option<TransportEvent>, TransportError> {
        Ok(self.events.pop_front())
    }
}

fn caps(items: &[ProtocolCapability]) -> CapabilitySet {
    CapabilitySet::from_slice(items)
}

fn account(core: &mut MindChatCore) -> AccountId {
    core.add_account(AccountSetup::new("alice@example.org", "example.org", "Alice"))
        .expect("test account is valid")
}

#[test]
fn duplicate_connected_events_are_idempotent() {
    let mut core = MindChatCore::default();
    let account_id = account(&mut core);
    core.apply_transport_event(TransportEvent::Connected {
        account_id,
        capabilities: caps(&[ProtocolCapability::Receipts]),
    })
    .expect("first connected applies");
    assert_eq!(core.accounts()[0].connection_state, ConnectionState::Online);

    core.apply_transport_event(TransportEvent::Connected {
        account_id,
        capabilities: caps(&[ProtocolCapability::Receipts, ProtocolCapability::StreamManagement]),
    })
    .expect("duplicate connected applies");
    assert_eq!(core.accounts()[0].connection_state, ConnectionState::Online);
    assert_eq!(
        core.accounts()[0].capabilities,
        caps(&[ProtocolCapability::Receipts, ProtocolCapability::StreamManagement])
    );
    assert_eq!(core.accounts()[0].connection_error, None);
}

#[test]
fn rejects_invalid_account_identifiers() {
    let mut core = MindChatCore::default();
    assert_eq!(
        core.add_account(AccountSetup::new("alice", "example.org", "Alice")),
        Err(CoreError::InvalidJid)
    );
    assert_eq!(
        core.add_account(AccountSetup::new("alice@example.org", "bad host", "Alice")),
        Err(CoreError::InvalidServer)
    );
    assert_eq!(
        core.add_account(AccountSetup::new("alice@example.org/mobile", "example.org", "Alice")),
        Err(CoreError::InvalidJid)
    );
}

#[test]
fn accounts_start_without_undiscovered_optional_capabilities() {
    let mut core = MindChatCore::default();
    let account_id = account(&mut core);
    assert_eq!(core.accounts()[0].id, account_id);
    assert!(core.accounts()[0].capabilities.is_empty());
}

#[test]
fn roster_contacts_are_account_scoped_normalized_and_snapshot_safe() {
    let mut core = MindChatCore::default();
    let alice = account(&mut core);
    let mila = core
        .add_account(AccountSetup::new("mila@example.net", "example.net", "Mila"))
        .expect("second account");
    core.drain_events();

    core.upsert_contact(alice, "bob@example.org", " Bob ", ContactPresence::Online, Some(" Ready ".to_owned()))
        .expect("contact");
    core.upsert_contact(alice, "bob@example.org", "", ContactPresence::Away, Some("   ".to_owned()))
        .expect("updated contact");
    core.upsert_contact(mila, "bob@example.org", "Bobby", ContactPresence::Offline, None)
        .expect("account-scoped contact");

    assert_eq!(
        core.contacts(alice),
        vec![Contact {
            account_id: alice,
            jid: "bob@example.org".to_owned(),
            display_name: "bob".to_owned(),
            presence: ContactPresence::Away,
            status: None,
            subscription: RosterSubscription::Neither,
        }]
    );
    assert_eq!(core.contacts(mila)[0].display_name, "Bobby");
    assert_eq!(
        core.drain_events(),
        vec![CoreEvent::RosterChanged(alice), CoreEvent::RosterChanged(alice), CoreEvent::RosterChanged(mila)]
    );

    let restored = MindChatCore::from_snapshot(core.snapshot());
    assert_eq!(restored.contacts(alice)[0].presence, ContactPresence::Away);
    assert_eq!(restored.contacts(mila)[0].jid, "bob@example.org");
}

#[test]
fn roster_contact_rejects_unknown_accounts_and_invalid_jids() {
    let mut core = MindChatCore::default();
    assert_eq!(
        core.upsert_contact(99, "bob@example.org", "Bob", ContactPresence::Offline, None),
        Err(CoreError::UnknownAccount(99))
    );
    let account_id = account(&mut core);
    assert_eq!(
        core.upsert_contact(account_id, "not-a-jid", "Bob", ContactPresence::Offline, None),
        Err(CoreError::InvalidJid)
    );
}

#[test]
fn server_roster_and_presence_events_preserve_subscription_state() {
    let mut core = MindChatCore::default();
    let account_id = account(&mut core);
    core.drain_events();

    core.apply_transport_event(TransportEvent::RosterContactUpsert {
        account_id,
        jid: "bob@example.org".to_owned(),
        display_name: " Bob ".to_owned(),
        subscription: RosterSubscription::Mutual,
    })
    .expect("roster item");
    core.apply_transport_event(TransportEvent::ContactPresenceUpdated {
        account_id,
        jid: "bob@example.org".to_owned(),
        presence: ContactPresence::DoNotDisturb,
        status: Some(" Busy ".to_owned()),
    })
    .expect("presence item");
    core.apply_transport_event(TransportEvent::ContactPresenceUpdated {
        account_id,
        jid: "directed@example.org".to_owned(),
        presence: ContactPresence::Online,
        status: None,
    })
    .expect("directed presence is ignored");

    assert_eq!(
        core.contacts(account_id),
        vec![Contact {
            account_id,
            jid: "bob@example.org".to_owned(),
            display_name: "Bob".to_owned(),
            presence: ContactPresence::DoNotDisturb,
            status: Some("Busy".to_owned()),
            subscription: RosterSubscription::Mutual,
        }]
    );

    core.apply_transport_event(TransportEvent::RosterContactRemoved {
        account_id,
        jid: "bob@example.org".to_owned(),
    })
    .expect("roster removal");
    assert!(core.contacts(account_id).is_empty());
}

#[test]
fn rejects_invalid_conversation_address_and_cross_conversation_reply() {
    let mut core = MindChatCore::default();
    let account_id = account(&mut core);
    assert_eq!(
        core.open_conversation(account_id, ConversationKind::Direct, "not-a-jid", "Bob", 1),
        Err(CoreError::InvalidConversationAddress)
    );
    let first_conversation = core
        .open_conversation(account_id, ConversationKind::Direct, "bob@example.org", "Bob", 1)
        .expect("first conversation");
    let second_conversation = core
        .open_conversation(account_id, ConversationKind::Direct, "mila@example.org", "Mila", 2)
        .expect("second conversation");
    let message_id = core
        .send_text(first_conversation, "alice@example.org", "hello", None, 3)
        .expect("message");
    assert_eq!(
        core.send_text(second_conversation, "alice@example.org", "wrong reply", Some(message_id), 4),
        Err(CoreError::InvalidReplyTarget)
    );
}

#[test]
fn capability_gates_reactions() {
    let mut core = MindChatCore::default();
    let account_id = account(&mut core);
    let conversation_id = core
        .open_conversation(account_id, ConversationKind::Direct, "bob@example.org", "Bob", 1)
        .expect("conversation");
    let message_id = core.send_text(conversation_id, "alice@example.org", "hello", None, 2).expect("message");
    core.set_capabilities(account_id, &[]).expect("account");
    assert_eq!(
        core.add_reaction(message_id, "alice@example.org", "👍"),
        Err(CoreError::CapabilityUnavailable(ProtocolCapability::MessageReactions))
    );
}

#[test]
fn preserves_message_order_and_transitions_delivery() {
    let mut core = MindChatCore::default();
    let account_id = account(&mut core);
    let conversation_id = core
        .open_conversation(account_id, ConversationKind::Direct, "bob@example.org", "Bob", 1)
        .expect("conversation");
    let first = core.send_text(conversation_id, "alice@example.org", "hello", None, 2).expect("send");
    let second = core.send_text(conversation_id, "alice@example.org", "again", Some(first), 3).expect("send");

    core.set_delivery_state(first, DeliveryState::Delivered).expect("state");
    let messages = core.messages(conversation_id);
    assert_eq!(messages.iter().map(|message| message.id).collect::<Vec<_>>(), [first, second]);
    assert_eq!(messages[0].delivery_state, DeliveryState::Delivered);
    assert_eq!(messages[1].in_reply_to, Some(first));
}

#[test]
fn capability_gates_group_chats() {
    let mut core = MindChatCore::default();
    let account_id = account(&mut core);
    core.set_capabilities(account_id, &[]).expect("account exists");
    assert_eq!(
        core.open_conversation(account_id, ConversationKind::MultiUserChat, "room@example.org", "Room", 1),
        Err(CoreError::CapabilityUnavailable(ProtocolCapability::MultiUserChat))
    );
}

#[test]
fn incoming_messages_increment_and_read_clears_unread_count() {
    let mut core = MindChatCore::default();
    let account_id = account(&mut core);
    let conversation_id = core
        .open_conversation(account_id, ConversationKind::Direct, "bob@example.org", "Bob", 1)
        .expect("conversation");
    core.receive_text(conversation_id, "bob@example.org", "ping", 2).expect("receive");
    assert_eq!(core.conversations(account_id)[0].unread_count, 1);
    core.mark_conversation_read(conversation_id).expect("read");
    assert_eq!(core.conversations(account_id)[0].unread_count, 0);
}

#[test]
fn addressed_incoming_text_creates_the_direct_conversation_once() {
    let mut core = MindChatCore::default();
    let account_id = account(&mut core);
    core.drain_events();
    let first = core
        .apply_transport_event(TransportEvent::IncomingText {
            account_id,
            kind: ConversationKind::Direct,
            address: "bob@example.org".to_owned(),
            sender: "bob@example.org".to_owned(),
            body: "first".to_owned(),
            received_at_epoch_ms: 10,
        })
        .expect("incoming text")
        .expect("message ID");
    let second = core
        .apply_transport_event(TransportEvent::IncomingText {
            account_id,
            kind: ConversationKind::Direct,
            address: "bob@example.org".to_owned(),
            sender: "bob@example.org".to_owned(),
            body: "second".to_owned(),
            received_at_epoch_ms: 20,
        })
        .expect("incoming text")
        .expect("message ID");
    let conversations = core.conversations(account_id);
    assert_eq!(conversations.len(), 1);
    assert_eq!(conversations[0].title, "bob");
    assert_eq!(conversations[0].unread_count, 2);
    assert_eq!(
        core.messages(conversations[0].id).iter().map(|message| message.id).collect::<Vec<_>>(),
        [first, second]
    );
}

#[test]
fn snapshot_round_trip_keeps_stable_ids() {
    let mut original = MindChatCore::default();
    let account_id = account(&mut original);
    original.set_capabilities(account_id, &[ProtocolCapability::MessageReactions]).expect("capabilities");
    let conversation_id = original
        .open_conversation(account_id, ConversationKind::Direct, "bob@example.org", "Bob", 1)
        .expect("conversation");
    let message_id = original.send_text(conversation_id, "alice@example.org", "hello", None, 2).expect("message");
    original.add_reaction(message_id, "bob@example.org", "👍").expect("reaction");

    let restored = MindChatCore::from_snapshot(original.snapshot());
    assert_eq!(restored.accounts()[0].id, account_id);
    assert_eq!(restored.messages(conversation_id)[0].id, message_id);
    assert_eq!(restored.reactions(message_id)[0].emoji, "👍");
}

#[test]
fn scoped_receipts_ignore_unknown_foreign_and_non_direct_messages() {
    let mut core = MindChatCore::default();
    let account_id = account(&mut core);
    let other_account = core
        .add_account(AccountSetup::new("mila@example.net", "example.net", "Mila"))
        .expect("second account");
    let conversation_id = core
        .open_conversation(account_id, ConversationKind::Direct, "bob@example.org", "Bob", 1)
        .expect("conversation");
    let message_id = core.send_text(conversation_id, "alice@example.org", "queued", None, 2).expect("message");
    core.drain_events();

    for event in [
        TransportEvent::DeliveryUpdated {
            account_id,
            sender: "mallory@example.org".to_owned(),
            message_id,
            state: DeliveryState::Delivered,
        },
        TransportEvent::DeliveryUpdated {
            account_id: other_account,
            sender: "bob@example.org".to_owned(),
            message_id,
            state: DeliveryState::Delivered,
        },
        TransportEvent::DeliveryUpdated {
            account_id,
            sender: "bob@example.org".to_owned(),
            message_id: 999_999,
            state: DeliveryState::Delivered,
        },
        TransportEvent::DeliveryUpdated {
            account_id,
            sender: "bob@example.org".to_owned(),
            message_id,
            state: DeliveryState::Delivered,
        },
    ] {
        assert_eq!(core.apply_transport_event(event), Ok(None));
    }
    assert_eq!(core.messages(conversation_id)[0].delivery_state, DeliveryState::Delivered);

    core.set_capabilities(account_id, &[ProtocolCapability::MultiUserChat]).expect("capabilities");
    let room = core
        .open_conversation(account_id, ConversationKind::MultiUserChat, "room@example.org", "Room", 3)
        .expect("groupchat");
    let group_message = core.send_text(room, "alice@example.org", "group", None, 4).expect("group message");
    assert_eq!(
        core.apply_transport_event(TransportEvent::DeliveryUpdated {
            account_id,
            sender: "room@example.org".to_owned(),
            message_id: group_message,
            state: DeliveryState::Delivered,
        }),
        Ok(None)
    );
    assert_eq!(core.messages(room)[0].delivery_state, DeliveryState::Pending);
}

#[test]
fn transport_events_project_connection_incoming_messages_and_receipts() {
    let mut core = MindChatCore::default();
    let account_id = account(&mut core);
    let conversation_id = core
        .open_conversation(account_id, ConversationKind::Direct, "bob@example.org", "Bob", 1)
        .expect("conversation");
    let outgoing_id = core.send_text(conversation_id, "alice@example.org", "queued", None, 2).expect("queued message");
    core.drain_events();

    assert_eq!(
        core.apply_transport_event(TransportEvent::Connected {
            account_id,
            capabilities: caps(&[ProtocolCapability::Receipts]),
        }),
        Ok(None)
    );
    assert_eq!(core.accounts()[0].connection_state, ConnectionState::Online);
    assert_eq!(core.accounts()[0].capabilities, caps(&[ProtocolCapability::Receipts]));

    assert_eq!(
        core.apply_transport_event(TransportEvent::DeliveryUpdated {
            account_id,
            sender: "bob@example.org".to_owned(),
            message_id: outgoing_id,
            state: DeliveryState::Sent,
        }),
        Ok(None)
    );
    let incoming_id = core
        .apply_transport_event(TransportEvent::IncomingText {
            account_id,
            kind: ConversationKind::Direct,
            address: "bob@example.org".to_owned(),
            sender: "bob@example.org".to_owned(),
            body: "received".to_owned(),
            received_at_epoch_ms: 3,
        })
        .expect("incoming event")
        .expect("incoming message id");
    assert_eq!(core.messages(conversation_id)[1].id, incoming_id);
    assert_eq!(core.conversations(account_id)[0].unread_count, 1);

    assert_eq!(
        core.apply_transport_event(TransportEvent::Disconnected {
            account_id,
            recoverable: false,
            detail: Some("not authorized".to_owned()),
            kind: DisconnectKind::AuthenticationFailed,
        }),
        Ok(None)
    );
    assert_eq!(core.accounts()[0].connection_state, ConnectionState::Failed);
    assert_eq!(core.accounts()[0].connection_error.as_deref(), Some("not authorized"));
    assert_eq!(core.accounts()[0].disconnect_kind, Some(DisconnectKind::AuthenticationFailed));
}

#[test]
fn queued_outgoing_messages_survive_snapshot_restore_and_are_account_scoped() {
    let mut original = MindChatCore::default();
    let alice = account(&mut original);
    let bob = original
        .add_account(AccountSetup::new("mila@example.net", "example.net", "Mila"))
        .expect("second account");
    let alice_conversation = original
        .open_conversation(alice, ConversationKind::Direct, "bob@example.org", "Bob", 1)
        .expect("alice conversation");
    let bob_conversation = original
        .open_conversation(bob, ConversationKind::Direct, "nina@example.net", "Nina", 2)
        .expect("mila conversation");
    let first = original.send_text(alice_conversation, "alice@example.org", "first", None, 3).expect("first message");
    let second = original
        .send_text(alice_conversation, "alice@example.org", "second", Some(first), 4)
        .expect("second message");
    original.send_text(bob_conversation, "mila@example.net", "other", None, 5).expect("other account message");
    original.set_delivery_state(first, DeliveryState::Sent).expect("receipt");

    let restored = MindChatCore::from_snapshot(original.snapshot());
    let queued = restored.pending_outgoing_messages(alice).expect("alice outbox");
    assert_eq!(queued.len(), 1);
    assert_eq!(queued[0].message_id, second);
    assert_eq!(queued[0].recipient, "bob@example.org");
    assert_eq!(queued[0].in_reply_to, Some(first));
    assert_eq!(restored.pending_outgoing_messages(bob).expect("mila outbox").len(), 1);
    assert_eq!(restored.pending_outgoing_messages(99), Err(CoreError::UnknownAccount(99)));
}

#[test]
fn extension_commands_are_permissioned_and_attributed_to_the_owning_account() {
    let mut core = MindChatCore::default();
    let account_id = account(&mut core);
    let conversation_id = core
        .open_conversation(account_id, ConversationKind::Direct, "bob@example.org", "Bob", 1)
        .expect("conversation");
    let denied_policy = ExtensionPolicy::new(
        ExtensionManifest::new("org.mindchat.read-marker", "Read marker", "1.0.0", &[ExtensionPermission::SendMessages]),
        &[],
    )
    .expect("manifest");
    assert_eq!(
        core.execute_extension_command(
            &denied_policy,
            CoreCommand::SendText { conversation_id, body: "blocked".to_owned(), in_reply_to: None },
            2,
        ),
        Err(ExtensionCommandError::PermissionDenied {
            extension_id: "org.mindchat.read-marker".to_owned(),
            permission: ExtensionPermission::SendMessages,
        })
    );
    assert!(core.messages(conversation_id).is_empty());

    let allowed_policy = ExtensionPolicy::new(
        ExtensionManifest::new(
            "org.mindchat.quick-replies",
            "Quick replies",
            "1.0.0",
            &[ExtensionPermission::SendMessages],
        ),
        &[ExtensionPermission::SendMessages],
    )
    .expect("manifest");
    let message_id = core
        .execute_extension_command(
            &allowed_policy,
            CoreCommand::SendText { conversation_id, body: "hello from an extension".to_owned(), in_reply_to: None },
            3,
        )
        .expect("command")
        .expect("message id");
    assert_eq!(core.messages(conversation_id)[0].id, message_id);
    assert_eq!(core.messages(conversation_id)[0].sender, "alice@example.org");
}

#[test]
fn extension_commands_still_obey_server_capability_gates() {
    let mut core = MindChatCore::default();
    let account_id = account(&mut core);
    let conversation_id = core
        .open_conversation(account_id, ConversationKind::Direct, "bob@example.org", "Bob", 1)
        .expect("conversation");
    let message_id = core.send_text(conversation_id, "alice@example.org", "hello", None, 2).expect("message");
    let policy = ExtensionPolicy::new(
        ExtensionManifest::new("org.mindchat.reactor", "Reactor", "1.0.0", &[ExtensionPermission::AddReactions]),
        &[ExtensionPermission::AddReactions],
    )
    .expect("manifest");
    assert_eq!(
        core.execute_extension_command(&policy, CoreCommand::AddReaction { message_id, emoji: "👍".to_owned() }, 3),
        Err(ExtensionCommandError::Core(CoreError::CapabilityUnavailable(ProtocolCapability::MessageReactions)))
    );
}

#[test]
fn coordinator_connects_flushes_retries_and_projects_transport_events() {
    let mut core = MindChatCore::default();
    let account_id = account(&mut core);
    let conversation_id = core
        .open_conversation(account_id, ConversationKind::Direct, "bob@example.org", "Bob", 1)
        .expect("conversation");
    let first = core.send_text(conversation_id, "alice@example.org", "first", None, 2).expect("first queued message");
    let second = core
        .send_text(conversation_id, "alice@example.org", "second", Some(first), 3)
        .expect("second queued message");
    let mut coordinator = TransportCoordinator::new(core, FakeTransport::default());

    coordinator.connect(account_id, SecretString::new("not-persisted")).expect("connect request");
    assert_eq!(coordinator.core_ref().accounts()[0].connection_state, ConnectionState::Connecting);
    assert_eq!(coordinator.transport().connection_requests.len(), 1);
    assert_eq!(coordinator.transport().connection_requests[0].password.debug_text(), "SecretString([redacted])");

    coordinator.transport_mut().events.push_back(TransportEvent::Connected {
        account_id,
        capabilities: caps(&[ProtocolCapability::Receipts]),
    });
    assert!(coordinator.poll_next_event().expect("connected event"));
    assert_eq!(coordinator.core_ref().accounts()[0].connection_state, ConnectionState::Online);

    assert_eq!(coordinator.flush_outbox(account_id).expect("outbox flush"), 2);
    assert_eq!(
        coordinator.transport().sent_messages.iter().map(|message| message.message_id).collect::<Vec<_>>(),
        [first, second]
    );
    assert!(coordinator.core_ref().pending_outgoing_messages(account_id).expect("empty outbox").is_empty());

    let retry = coordinator
        .core_mut()
        .send_text(conversation_id, "alice@example.org", "retry", None, 4)
        .expect("retry message");
    coordinator.transport_mut().fail_next_send = true;
    assert!(matches!(
        coordinator.flush_outbox(account_id),
        Err(TransportCoordinatorError::Transport(TransportError::ConnectionFailed(_)))
    ));
    assert_eq!(coordinator.core_ref().messages(conversation_id)[2].delivery_state, DeliveryState::Failed);
    assert_eq!(
        coordinator.core_ref().pending_outgoing_messages(account_id).expect("retry outbox")[0].message_id,
        retry
    );

    coordinator.disconnect(account_id).expect("disconnect");
    assert_eq!(coordinator.transport().disconnected_accounts, [account_id]);
    assert_eq!(coordinator.core_ref().accounts()[0].connection_state, ConnectionState::Offline);
}

#[test]
fn malformed_roster_event_is_skipped_without_creating_a_contact() {
    let mut core = MindChatCore::default();
    let account_id = account(&mut core);
    assert_eq!(
        core.apply_transport_event(TransportEvent::RosterContactUpsert {
            account_id,
            jid: "not-a-jid".to_owned(),
            display_name: "Bob".to_owned(),
            subscription: RosterSubscription::Mutual,
        }),
        Ok(None)
    );
    assert!(core.contacts(account_id).is_empty());
}

#[test]
fn invalid_presence_jid_event_is_skipped() {
    let mut core = MindChatCore::default();
    let account_id = account(&mut core);
    assert_eq!(
        core.apply_transport_event(TransportEvent::ContactPresenceUpdated {
            account_id,
            jid: "bad jid".to_owned(),
            presence: ContactPresence::Online,
            status: None,
        }),
        Ok(None)
    );
    assert!(core.contacts(account_id).is_empty());
}

#[test]
fn incoming_text_with_invalid_address_is_skipped() {
    let mut core = MindChatCore::default();
    let account_id = account(&mut core);
    assert_eq!(
        core.apply_transport_event(TransportEvent::IncomingText {
            account_id,
            kind: ConversationKind::Direct,
            address: "not-a-jid".to_owned(),
            sender: "not-a-jid".to_owned(),
            body: "hello".to_owned(),
            received_at_epoch_ms: 1,
        }),
        Ok(None)
    );
    assert!(core.conversations(account_id).is_empty());
}

#[test]
fn unknown_account_transport_events_are_skipped() {
    let mut core = MindChatCore::default();
    assert_eq!(
        core.apply_transport_event(TransportEvent::Connected {
            account_id: 999,
            capabilities: caps(&[ProtocolCapability::Receipts]),
        }),
        Ok(None)
    );
    assert_eq!(
        core.apply_transport_event(TransportEvent::Disconnected {
            account_id: 999,
            recoverable: true,
            detail: None,
            kind: DisconnectKind::NetworkLost,
        }),
        Ok(None)
    );
    assert_eq!(
        core.apply_transport_event(TransportEvent::CapabilitiesDiscovered {
            account_id: 999,
            capabilities: caps(&[ProtocolCapability::Receipts]),
        }),
        Ok(None)
    );
    assert_eq!(
        core.apply_transport_event(TransportEvent::RosterContactUpsert {
            account_id: 999,
            jid: "bob@example.org".to_owned(),
            display_name: "Bob".to_owned(),
            subscription: RosterSubscription::Mutual,
        }),
        Ok(None)
    );
    assert!(core.accounts().is_empty());
    assert!(core.contacts(999).is_empty());
}

#[test]
fn poll_batch_continues_past_a_failing_event() {
    let mut core = MindChatCore::default();
    let account_id = account(&mut core);
    let mut coordinator = TransportCoordinator::new(core, FakeTransport::default());
    coordinator.transport_mut().events.push_back(TransportEvent::IncomingText {
        account_id,
        kind: ConversationKind::Direct,
        address: "bob@example.org".to_owned(),
        sender: "bob@example.org".to_owned(),
        body: "   ".to_owned(),
        received_at_epoch_ms: 1,
    });
    coordinator.transport_mut().events.push_back(TransportEvent::Connected {
        account_id,
        capabilities: caps(&[ProtocolCapability::Receipts]),
    });
    assert_eq!(coordinator.poll_transport_events(4).expect("batch poll"), 2);
    assert_eq!(coordinator.core_ref().accounts()[0].connection_state, ConnectionState::Online);
    assert_eq!(coordinator.core_ref().conversations(account_id).len(), 0);
}

#[test]
fn flush_outbox_is_bounded_to_a_batch_per_call() {
    let mut core = MindChatCore::default();
    let account_id = account(&mut core);
    let conversation_id = core
        .open_conversation(account_id, ConversationKind::Direct, "bob@example.org", "Bob", 1)
        .expect("conversation");
    let total = FLUSH_OUTBOX_MAX_BATCH + 10;
    let mut ids = Vec::new();
    for index in 0..total {
        ids.push(
            core.send_text(conversation_id, "alice@example.org", &format!("message {index}"), None, index as u64 + 2)
                .expect("queued message"),
        );
    }
    let mut coordinator = TransportCoordinator::new(core, FakeTransport::default());
    assert_eq!(coordinator.flush_outbox(account_id).expect("first flush"), FLUSH_OUTBOX_MAX_BATCH);
    assert_eq!(coordinator.transport().sent_messages.len(), FLUSH_OUTBOX_MAX_BATCH);
    assert_eq!(
        coordinator.transport().sent_messages.iter().map(|message| message.message_id).collect::<Vec<_>>(),
        ids[..FLUSH_OUTBOX_MAX_BATCH].to_vec()
    );
    assert_eq!(
        coordinator
            .core_ref()
            .pending_outgoing_messages(account_id)
            .expect("rest queued")
            .iter()
            .map(|message| message.message_id)
            .collect::<Vec<_>>(),
        ids[FLUSH_OUTBOX_MAX_BATCH..].to_vec()
    );
    assert_eq!(coordinator.flush_outbox(account_id).expect("second flush"), 10);
    assert_eq!(coordinator.transport().sent_messages.len(), total);
    assert!(coordinator.core_ref().pending_outgoing_messages(account_id).expect("empty outbox").is_empty());
}

#[test]
fn delete_account_removes_all_account_owned_state() {
    let mut core = MindChatCore::default();
    let alice = account(&mut core);
    let mila = core
        .add_account(AccountSetup::new("mila@example.net", "example.net", "Mila"))
        .expect("second account");
    core.upsert_contact(alice, "bob@example.org", "Bob", ContactPresence::Online, None).expect("contact");
    let alice_conversation = core
        .open_conversation(alice, ConversationKind::Direct, "bob@example.org", "Bob", 1)
        .expect("alice conversation");
    let alice_message = core.send_text(alice_conversation, "alice@example.org", "hello", None, 2).expect("alice message");
    core.set_capabilities(alice, &[ProtocolCapability::MessageReactions]).expect("reactions capability");
    core.add_reaction(alice_message, "bob@example.org", "👍").expect("reaction");
    let mila_conversation = core
        .open_conversation(mila, ConversationKind::Direct, "nina@example.net", "Nina", 3)
        .expect("mila conversation");
    core.drain_events();

    core.delete_account(alice).expect("account deleted");
    assert!(core.accounts().iter().all(|item| item.id != alice));
    assert!(core.contacts(alice).is_empty());
    assert!(core.conversations(alice).is_empty());
    assert!(core.messages(alice_conversation).is_empty());
    assert!(core.reactions(alice_message).is_empty());
    assert_eq!(core.accounts()[0].id, mila);
    assert_eq!(core.conversations(mila), vec![core.conversations(mila)[0].clone()]);
    assert_eq!(core.conversations(mila)[0].id, mila_conversation);
    assert_eq!(core.drain_events(), vec![CoreEvent::AccountChanged(alice)]);
}

#[test]
fn lib_delete_account_and_conversation_reject_unknown_ids() {
    let mut core = MindChatCore::default();
    assert_eq!(core.delete_account(99), Err(CoreError::UnknownAccount(99)));
    assert_eq!(core.delete_conversation(99), Err(CoreError::UnknownConversation(99)));
}

#[test]
fn delete_conversation_removes_messages_and_reactions() {
    let mut core = MindChatCore::default();
    let account_id = account(&mut core);
    let conversation_id = core
        .open_conversation(account_id, ConversationKind::Direct, "bob@example.org", "Bob", 1)
        .expect("conversation");
    let message_id = core.send_text(conversation_id, "alice@example.org", "hello", None, 2).expect("message");
    core.set_capabilities(account_id, &[ProtocolCapability::MessageReactions]).expect("reactions capability");
    core.add_reaction(message_id, "bob@example.org", "👍").expect("reaction");
    core.drain_events();

    core.delete_conversation(conversation_id).expect("conversation deleted");
    assert!(core.conversations(account_id).is_empty());
    assert!(core.messages(conversation_id).is_empty());
    assert!(core.reactions(message_id).is_empty());
    assert_eq!(core.drain_events(), vec![CoreEvent::ConversationChanged(conversation_id)]);
}

#[test]
fn update_account_display_name_propagates_and_validates() {
    let mut core = MindChatCore::default();
    let account_id = account(&mut core);
    core.drain_events();
    assert_eq!(core.update_account_display_name(account_id, "   "), Err(CoreError::EmptyDisplayName));
    assert_eq!(core.update_account_display_name(99, "Alicia"), Err(CoreError::UnknownAccount(99)));
    core.update_account_display_name(account_id, "Alicia").expect("display name updated");
    assert_eq!(core.accounts()[0].display_name, "Alicia");
    assert_eq!(core.drain_events(), vec![CoreEvent::AccountChanged(account_id)]);
}

#[test]
fn in_memory_store_loads_what_was_saved() {
    let mut core = MindChatCore::default();
    account(&mut core);
    let mut store = InMemoryStore::default();
    assert!(store.load().expect("empty store").accounts.is_empty());
    store.save(core.snapshot()).expect("save");
    assert_eq!(store.load().expect("load"), core.snapshot());
}

#[test]
fn opening_the_same_direct_conversation_twice_returns_the_same_id() {
    let mut core = MindChatCore::default();
    let account_id = account(&mut core);
    let first = core
        .open_conversation(account_id, ConversationKind::Direct, "bob@example.org", "Bob", 1)
        .expect("conversation");
    let again = core
        .open_conversation(account_id, ConversationKind::Direct, "bob@example.org", "Bobby", 2)
        .expect("same conversation");
    assert_eq!(first, again);
    assert_eq!(core.conversations(account_id).len(), 1);
}

#[test]
fn receipts_never_move_delivery_backwards() {
    let mut core = MindChatCore::default();
    let account_id = account(&mut core);
    let conversation_id = core
        .open_conversation(account_id, ConversationKind::Direct, "bob@example.org", "Bob", 1)
        .expect("conversation");
    let message_id = core.send_text(conversation_id, "alice@example.org", "hi", None, 2).expect("message");
    for state in [DeliveryState::Delivered, DeliveryState::Sent, DeliveryState::Delivered] {
        core.apply_transport_event(TransportEvent::DeliveryUpdated {
            account_id,
            sender: "bob@example.org".to_owned(),
            message_id,
            state,
        })
        .expect("receipt");
    }
    assert_eq!(core.messages(conversation_id)[0].delivery_state, DeliveryState::Delivered);
}

#[test]
fn message_too_long_is_refused() {
    let mut core = MindChatCore::default();
    let account_id = account(&mut core);
    let conversation_id = core
        .open_conversation(account_id, ConversationKind::Direct, "bob@example.org", "Bob", 1)
        .expect("conversation");
    let long = "x".repeat(mindchat_core::model::MAX_MESSAGE_CHARS + 1);
    assert_eq!(core.send_text(conversation_id, "alice@example.org", &long, None, 2), Err(CoreError::MessageTooLong));
    assert_eq!(core.send_text(conversation_id, "alice@example.org", "  ", None, 2), Err(CoreError::EmptyMessage));
}

#[test]
fn applying_a_polled_result_answers_for_each_kind_of_result() {
    let mut core = MindChatCore::default();
    let account_id = account(&mut core);
    let mut coordinator = TransportCoordinator::new(core, FakeTransport::default());
    assert_eq!(coordinator.apply_polled(Ok(None)), Ok(false));
    assert_eq!(
        coordinator.apply_polled(Err(TransportError::ConnectionFailed("gone".to_owned()))),
        Err(TransportCoordinatorError::Transport(TransportError::ConnectionFailed("gone".to_owned())))
    );
    assert_eq!(coordinator.core_ref().accounts()[0].connection_state, ConnectionState::Offline);
    assert!(matches!(
        coordinator.apply_polled(Ok(Some(TransportEvent::IncomingText {
            account_id,
            kind: ConversationKind::Direct,
            address: "bob@example.org".to_owned(),
            sender: "bob@example.org".to_owned(),
            body: "   ".to_owned(),
            received_at_epoch_ms: 1,
        }))),
        Err(TransportCoordinatorError::Core(_))
    ));
    assert_eq!(
        coordinator.apply_polled(Ok(Some(TransportEvent::Connected {
            account_id,
            capabilities: caps(&[ProtocolCapability::Receipts]),
        }))),
        Ok(true)
    );
    assert_eq!(coordinator.core_ref().accounts()[0].connection_state, ConnectionState::Online);
}

#[test]
fn poll_batch_stops_at_its_limit() {
    let mut core = MindChatCore::default();
    let account_id = account(&mut core);
    let mut coordinator = TransportCoordinator::new(core, FakeTransport::default());
    for _ in 0..3 {
        coordinator.transport_mut().events.push_back(TransportEvent::Connected {
            account_id,
            capabilities: caps(&[ProtocolCapability::Receipts]),
        });
    }
    assert_eq!(coordinator.poll_transport_events(2).expect("batch poll"), 2);
    assert_eq!(coordinator.transport().events.len(), 1);
    assert_eq!(coordinator.poll_transport_events(2).expect("batch poll"), 1);
}

#[test]
fn a_flush_goes_on_only_within_queue_batch_and_time_budget() {
    assert!(flush_continues(0, 3, 0));
    assert!(flush_continues(31, 40, FLUSH_SEND_TIMEOUT_MS - 1));
    assert!(!flush_continues(3, 3, 0));
    assert!(!flush_continues(FLUSH_OUTBOX_MAX_BATCH, 40, 0));
    assert!(!flush_continues(0, 3, FLUSH_SEND_TIMEOUT_MS));
}

#[test]
fn restorability_and_event_headroom_follow_the_id_counters() {
    let mut core = MindChatCore::default();
    account(&mut core);
    assert!(MindChatCore::is_restorable(&core.snapshot()));
    assert!(core.has_event_headroom(128));
    assert!(!core.has_event_headroom(usize::MAX));
}
