use mindchat_core::caps::{CapabilitySet, ProtocolCapability};
use mindchat_core::model::{ContactPresence, ConversationKind, DeliveryState, DisconnectKind, RosterSubscription};
use mindchat_core::session::{
    capabilities_from_disco, disco_request_id, handle_client_event, handle_iq,
    receipt_acknowledgement, roster_events, roster_request_id, roster_subscription,
    stream_capabilities_from_features, translate_incoming_message, translate_incoming_receipts,
    translate_presence, IncomingIq, IncomingMessage, IncomingMessageType, IncomingPresence,
    IqKind, IqPayload, OutboundStanza, PresenceShow, PresenceStatus, PresenceType, RosterEntry,
    SessionState, SubscriptionState,
};
use mindchat_core::transport::TransportEvent;
use mindchat_core::xmpp::{ClientEvent, LoopAction, XmppError, XmppErrorKind};
use xmpp_parsers::ns;

fn chat(from: Option<&str>, body: Option<&str>) -> IncomingMessage {
    IncomingMessage {
        message_type: IncomingMessageType::Chat,
        from: from.map(str::to_owned),
        id: None,
        body: body.map(str::to_owned),
        receipts: vec![],
        receipt_requested: false,
    }
}

#[test]
fn maps_discovered_features_without_claiming_unknown_capabilities() {
    let features: Vec<String> = [
        "http://jabber.org/protocol/muc",
        "urn:xmpp:mam:2",
        "urn:xmpp:receipts",
        "urn:xmpp:omemo:2",
        "urn:unknown:extension",
    ]
    .iter()
    .map(|f| f.to_string())
    .collect();
    assert_eq!(
        capabilities_from_disco(&features),
        CapabilitySet::from_slice(&[
            ProtocolCapability::MultiUserChat,
            ProtocolCapability::MessageArchiveManagement,
            ProtocolCapability::Receipts,
            ProtocolCapability::Omemo,
        ])
    );
}

#[test]
fn discovery_namespaces_match_the_protocol_constants() {
    let cases = [
        (ns::MUC, ProtocolCapability::MultiUserChat),
        (ns::MAM, ProtocolCapability::MessageArchiveManagement),
        (ns::SM, ProtocolCapability::StreamManagement),
        (ns::HTTP_UPLOAD, ProtocolCapability::HttpFileUpload),
        (ns::PUSH, ProtocolCapability::PushNotifications),
        (ns::RECEIPTS, ProtocolCapability::Receipts),
        (ns::DISPLAYED_MARKERS, ProtocolCapability::ChatMarkers),
        (ns::CHATSTATES, ProtocolCapability::ChatStates),
        (ns::REACTIONS, ProtocolCapability::MessageReactions),
        (ns::MESSAGE_CORRECT, ProtocolCapability::MessageCorrections),
        (ns::LEGACY_OMEMO, ProtocolCapability::Omemo),
    ];
    for (namespace, capability) in cases {
        assert_eq!(
            capabilities_from_disco(&vec![namespace.to_owned()]),
            CapabilitySet::from_slice(&[capability]),
            "{namespace}"
        );
    }
}

#[test]
fn maps_roster_subscription_and_removal_events() {
    let items = vec![
        RosterEntry {
            jid: "bob@example.org".to_owned(),
            name: Some("Bob".to_owned()),
            subscription: SubscriptionState::To,
            ask_subscribe: false,
        },
        RosterEntry {
            jid: "old@example.org".to_owned(),
            name: None,
            subscription: SubscriptionState::Remove,
            ask_subscribe: false,
        },
        RosterEntry {
            jid: "mila@example.org".to_owned(),
            name: None,
            subscription: SubscriptionState::Unsubscribed,
            ask_subscribe: true,
        },
    ];
    assert_eq!(
        roster_events(7, &items),
        vec![
            TransportEvent::RosterContactUpsert {
                account_id: 7,
                jid: "bob@example.org".to_owned(),
                display_name: "Bob".to_owned(),
                subscription: RosterSubscription::Inbound,
            },
            TransportEvent::RosterContactRemoved { account_id: 7, jid: "old@example.org".to_owned() },
            TransportEvent::RosterContactUpsert {
                account_id: 7,
                jid: "mila@example.org".to_owned(),
                display_name: String::new(),
                subscription: RosterSubscription::PendingOutbound,
            },
        ]
    );
}

#[test]
fn roster_subscription_covers_every_state() {
    let entry = |subscription, ask_subscribe| RosterEntry {
        jid: "bob@example.org".to_owned(),
        name: None,
        subscription,
        ask_subscribe,
    };
    assert_eq!(roster_subscription(&entry(SubscriptionState::From, false)), RosterSubscription::Outbound);
    assert_eq!(roster_subscription(&entry(SubscriptionState::Both, true)), RosterSubscription::Mutual);
    assert_eq!(roster_subscription(&entry(SubscriptionState::Unsubscribed, false)), RosterSubscription::Neither);
}

#[test]
fn maps_available_and_unavailable_presence_to_bare_jid() {
    let available = IncomingPresence {
        from: Some("bob@example.org".to_owned()),
        presence_type: PresenceType::Available,
        show: Some(PresenceShow::Dnd),
        statuses: vec![PresenceStatus { lang: String::new(), text: "Busy".to_owned() }],
    };
    let unavailable = IncomingPresence {
        from: Some("bob@example.org".to_owned()),
        presence_type: PresenceType::Unavailable,
        show: None,
        statuses: vec![],
    };
    assert_eq!(
        translate_presence(3, &available),
        Some(TransportEvent::ContactPresenceUpdated {
            account_id: 3,
            jid: "bob@example.org".to_owned(),
            presence: ContactPresence::DoNotDisturb,
            status: Some("Busy".to_owned()),
        })
    );
    assert_eq!(
        translate_presence(3, &unavailable),
        Some(TransportEvent::ContactPresenceUpdated {
            account_id: 3,
            jid: "bob@example.org".to_owned(),
            presence: ContactPresence::Offline,
            status: None,
        })
    );
}

#[test]
fn presence_prefers_the_untagged_status_and_ignores_subscription_stanzas() {
    let presence = IncomingPresence {
        from: Some("bob@example.org".to_owned()),
        presence_type: PresenceType::Available,
        show: Some(PresenceShow::Xa),
        statuses: vec![
            PresenceStatus { lang: "de".to_owned(), text: "Weg".to_owned() },
            PresenceStatus { lang: String::new(), text: "Away".to_owned() },
        ],
    };
    assert!(matches!(
        translate_presence(1, &presence),
        Some(TransportEvent::ContactPresenceUpdated { presence: ContactPresence::Away, status: Some(ref s), .. }) if s == "Away"
    ));
    let subscribe = IncomingPresence { presence_type: PresenceType::Other, ..presence };
    assert_eq!(translate_presence(1, &subscribe), None);
}

#[test]
fn parses_valid_receipts_and_ignores_malformed_or_non_chat_payloads() {
    let message = IncomingMessage {
        receipts: vec!["mindchat-42".to_owned(), "foreign-9".to_owned()],
        ..chat(Some("bob@example.org"), None)
    };
    assert_eq!(
        translate_incoming_receipts(7, &message),
        vec![TransportEvent::DeliveryUpdated {
            account_id: 7,
            sender: "bob@example.org".to_owned(),
            message_id: 42,
            state: DeliveryState::Delivered,
        }]
    );
    let groupchat = IncomingMessage {
        message_type: IncomingMessageType::Groupchat,
        receipts: vec!["mindchat-42".to_owned()],
        ..chat(Some("room@example.org"), None)
    };
    assert!(translate_incoming_receipts(7, &groupchat).is_empty());
}

#[test]
fn acknowledges_valid_receipt_requests_only_when_stanza_id_is_usable() {
    let message = IncomingMessage {
        id: Some("peer-7".to_owned()),
        receipt_requested: true,
        ..chat(Some("bob@example.org"), Some("Hello"))
    };
    let acknowledgement = receipt_acknowledgement(7, &message, 1_000).expect("acknowledgement");
    assert_eq!(acknowledgement.to, "bob@example.org");
    assert_eq!(acknowledgement.receipt_id, "peer-7");
    assert_eq!(acknowledgement.id, "mindchat-receipt-7-1000");

    let missing_id = IncomingMessage { id: None, receipt_requested: true, ..chat(Some("bob@example.org"), None) };
    assert!(receipt_acknowledgement(7, &missing_id, 1_000).is_none());
    let spaced_id = IncomingMessage {
        id: Some("peer 7".to_owned()),
        receipt_requested: true,
        ..chat(Some("bob@example.org"), None)
    };
    assert!(receipt_acknowledgement(7, &spaced_id, 1_000).is_none());
}

#[test]
fn maps_direct_message_stanzas_without_leaking_resource_addresses() {
    let event = translate_incoming_message(9, &chat(Some("bob@example.org"), Some("Hello")), 55)
        .expect("direct text event");
    assert!(matches!(
        event,
        TransportEvent::IncomingText {
            account_id: 9,
            kind: ConversationKind::Direct,
            ref address,
            ref sender,
            ref body,
            received_at_epoch_ms,
        } if address == "bob@example.org" && sender == "bob@example.org" && body == "Hello" && received_at_epoch_ms == 55
    ));
    assert!(translate_incoming_message(9, &chat(Some("bob@example.org"), Some("   ")), 55).is_none());
    assert!(translate_incoming_message(9, &chat(None, Some("Hello")), 55).is_none());
}

#[test]
fn request_ids_name_the_account() {
    assert_eq!(roster_request_id(12), "mindchat-roster-12");
    assert_eq!(disco_request_id(12), "mindchat-disco-12");
}

#[test]
fn stream_features_announce_only_stream_management() {
    assert_eq!(
        stream_capabilities_from_features(true),
        CapabilitySet::from_slice(&[ProtocolCapability::StreamManagement])
    );
    assert!(stream_capabilities_from_features(false).is_empty());
}

#[test]
fn online_event_connects_and_requests_roster_and_discovery() {
    let mut session = SessionState::new();
    let outcome = handle_client_event(
        &mut session,
        4,
        ClientEvent::Online { stream_management: true, domain: "example.org".to_owned() },
        true,
        10,
    );
    assert!(session.live);
    assert_eq!(outcome.action, LoopAction::Keep);
    assert_eq!(
        outcome.events,
        vec![TransportEvent::Connected {
            account_id: 4,
            capabilities: CapabilitySet::from_slice(&[ProtocolCapability::StreamManagement]),
        }]
    );
    assert_eq!(
        outcome.stanzas,
        vec![
            OutboundStanza::AvailablePresence,
            OutboundStanza::RosterRequest { id: "mindchat-roster-4".to_owned() },
            OutboundStanza::DiscoRequest { id: "mindchat-disco-4".to_owned(), to: "example.org".to_owned() },
        ]
    );
}

#[test]
fn disconnect_event_reports_and_decides() {
    let mut session = SessionState::new();
    session.live = true;
    let outcome = handle_client_event(
        &mut session,
        4,
        ClientEvent::Disconnected(XmppError {
            kind: XmppErrorKind::Io,
            tls_verification: false,
            detail: "reset".to_owned(),
        }),
        false,
        10,
    );
    assert!(!session.live);
    assert_eq!(outcome.action, LoopAction::Stop);
    assert_eq!(
        outcome.events,
        vec![TransportEvent::Disconnected {
            account_id: 4,
            recoverable: true,
            detail: Some("reset".to_owned()),
            kind: DisconnectKind::NetworkLost,
        }]
    );
}

#[test]
fn roster_push_is_applied_and_acknowledged() {
    let mut session = SessionState::new();
    let iq = IncomingIq {
        kind: IqKind::Update,
        id: "push-1".to_owned(),
        from: Some("alice@example.org".to_owned()),
        payload: IqPayload::Roster(Some(vec![RosterEntry {
            jid: "bob@example.org".to_owned(),
            name: None,
            subscription: SubscriptionState::Both,
            ask_subscribe: false,
        }])),
    };
    let outcome = handle_client_event(&mut session, 2, ClientEvent::Iq(iq), true, 1);
    assert_eq!(outcome.events.len(), 1);
    assert_eq!(
        outcome.stanzas,
        vec![OutboundStanza::IqResult { to: Some("alice@example.org".to_owned()), id: "push-1".to_owned() }]
    );
}

#[test]
fn discovery_result_adds_to_stream_capabilities() {
    let stream = CapabilitySet::from_slice(&[ProtocolCapability::StreamManagement]);
    let iq = IncomingIq {
        kind: IqKind::Reply,
        id: "mindchat-disco-2".to_owned(),
        from: None,
        payload: IqPayload::Disco(Some(vec!["urn:xmpp:receipts".to_owned()])),
    };
    assert_eq!(
        handle_iq(2, &iq, &stream),
        vec![TransportEvent::CapabilitiesDiscovered {
            account_id: 2,
            capabilities: CapabilitySet::from_slice(&[
                ProtocolCapability::StreamManagement,
                ProtocolCapability::Receipts
            ]),
        }]
    );
    let foreign = IncomingIq { id: "other".to_owned(), ..iq };
    assert!(handle_iq(2, &foreign, &stream).is_empty());
}

#[test]
fn chat_message_with_receipt_request_gets_events_and_an_acknowledgement() {
    let mut session = SessionState::new();
    let message = IncomingMessage {
        id: Some("m1".to_owned()),
        receipt_requested: true,
        receipts: vec!["mindchat-3".to_owned()],
        ..chat(Some("bob@example.org"), Some("hi"))
    };
    let outcome = handle_client_event(&mut session, 1, ClientEvent::Message(message), true, 77);
    assert_eq!(outcome.events.len(), 2);
    assert!(matches!(outcome.events[0], TransportEvent::DeliveryUpdated { message_id: 3, .. }));
    assert!(matches!(outcome.events[1], TransportEvent::IncomingText { received_at_epoch_ms: 77, .. }));
    assert_eq!(outcome.stanzas.len(), 1);
}
