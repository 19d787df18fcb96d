//! What an XMPP session does with the stanzas and events it receives:
//! which domain events they become and which stanzas are sent back.

use vstd::prelude::*;
use crate::caps::{CapabilitySet, ProtocolCapability};
use crate::model::{AccountId, ContactPresence, ConversationKind, DeliveryState, RosterSubscription};
use crate::proxy::str_equal;
use crate::text::{blank, contains_whitespace, decimal, decimal_text, has_ws, is_blank};
use crate::transport::{event_views, EventView, TransportEvent};
use crate::xmpp::{
    decision, disconnect_kind_of, jid_accepts, jid_valid, parse_receipt_message_id,
    receipt_id_value, reconnect_decision, recoverable_spec, classify_disconnect,
    disconnected_is_recoverable, ClientEvent, LoopAction,
};

verus! {

/// The type attribute of an incoming message stanza.
#[derive(Clone, Copy, Debug, PartialEq, Eq, Structural)]
pub enum IncomingMessageType {
    Chat,
    Normal,
    Groupchat,
    Headline,
    Error,
}

/// An incoming message stanza, as the values the session reads from it.
#[derive(Clone, Debug, PartialEq, Eq)]
pub struct IncomingMessage {
    pub message_type: IncomingMessageType,
    /// The sender's bare JID, when the stanza names a sender.
    pub from: Option<String>,
    /// The stanza id, when present.
    pub id: Option<String>,
    /// The body in the preferred language, when the stanza has one.
    pub body: Option<String>,
    /// Ids of the well-formed delivery receipts the stanza carries, in order.
    pub receipts: Vec<String>,
    /// Whether the stanza carries a well-formed delivery receipt request.
    pub receipt_requested: bool,
}

/// The optional view of an optional event.
pub open spec fn opt_event_view(e: Option<TransportEvent>) -> Option<EventView> {
    match e {
        Some(event) => Some(event@),
        None => None,
    }
}

/// The text event an incoming message becomes: only a chat message with a
/// sender and a non-blank body, addressed to the sender's direct conversation.
pub open spec fn incoming_text(account_id: AccountId, m: IncomingMessage, at: u64) -> Option<
    EventView,
> {
    match (m.from, m.body) {
        (Some(from), Some(body)) => if m.message_type == IncomingMessageType::Chat && !is_blank(
            body@,
        ) {
            Some(
                EventView::IncomingText {
                    account_id,
                    kind: ConversationKind::Direct,
                    address: from@,
                    sender: from@,
                    body: body@,
                    received_at_epoch_ms: at,
                },
            )
        } else {
            None
        },
        _ => None,
    }
}

/// Converts an incoming message to a text event received at `received_at`
/// (milliseconds since the Unix epoch).
pub fn translate_incoming_message(
    account_id: AccountId,
    message: &IncomingMessage,
    received_at: u64,
) -> (r: Option<TransportEvent>)
    ensures
        opt_event_view(r) == incoming_text(account_id, *message, received_at),
{
    if message.message_type != IncomingMessageType::Chat {
        return None;
    }
    match (&message.from, &message.body) {
        (Some(from), Some(body)) => {
            if blank(body.as_str()) {
                return None;
            }
            Some(
                TransportEvent::IncomingText {
                    account_id,
                    kind: ConversationKind::Direct,
                    address: from.clone(),
                    sender: from.clone(),
                    body: body.clone(),
                    received_at_epoch_ms: received_at,
                },
            )
        },
        _ => None,
    }
}

/// Whether delivery receipts of the message are read: direct (chat or
/// normal) messages only.
pub open spec fn receipt_bearing(t: IncomingMessageType) -> bool {
    t == IncomingMessageType::Chat || t == IncomingMessageType::Normal
}

fn is_direct_receipt_message(message: &IncomingMessage) -> (r: bool)
    ensures
        r == receipt_bearing(message.message_type),
{
    message.message_type == IncomingMessageType::Chat || message.message_type
        == IncomingMessageType::Normal
}

/// The delivery events for receipt ids: one per id that names a message
/// this client sent, in order.
pub open spec fn receipt_events(account_id: AccountId, sender: Seq<char>, ids: Seq<Seq<char>>) -> Seq<
    EventView,
>
    decreases ids.len(),
{
    if ids.len() == 0 {
        Seq::empty()
    } else {
        let rest = receipt_events(account_id, sender, ids.drop_last());
        match receipt_id_value(ids.last()) {
            Some(n) => rest.push(
                EventView::DeliveryUpdated {
                    account_id,
                    sender,
                    message_id: n,
                    state: DeliveryState::Delivered,
                },
            ),
            None => rest,
        }
    }
}

/// The ids' characters.
pub open spec fn texts(v: Seq<String>) -> Seq<Seq<char>> {
    v.map_values(|s: String| s@)
}

/// The delivery events of an incoming message.
pub open spec fn message_receipts(account_id: AccountId, m: IncomingMessage) -> Seq<EventView> {
    match m.from {
        Some(from) => if receipt_bearing(m.message_type) {
            receipt_events(account_id, from@, texts(m.receipts@))
        } else {
            Seq::empty()
        },
        None => Seq::empty(),
    }
}

/// Converts the receipts of a direct message into delivery events. Receipts
/// whose id this client did not issue are ignored.
pub fn translate_incoming_receipts(account_id: AccountId, message: &IncomingMessage) -> (r: Vec<
    TransportEvent,
>)
    ensures
        event_views(r@) == message_receipts(account_id, *message),
{
    let mut out: Vec<TransportEvent> = Vec::new();
    if !is_direct_receipt_message(message) {
        proof {
            assert(event_views(out@) =~= Seq::<EventView>::empty());
        }
        return out;
    }
    let sender = match &message.from {
        Some(from) => from,
        None => {
            proof {
                assert(event_views(out@) =~= Seq::<EventView>::empty());
            }
            return out;
        },
    };
    let ghost ids = texts(message.receipts@);
    let mut i: usize = 0;
    while i < message.receipts.len()
        invariant
            i <= message.receipts.len(),
            ids == texts(message.receipts@),
            event_views(out@) == receipt_events(account_id, sender@, ids.take(i as int)),
        decreases message.receipts.len() - i,
    {
        proof {
            assert(ids.take(i + 1).drop_last() =~= ids.take(i as int));
            assert(ids.take(i + 1).last() == message.receipts@[i as int]@);
        }
        match parse_receipt_message_id(message.receipts[i].as_str()) {
            Some(n) => {
                let ghost before = out@;
                out.push(
                    TransportEvent::DeliveryUpdated {
                        account_id,
                        sender: sender.clone(),
                        message_id: n,
                        state: DeliveryState::Delivered,
                    },
                );
                proof {
                    assert(event_views(out@) =~= event_views(before).push(out@.last()@));
                }
            },
            None => {},
        }
        i = i + 1;
    }
    proof {
        assert(ids.take(i as int) =~= ids);
    }
    out
}


/// A delivery receipt sent back for a message that asked for one.
#[derive(Clone, Debug, PartialEq, Eq)]
pub struct ReceiptAck {
    /// Bare JID of the message's sender.
    pub to: String,
    /// The acknowledgement's own stanza id.
    pub id: String,
    /// The id of the message being acknowledged.
    pub receipt_id: String,
}

/// Whether a message gets a receipt: a direct message that asks for one,
/// from a named sender, with a non-empty stanza id free of whitespace.
pub open spec fn acknowledges(m: IncomingMessage) -> bool {
    &&& receipt_bearing(m.message_type)
    &&& m.receipt_requested
    &&& m.from is Some
    &&& m.id is Some
    &&& m.id->0@.len() > 0
    &&& !has_ws(m.id->0@)
}

/// The id of a receipt sent by an account at a time.
pub open spec fn ack_id(account_id: AccountId, now_ms: u64) -> Seq<char> {
    "mindchat-receipt-"@ + decimal(account_id as nat) + "-"@ + decimal(now_ms as nat)
}

/// The receipt owed for an incoming message at time `now_ms`, if any.
pub fn receipt_acknowledgement(account_id: AccountId, message: &IncomingMessage, now_ms: u64) -> (r:
    Option<ReceiptAck>)
    ensures
        r is Some <==> acknowledges(*message),
        r matches Some(ack) ==> {
            &&& ack.to@ == message.from->0@
            &&& ack.receipt_id@ == message.id->0@
            &&& ack.id@ == ack_id(account_id, now_ms)
        },
{
    if !is_direct_receipt_message(message) || !message.receipt_requested {
        return None;
    }
    let sender = match &message.from {
        Some(from) => from,
        None => return None,
    };
    let stanza_id = match &message.id {
        Some(id) => id,
        None => return None,
    };
    if stanza_id.as_str().unicode_len() == 0 || contains_whitespace(stanza_id.as_str()) {
        return None;
    }
    let id = "mindchat-receipt-".to_owned().concat(decimal_text(account_id).as_str()).concat(
        "-",
    ).concat(decimal_text(now_ms).as_str());
    Some(ReceiptAck { to: sender.clone(), id, receipt_id: stanza_id.clone() })
}

/// The type attribute of an incoming presence stanza.
#[derive(Clone, Copy, Debug, PartialEq, Eq, Structural)]
pub enum PresenceType {
    /// No type: the sender is available.
    Available,
    Unavailable,
    /// Any other type (subscription handling, probes, errors).
    Other,
}

/// The `show` element of an available presence.
#[derive(Clone, Copy, Debug, PartialEq, Eq, Structural)]
pub enum PresenceShow {
    Away,
    Chat,
    Dnd,
    Xa,
}

/// One status text of a presence, with its language tag.
#[derive(Clone, Debug, PartialEq, Eq)]
pub struct PresenceStatus {
    pub lang: String,
    pub text: String,
}

/// An incoming presence stanza, as the values the session reads from it.
#[derive(Clone, Debug, PartialEq, Eq)]
pub struct IncomingPresence {
    /// The sender's bare JID, when the stanza names a sender.
    pub from: Option<String>,
    pub presence_type: PresenceType,
    pub show: Option<PresenceShow>,
    /// The status texts in language-tag order.
    pub statuses: Vec<PresenceStatus>,
}

/// The contact presence a presence stanza reports, if it reports one.
pub open spec fn presence_of(t: PresenceType, show: Option<PresenceShow>) -> Option<ContactPresence> {
    match t {
        PresenceType::Available => match show {
            Some(PresenceShow::Away) | Some(PresenceShow::Xa) => Some(ContactPresence::Away),
            Some(PresenceShow::Dnd) => Some(ContactPresence::DoNotDisturb),
            _ => Some(ContactPresence::Online),
        },
        PresenceType::Unavailable => Some(ContactPresence::Offline),
        PresenceType::Other => None,
    }
}

/// The status shown for a presence: the untagged text when there is one,
/// else the first text, else none.
pub open spec fn status_choice(s: Seq<PresenceStatus>) -> Option<Seq<char>>
    decreases s.len(),
{
    match untagged_status(s) {
        Some(text) => Some(text),
        None => if s.len() > 0 {
            Some(s[0].text@)
        } else {
            None
        },
    }
}

/// The first status text without a language tag.
pub open spec fn untagged_status(s: Seq<PresenceStatus>) -> Option<Seq<char>>
    decreases s.len(),
{
    if s.len() == 0 {
        None
    } else if s[0].lang@.len() == 0 {
        Some(s[0].text@)
    } else {
        untagged_status(s.drop_first())
    }
}

/// The presence event a presence stanza becomes.
pub open spec fn presence_event(account_id: AccountId, p: IncomingPresence) -> Option<EventView> {
    match (p.from, presence_of(p.presence_type, p.show)) {
        (Some(from), Some(presence)) => Some(
            EventView::ContactPresenceUpdated {
                account_id,
                jid: from@,
                presence,
                status: status_choice(p.statuses@),
            },
        ),
        _ => None,
    }
}

fn choose_status(statuses: &Vec<PresenceStatus>) -> (r: Option<String>)
    ensures
        crate::rules::opt_view(r) == status_choice(statuses@),
{
    let mut i: usize = 0;
    proof {
        assert(statuses@.skip(0) =~= statuses@);
    }
    while i < statuses.len()
        invariant
            i <= statuses.len(),
            untagged_status(statuses@) == untagged_status(statuses@.skip(i as int)),
        decreases statuses.len() - i,
    {
        proof {
            assert(statuses@.skip(i as int).drop_first() =~= statuses@.skip(i + 1));
        }
        if statuses[i].lang.as_str().unicode_len() == 0 {
            return Some(statuses[i].text.clone());
        }
        i = i + 1;
    }
    if statuses.len() > 0 {
        Some(statuses[0].text.clone())
    } else {
        None
    }
}

/// Converts a presence stanza from a contact into a presence event.
pub fn translate_presence(account_id: AccountId, presence: &IncomingPresence) -> (r: Option<
    TransportEvent,
>)
    ensures
        opt_event_view(r) == presence_event(account_id, *presence),
{
    let jid = match &presence.from {
        Some(from) => from.clone(),
        None => return None,
    };
    let contact_presence = match presence.presence_type {
        PresenceType::Available => match presence.show {
            Some(PresenceShow::Away) | Some(PresenceShow::Xa) => ContactPresence::Away,
            Some(PresenceShow::Dnd) => ContactPresence::DoNotDisturb,
            _ => ContactPresence::Online,
        },
        PresenceType::Unavailable => ContactPresence::Offline,
        PresenceType::Other => return None,
    };
    let status = choose_status(&presence.statuses);
    Some(
        TransportEvent::ContactPresenceUpdated {
            account_id,
            jid,
            presence: contact_presence,
            status,
        },
    )
}


/// The subscription attribute of a roster item.
#[derive(Clone, Copy, Debug, PartialEq, Eq, Structural)]
pub enum SubscriptionState {
    /// `none`: no presence subscription either way.
    Unsubscribed,
    To,
    From,
    Both,
    /// `remove`: the item is deleted from the roster.
    Remove,
}

/// One roster item, as the values the session reads from it.
#[derive(Clone, Debug, PartialEq, Eq)]
pub struct RosterEntry {
    /// The contact's bare JID.
    pub jid: String,
    pub name: Option<String>,
    pub subscription: SubscriptionState,
    /// Whether a subscription request to the contact is pending.
    pub ask_subscribe: bool,
}

/// The domain's reading of a roster item's subscription.
pub open spec fn subscription_of(state: SubscriptionState, ask_subscribe: bool) -> RosterSubscription {
    match state {
        SubscriptionState::To => RosterSubscription::Inbound,
        SubscriptionState::From => RosterSubscription::Outbound,
        SubscriptionState::Both => RosterSubscription::Mutual,
        SubscriptionState::Unsubscribed => if ask_subscribe {
            RosterSubscription::PendingOutbound
        } else {
            RosterSubscription::Neither
        },
        SubscriptionState::Remove => RosterSubscription::Neither,
    }
}

/// Maps a roster item's subscription and pending request to the domain's
/// subscription.
pub fn roster_subscription(item: &RosterEntry) -> (r: RosterSubscription)
    ensures
        r == subscription_of(item.subscription, item.ask_subscribe),
{
    match item.subscription {
        SubscriptionState::To => RosterSubscription::Inbound,
        SubscriptionState::From => RosterSubscription::Outbound,
        SubscriptionState::Both => RosterSubscription::Mutual,
        SubscriptionState::Unsubscribed => if item.ask_subscribe {
            RosterSubscription::PendingOutbound
        } else {
            RosterSubscription::Neither
        },
        SubscriptionState::Remove => RosterSubscription::Neither,
    }
}

/// The event a roster item becomes: a removal, or an upsert with the
/// item's name (empty when it has none).
pub open spec fn roster_item_event(account_id: AccountId, item: RosterEntry) -> EventView {
    if item.subscription == SubscriptionState::Remove {
        EventView::RosterContactRemoved { account_id, jid: item.jid@ }
    } else {
        EventView::RosterContactUpsert {
            account_id,
            jid: item.jid@,
            display_name: match item.name {
                Some(name) => name@,
                None => Seq::empty(),
            },
            subscription: subscription_of(item.subscription, item.ask_subscribe),
        }
    }
}

/// The events of a roster result or push, one per item in order.
pub open spec fn roster_item_events(account_id: AccountId, items: Seq<RosterEntry>) -> Seq<EventView> {
    items.map_values(|item: RosterEntry| roster_item_event(account_id, item))
}

/// Converts the items of a roster result or push into roster events.
pub fn roster_events(account_id: AccountId, items: &Vec<RosterEntry>) -> (r: Vec<TransportEvent>)
    ensures
        event_views(r@) == roster_item_events(account_id, items@),
{
    let mut out: Vec<TransportEvent> = Vec::new();
    let mut i: usize = 0;
    while i < items.len()
        invariant
            i <= items.len(),
            event_views(out@) == roster_item_events(account_id, items@.take(i as int)),
        decreases items.len() - i,
    {
        let item = &items[i];
        let ghost before = out@;
        if item.subscription == SubscriptionState::Remove {
            out.push(TransportEvent::RosterContactRemoved { account_id, jid: item.jid.clone() });
        } else {
            let display_name = match &item.name {
                Some(name) => name.clone(),
                None => String::new(),
            };
            proof {
                reveal_strlit("");
            }
            out.push(
                TransportEvent::RosterContactUpsert {
                    account_id,
                    jid: item.jid.clone(),
                    display_name,
                    subscription: roster_subscription(item),
                },
            );
        }
        proof {
            assert(event_views(out@) =~= event_views(before).push(out@.last()@));
            assert(roster_item_events(account_id, items@.take(i + 1)) =~= roster_item_events(
                account_id,
                items@.take(i as int),
            ).push(roster_item_event(account_id, items@[i as int])));
        }
        i = i + 1;
    }
    proof {
        assert(items@.take(i as int) =~= items@);
    }
    out
}

/// The capability a service discovery feature announces, if any.
pub open spec fn feature_capability(feature: Seq<char>) -> Option<ProtocolCapability> {
    if feature == "http://jabber.org/protocol/muc"@ {
        Some(ProtocolCapability::MultiUserChat)
    } else if feature == "urn:xmpp:mam:2"@ {
        Some(ProtocolCapability::MessageArchiveManagement)
    } else if feature == "urn:xmpp:sm:3"@ {
        Some(ProtocolCapability::StreamManagement)
    } else if feature == "urn:xmpp:http:upload:0"@ {
        Some(ProtocolCapability::HttpFileUpload)
    } else if feature == "urn:xmpp:push:0"@ {
        Some(ProtocolCapability::PushNotifications)
    } else if feature == "urn:xmpp:receipts"@ {
        Some(ProtocolCapability::Receipts)
    } else if feature == "urn:xmpp:chat-markers:0"@ {
        Some(ProtocolCapability::ChatMarkers)
    } else if feature == "http://jabber.org/protocol/chatstates"@ {
        Some(ProtocolCapability::ChatStates)
    } else if feature == "urn:xmpp:reactions:0"@ {
        Some(ProtocolCapability::MessageReactions)
    } else if feature == "urn:xmpp:message-correct:0"@ {
        Some(ProtocolCapability::MessageCorrections)
    } else if feature == "urn:xmpp:reply:0"@ {
        Some(ProtocolCapability::MessageReplies)
    } else if feature == "urn:xmpp:omemo:1"@ || feature == "urn:xmpp:omemo:2"@ || feature
        == "eu.siacs.conversations.axolotl"@ {
        Some(ProtocolCapability::Omemo)
    } else {
        None
    }
}

fn capability_for_feature(feature: &str) -> (r: Option<ProtocolCapability>)
    ensures
        r == feature_capability(feature@),
{
    if str_equal(feature, "http://jabber.org/protocol/muc") {
        Some(ProtocolCapability::MultiUserChat)
    } else if str_equal(feature, "urn:xmpp:mam:2") {
        Some(ProtocolCapability::MessageArchiveManagement)
    } else if str_equal(feature, "urn:xmpp:sm:3") {
        Some(ProtocolCapability::StreamManagement)
    } else if str_equal(feature, "urn:xmpp:http:upload:0") {
        Some(ProtocolCapability::HttpFileUpload)
    } else if str_equal(feature, "urn:xmpp:push:0") {
        Some(ProtocolCapability::PushNotifications)
    } else if str_equal(feature, "urn:xmpp:receipts") {
        Some(ProtocolCapability::Receipts)
    } else if str_equal(feature, "urn:xmpp:chat-markers:0") {
        Some(ProtocolCapability::ChatMarkers)
    } else if str_equal(feature, "http://jabber.org/protocol/chatstates") {
        Some(ProtocolCapability::ChatStates)
    } else if str_equal(feature, "urn:xmpp:reactions:0") {
        Some(ProtocolCapability::MessageReactions)
    } else if str_equal(feature, "urn:xmpp:message-correct:0") {
        Some(ProtocolCapability::MessageCorrections)
    } else if str_equal(feature, "urn:xmpp:reply:0") {
        Some(ProtocolCapability::MessageReplies)
    } else if str_equal(feature, "urn:xmpp:omemo:1") || str_equal(feature, "urn:xmpp:omemo:2")
        || str_equal(feature, "eu.siacs.conversations.axolotl") {
        Some(ProtocolCapability::Omemo)
    } else {
        None
    }
}

/// The capabilities announced by a list of discovery features: exactly
/// those some feature maps to; unknown features announce nothing.
pub open spec fn disco_capabilities(features: Seq<Seq<char>>) -> Set<ProtocolCapability> {
    Set::new(
        |c: ProtocolCapability|
            exists|i: int| 0 <= i < features.len() && feature_capability(#[trigger] features[i])
                == Some(c),
    )
}

/// Reads the capabilities of a service discovery result.
pub fn capabilities_from_disco(features: &Vec<String>) -> (r: CapabilitySet)
    ensures
        r@ == disco_capabilities(texts(features@)),
{
    let mut r = CapabilitySet::new();
    let ghost fs = texts(features@);
    let mut i: usize = 0;
    while i < features.len()
        invariant
            i <= features.len(),
            fs == texts(features@),
            r@ == disco_capabilities(fs.take(i as int)),
        decreases features.len() - i,
    {
        let ghost before = r@;
        let found = capability_for_feature(features[i].as_str());
        match found {
            Some(c) => r.insert(c),
            None => {},
        }
        proof {
            let next = fs.take(i + 1);
            assert(next[i as int] == features@[i as int]@);
            assert forall|c: ProtocolCapability| #[trigger]
                r@.contains(c) == disco_capabilities(next).contains(c) by {
                if disco_capabilities(fs.take(i as int)).contains(c) {
                    let k = choose|k: int|
                        0 <= k < i && feature_capability(#[trigger] fs.take(i as int)[k]) == Some(
                            c,
                        );
                    assert(next[k] == fs.take(i as int)[k]);
                }
                if disco_capabilities(next).contains(c) {
                    let k = choose|k: int|
                        0 <= k < i + 1 && feature_capability(#[trigger] next[k]) == Some(c);
                    if k < i {
                        assert(fs.take(i as int)[k] == next[k]);
                    }
                }
            }
            assert(r@ =~= disco_capabilities(next));
        }
        i = i + 1;
    }
    proof {
        assert(fs.take(i as int) =~= fs);
    }
    r
}

/// The capabilities a stream announces in its features: stream management
/// when it is offered, nothing else.
pub fn stream_capabilities_from_features(stream_management: bool) -> (r: CapabilitySet)
    ensures
        r@ == (if stream_management {
            set![ProtocolCapability::StreamManagement]
        } else {
            Set::<ProtocolCapability>::empty()
        }),
{
    let mut r = CapabilitySet::new();
    if stream_management {
        r.insert(ProtocolCapability::StreamManagement);
    }
    proof {
        assert(r@ =~= (if stream_management {
            set![ProtocolCapability::StreamManagement]
        } else {
            Set::<ProtocolCapability>::empty()
        }));
    }
    r
}

/// The id of an account's roster request.
pub open spec fn roster_id(account_id: AccountId) -> Seq<char> {
    "mindchat-roster-"@ + decimal(account_id as nat)
}

/// The id of an account's service discovery request.
pub open spec fn disco_id(account_id: AccountId) -> Seq<char> {
    "mindchat-disco-"@ + decimal(account_id as nat)
}

/// The stanza id of the roster request for an account.
pub fn roster_request_id(account_id: AccountId) -> (r: String)
    ensures
        r@ == roster_id(account_id),
{
    "mindchat-roster-".to_owned().concat(decimal_text(account_id).as_str())
}

/// The stanza id of the service discovery request for an account.
pub fn disco_request_id(account_id: AccountId) -> (r: String)
    ensures
        r@ == disco_id(account_id),
{
    "mindchat-disco-".to_owned().concat(decimal_text(account_id).as_str())
}


/// The type attribute of an IQ stanza.
#[derive(Clone, Copy, Debug, PartialEq, Eq, Structural)]
pub enum IqKind {
    Get,
    /// `set`.
    Update,
    /// `result`.
    Reply,
    Error,
}

/// The payload of an IQ stanza, as far as the session reads it.
#[derive(Clone, Debug, PartialEq, Eq)]
pub enum IqPayload {
    /// No payload.
    Empty,
    /// A roster query; its items when it parses as a roster.
    Roster(Option<Vec<RosterEntry>>),
    /// A service discovery result; its features when it parses as one.
    Disco(Option<Vec<String>>),
    /// Any other payload.
    Other,
}

/// An incoming IQ stanza, as the values the session reads from it.
#[derive(Clone, Debug, PartialEq, Eq)]
pub struct IncomingIq {
    pub kind: IqKind,
    pub id: String,
    /// The sender's full JID, when the stanza names one.
    pub from: Option<String>,
    pub payload: IqPayload,
}

/// The events an IQ stanza becomes: the roster of the account's roster
/// request, the capabilities of its discovery request (added to those the
/// stream announced), or the items of a roster push.
pub open spec fn iq_events(account_id: AccountId, stream: Set<ProtocolCapability>, iq: IncomingIq) -> Seq<
    EventView,
> {
    match iq.kind {
        IqKind::Reply => if iq.id@ == roster_id(account_id) {
            match iq.payload {
                IqPayload::Roster(Some(items)) => roster_item_events(account_id, items@),
                _ => Seq::empty(),
            }
        } else if iq.id@ == disco_id(account_id) {
            match iq.payload {
                IqPayload::Disco(Some(features)) => seq![
                    EventView::CapabilitiesDiscovered {
                        account_id,
                        capabilities: stream.union(disco_capabilities(texts(features@))),
                    },
                ],
                _ => Seq::empty(),
            }
        } else {
            Seq::empty()
        },
        IqKind::Update => match iq.payload {
            IqPayload::Roster(Some(items)) => roster_item_events(account_id, items@),
            _ => Seq::empty(),
        },
        _ => Seq::empty(),
    }
}

/// Whether an IQ is a roster push, which is acknowledged with an empty
/// result to its sender under its id.
pub open spec fn is_roster_push(iq: IncomingIq) -> bool {
    iq.kind == IqKind::Update && iq.payload is Roster
}

/// A stanza the session sends in reply to what it receives.
#[derive(Clone, Debug, PartialEq, Eq)]
pub enum OutboundStanza {
    /// Initial presence: the account is available.
    AvailablePresence,
    /// The roster request with its id.
    RosterRequest { id: String },
    /// The service discovery request to the server, with its id.
    DiscoRequest { id: String, to: String },
    /// An empty result acknowledging an IQ.
    IqResult { to: Option<String>, id: String },
    /// A delivery receipt.
    Receipt(ReceiptAck),
}

/// An outbound stanza with its texts as character sequences.
pub enum StanzaView {
    AvailablePresence,
    RosterRequest { id: Seq<char> },
    DiscoRequest { id: Seq<char>, to: Seq<char> },
    IqResult { to: Option<Seq<char>>, id: Seq<char> },
    Receipt { to: Seq<char>, id: Seq<char>, receipt_id: Seq<char> },
}

impl View for OutboundStanza {
    type V = StanzaView;

    open spec fn view(&self) -> StanzaView {
        match self {
            OutboundStanza::AvailablePresence => StanzaView::AvailablePresence,
            OutboundStanza::RosterRequest { id } => StanzaView::RosterRequest { id: id@ },
            OutboundStanza::DiscoRequest { id, to } => StanzaView::DiscoRequest { id: id@, to: to@ },
            OutboundStanza::IqResult { to, id } => StanzaView::IqResult {
                to: crate::rules::opt_view(*to),
                id: id@,
            },
            OutboundStanza::Receipt(ack) => StanzaView::Receipt {
                to: ack.to@,
                id: ack.id@,
                receipt_id: ack.receipt_id@,
            },
        }
    }
}

/// The views of a sequence of stanzas.
pub open spec fn stanza_views(stanzas: Seq<OutboundStanza>) -> Seq<StanzaView> {
    stanzas.map_values(|s: OutboundStanza| s@)
}

/// The session's state between events: whether a session is live, and the
/// capabilities the stream announced.
#[derive(Debug)]
pub struct SessionState {
    pub live: bool,
    pub stream_capabilities: CapabilitySet,
}

impl SessionState {
    /// A session that has not come online yet.
    pub fn new() -> (r: Self)
        ensures
            !r.live,
            r.stream_capabilities@ == Set::<ProtocolCapability>::empty(),
    {
        SessionState { live: false, stream_capabilities: CapabilitySet::new() }
    }
}

/// What the session does with one client event.
#[derive(Debug)]
pub struct ClientEventOutcome {
    /// Domain events to hand to the core, in order.
    pub events: Vec<TransportEvent>,
    /// Stanzas to send, in order.
    pub stanzas: Vec<OutboundStanza>,
    pub action: LoopAction,
}

/// The events a message stanza becomes: its receipts, then its text.
pub open spec fn message_events(account_id: AccountId, m: IncomingMessage, now_ms: u64) -> Seq<
    EventView,
> {
    message_receipts(account_id, m) + match incoming_text(account_id, m, now_ms) {
        Some(e) => seq![e],
        None => Seq::empty(),
    }
}

/// The stanzas sent when the stream comes online: available presence, the
/// roster request, and the discovery request to the server when its domain
/// is a valid address.
pub open spec fn online_stanzas(account_id: AccountId, domain: Seq<char>) -> Seq<StanzaView> {
    seq![StanzaView::AvailablePresence, StanzaView::RosterRequest { id: roster_id(account_id) }]
        + if jid_accepts(domain) {
        seq![StanzaView::DiscoRequest { id: disco_id(account_id), to: domain }]
    } else {
        Seq::empty()
    }
}

/// Handles one client event: updates the session, and says which events go
/// to the core, which stanzas go to the server and whether the loop goes on.
/// `now_ms` is the current time in milliseconds since the Unix epoch.
pub fn handle_client_event(
    session: &mut SessionState,
    account_id: AccountId,
    event: ClientEvent,
    auto_reconnect: bool,
    now_ms: u64,
) -> (r: ClientEventOutcome)
    ensures
        r.action == decision(event, auto_reconnect),
        match event {
            ClientEvent::Online { stream_management, domain } => {
                &&& final(session).live
                &&& final(session).stream_capabilities@ == (if stream_management {
                    set![ProtocolCapability::StreamManagement]
                } else {
                    Set::<ProtocolCapability>::empty()
                })
                &&& event_views(r.events@) == seq![
                    EventView::Connected {
                        account_id,
                        capabilities: final(session).stream_capabilities@,
                    },
                ]
                &&& stanza_views(r.stanzas@) == online_stanzas(account_id, domain@)
            },
            ClientEvent::Disconnected(error) => {
                &&& !final(session).live
                &&& final(session).stream_capabilities@ == old(session).stream_capabilities@
                &&& event_views(r.events@) == seq![
                    EventView::Disconnected {
                        account_id,
                        recoverable: recoverable_spec(error),
                        detail: Some(error.detail@),
                        kind: disconnect_kind_of(error),
                    },
                ]
                &&& r.stanzas@.len() == 0
            },
            ClientEvent::Message(m) => {
                &&& final(session).live == old(session).live
                &&& final(session).stream_capabilities@ == old(session).stream_capabilities@
                &&& event_views(r.events@) == message_events(account_id, m, now_ms)
                &&& stanza_views(r.stanzas@) == (if acknowledges(m) {
                    seq![
                        StanzaView::Receipt {
                            to: m.from->0@,
                            id: ack_id(account_id, now_ms),
                            receipt_id: m.id->0@,
                        },
                    ]
                } else {
                    Seq::empty()
                })
            },
            ClientEvent::Presence(p) => {
                &&& final(session).live == old(session).live
                &&& final(session).stream_capabilities@ == old(session).stream_capabilities@
                &&& event_views(r.events@) == match presence_event(account_id, p) {
                    Some(e) => seq![e],
                    None => Seq::empty(),
                }
                &&& r.stanzas@.len() == 0
            },
            ClientEvent::Iq(iq) => {
                &&& final(session).live == old(session).live
                &&& final(session).stream_capabilities@ == old(session).stream_capabilities@
                &&& event_views(r.events@) == iq_events(
                    account_id,
                    old(session).stream_capabilities@,
                    iq,
                )
                &&& stanza_views(r.stanzas@) == (if is_roster_push(iq) {
                    seq![
                        StanzaView::IqResult {
                            to: crate::rules::opt_view(iq.from),
                            id: iq.id@,
                        },
                    ]
                } else {
                    Seq::empty()
                })
            },
        },
{
    let action = reconnect_decision(&event, auto_reconnect);
    let mut events: Vec<TransportEvent> = Vec::new();
    let mut stanzas: Vec<OutboundStanza> = Vec::new();
    match event {
        ClientEvent::Online { stream_management, domain } => {
            session.live = true;
            session.stream_capabilities = stream_capabilities_from_features(stream_management);
            events.push(
                TransportEvent::Connected {
                    account_id,
                    capabilities: session.stream_capabilities.clone(),
                },
            );
            stanzas.push(OutboundStanza::AvailablePresence);
            stanzas.push(OutboundStanza::RosterRequest { id: roster_request_id(account_id) });
            if jid_valid(domain.as_str()) {
                stanzas.push(OutboundStanza::DiscoRequest { id: disco_request_id(account_id), to: domain });
            }
            proof {
                assert(event_views(events@) =~= seq![
                    EventView::Connected {
                        account_id,
                        capabilities: session.stream_capabilities@,
                    },
                ]);
                assert(stanza_views(stanzas@) =~= online_stanzas(account_id, domain@));
            }
        },
        ClientEvent::Disconnected(error) => {
            session.live = false;
            events.push(
                TransportEvent::Disconnected {
                    account_id,
                    recoverable: disconnected_is_recoverable(&error),
                    detail: Some(error.detail.clone()),
                    kind: classify_disconnect(&error),
                },
            );
            proof {
                assert(event_views(events@) =~= seq![
                    EventView::Disconnected {
                        account_id,
                        recoverable: recoverable_spec(error),
                        detail: Some(error.detail@),
                        kind: disconnect_kind_of(error),
                    },
                ]);
            }
        },
        ClientEvent::Message(message) => {
            events = translate_incoming_receipts(account_id, &message);
            let ghost receipts = events@;
            match receipt_acknowledgement(account_id, &message, now_ms) {
                Some(ack) => stanzas.push(OutboundStanza::Receipt(ack)),
                None => {},
            }
            match translate_incoming_message(account_id, &message, now_ms) {
                Some(e) => events.push(e),
                None => {},
            }
            proof {
                assert(event_views(events@) =~= message_events(account_id, message, now_ms));
                assert(stanza_views(stanzas@) =~= (if acknowledges(message) {
                    seq![
                        StanzaView::Receipt {
                            to: message.from->0@,
                            id: ack_id(account_id, now_ms),
                            receipt_id: message.id->0@,
                        },
                    ]
                } else {
                    Seq::empty()
                }));
            }
        },
        ClientEvent::Presence(presence) => {
            match translate_presence(account_id, &presence) {
                Some(e) => events.push(e),
                None => {},
            }
            proof {
                assert(event_views(events@) =~= match presence_event(account_id, presence) {
                    Some(e) => seq![e],
                    None => Seq::empty(),
                });
            }
        },
        ClientEvent::Iq(iq) => {
            events = handle_iq(account_id, &iq, &session.stream_capabilities);
            if iq.kind == IqKind::Update {
                if let IqPayload::Roster(_) = &iq.payload {
                    stanzas.push(OutboundStanza::IqResult { to: iq.from.clone(), id: iq.id.clone() });
                }
            }
            proof {
                assert(stanza_views(stanzas@) =~= (if is_roster_push(iq) {
                    seq![
                        StanzaView::IqResult {
                            to: crate::rules::opt_view(iq.from),
                            id: iq.id@,
                        },
                    ]
                } else {
                    Seq::empty()
                }));
            }
        },
    }
    ClientEventOutcome { events, stanzas, action }
}

/// The events of an IQ stanza, given the capabilities the stream announced.
pub fn handle_iq(account_id: AccountId, iq: &IncomingIq, stream: &CapabilitySet) -> (r: Vec<
    TransportEvent,
>)
    ensures
        event_views(r@) == iq_events(account_id, stream@, *iq),
{
    let empty: Vec<TransportEvent> = Vec::new();
    proof {
        assert(event_views(empty@) =~= Seq::<EventView>::empty());
    }
    match iq.kind {
        IqKind::Reply => {
            if str_equal(iq.id.as_str(), roster_request_id(account_id).as_str()) {
                match &iq.payload {
                    IqPayload::Roster(Some(items)) => roster_events(account_id, items),
                    _ => empty,
                }
            } else if str_equal(iq.id.as_str(), disco_request_id(account_id).as_str()) {
                match &iq.payload {
                    IqPayload::Disco(Some(features)) => {
                        let mut capabilities = stream.clone();
                        let discovered = capabilities_from_disco(features);
                        capabilities.extend(&discovered);
                        let mut out: Vec<TransportEvent> = Vec::new();
                        out.push(TransportEvent::CapabilitiesDiscovered { account_id, capabilities });
                        proof {
                            assert(event_views(out@) =~= iq_events(account_id, stream@, *iq));
                        }
                        out
                    },
                    _ => empty,
                }
            } else {
                empty
            }
        },
        IqKind::Update => match &iq.payload {
            IqPayload::Roster(Some(items)) => roster_events(account_id, items),
            _ => empty,
        },
        _ => empty,
    }
}

} // verus!
