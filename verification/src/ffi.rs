//! The values and errors the platform binding exchanges with the core:
//! plain records and enums without transport, XML or secret types.

use vstd::prelude::*;
use crate::caps::{all_capabilities, ProtocolCapability};
use crate::coordinator::TransportCoordinatorError;
use crate::model::{
    capability_label, capability_name, core_error_text, Account, Attachment, ConnectionState, Contact,
    ContactPresence, Conversation, ConversationKind, CoreError, CoreEvent, CoreSnapshot,
    DeliveryState, DisconnectKind, Message, MessageDirection, MessageKind, Reaction,
    RosterSubscription,
};
use crate::persistence::{persistence_error_text, PersistenceError, StateFileMetadata, CURRENT_SCHEMA_VERSION};
use crate::proxy::{endpoint_check, ProxyConfig, ProxyFailure, ProxyKind, ProxyProbe};
use crate::transport::TransportError;
use crate::text::{blank, decimal, decimal_text, is_blank};

verus! {

/// State of an XMPP account as rendered by the platform UI.
#[derive(Clone, Copy, Debug, PartialEq, Eq, Structural)]
pub enum FfiConnectionState {
    Offline,
    Connecting,
    Online,
    Failed,
}

/// The binding value of a connection state.
pub open spec fn ffi_connection_state(value: ConnectionState) -> FfiConnectionState {
    match value {
        ConnectionState::Offline => FfiConnectionState::Offline,
        ConnectionState::Connecting => FfiConnectionState::Connecting,
        ConnectionState::Online => FfiConnectionState::Online,
        ConnectionState::Failed => FfiConnectionState::Failed,
    }
}

impl From<ConnectionState> for FfiConnectionState {
    fn from(value: ConnectionState) -> (r: Self)
        ensures
            r == ffi_connection_state(value),
    {
        match value {
            ConnectionState::Offline => FfiConnectionState::Offline,
            ConnectionState::Connecting => FfiConnectionState::Connecting,
            ConnectionState::Online => FfiConnectionState::Online,
            ConnectionState::Failed => FfiConnectionState::Failed,
        }
    }
}

impl vstd::std_specs::convert::FromSpecImpl<ConnectionState> for FfiConnectionState {
    open spec fn obeys_from_spec() -> bool {
        true
    }

    open spec fn from_spec(value: ConnectionState) -> Self {
        ffi_connection_state(value)
    }
}

/// The domain value of a binding connection state.
pub open spec fn domain_connection_state(value: FfiConnectionState) -> ConnectionState {
    match value {
        FfiConnectionState::Offline => ConnectionState::Offline,
        FfiConnectionState::Connecting => ConnectionState::Connecting,
        FfiConnectionState::Online => ConnectionState::Online,
        FfiConnectionState::Failed => ConnectionState::Failed,
    }
}

impl From<FfiConnectionState> for ConnectionState {
    fn from(value: FfiConnectionState) -> (r: Self)
        ensures
            r == domain_connection_state(value),
    {
        match value {
            FfiConnectionState::Offline => ConnectionState::Offline,
            FfiConnectionState::Connecting => ConnectionState::Connecting,
            FfiConnectionState::Online => ConnectionState::Online,
            FfiConnectionState::Failed => ConnectionState::Failed,
        }
    }
}

impl vstd::std_specs::convert::FromSpecImpl<FfiConnectionState> for ConnectionState {
    open spec fn obeys_from_spec() -> bool {
        true
    }

    open spec fn from_spec(value: FfiConnectionState) -> Self {
        domain_connection_state(value)
    }
}

/// Typed reason an account left the connected state, rendered as the bucket label above the detail text.
#[derive(Clone, Copy, Debug, PartialEq, Eq, Structural)]
pub enum FfiDisconnectKind {
    AuthenticationFailed,
    TlsVerificationFailed,
    ServerRefused,
    NetworkLost,
    Cancelled,
    Unknown,
}

/// The binding value of a disconnect kind.
pub open spec fn ffi_disconnect_kind(value: DisconnectKind) -> FfiDisconnectKind {
    match value {
        DisconnectKind::AuthenticationFailed => FfiDisconnectKind::AuthenticationFailed,
        DisconnectKind::TlsVerificationFailed => FfiDisconnectKind::TlsVerificationFailed,
        DisconnectKind::ServerRefused => FfiDisconnectKind::ServerRefused,
        DisconnectKind::NetworkLost => FfiDisconnectKind::NetworkLost,
        DisconnectKind::Cancelled => FfiDisconnectKind::Cancelled,
        DisconnectKind::Unknown => FfiDisconnectKind::Unknown,
    }
}

impl From<DisconnectKind> for FfiDisconnectKind {
    fn from(value: DisconnectKind) -> (r: Self)
        ensures
            r == ffi_disconnect_kind(value),
    {
        match value {
            DisconnectKind::AuthenticationFailed => FfiDisconnectKind::AuthenticationFailed,
            DisconnectKind::TlsVerificationFailed => FfiDisconnectKind::TlsVerificationFailed,
            DisconnectKind::ServerRefused => FfiDisconnectKind::ServerRefused,
            DisconnectKind::NetworkLost => FfiDisconnectKind::NetworkLost,
            DisconnectKind::Cancelled => FfiDisconnectKind::Cancelled,
            DisconnectKind::Unknown => FfiDisconnectKind::Unknown,
        }
    }
}

impl vstd::std_specs::convert::FromSpecImpl<DisconnectKind> for FfiDisconnectKind {
    open spec fn obeys_from_spec() -> bool {
        true
    }

    open spec fn from_spec(value: DisconnectKind) -> Self {
        ffi_disconnect_kind(value)
    }
}

/// The domain value of a binding disconnect kind.
pub open spec fn domain_disconnect_kind(value: FfiDisconnectKind) -> DisconnectKind {
    match value {
        FfiDisconnectKind::AuthenticationFailed => DisconnectKind::AuthenticationFailed,
        FfiDisconnectKind::TlsVerificationFailed => DisconnectKind::TlsVerificationFailed,
        FfiDisconnectKind::ServerRefused => DisconnectKind::ServerRefused,
        FfiDisconnectKind::NetworkLost => DisconnectKind::NetworkLost,
        FfiDisconnectKind::Cancelled => DisconnectKind::Cancelled,
        FfiDisconnectKind::Unknown => DisconnectKind::Unknown,
    }
}

impl From<FfiDisconnectKind> for DisconnectKind {
    fn from(value: FfiDisconnectKind) -> (r: Self)
        ensures
            r == domain_disconnect_kind(value),
    {
        match value {
            FfiDisconnectKind::AuthenticationFailed => DisconnectKind::AuthenticationFailed,
            FfiDisconnectKind::TlsVerificationFailed => DisconnectKind::TlsVerificationFailed,
            FfiDisconnectKind::ServerRefused => DisconnectKind::ServerRefused,
            FfiDisconnectKind::NetworkLost => DisconnectKind::NetworkLost,
            FfiDisconnectKind::Cancelled => DisconnectKind::Cancelled,
            FfiDisconnectKind::Unknown => DisconnectKind::Unknown,
        }
    }
}

impl vstd::std_specs::convert::FromSpecImpl<FfiDisconnectKind> for DisconnectKind {
    open spec fn obeys_from_spec() -> bool {
        true
    }

    open spec fn from_spec(value: FfiDisconnectKind) -> Self {
        domain_disconnect_kind(value)
    }
}

/// Presence shown for a roster contact.
#[derive(Clone, Copy, Debug, PartialEq, Eq, Structural)]
pub enum FfiContactPresence {
    Online,
    Away,
    DoNotDisturb,
    Offline,
}

/// The binding value of a contact presence.
pub open spec fn ffi_contact_presence(value: ContactPresence) -> FfiContactPresence {
    match value {
        ContactPresence::Online => FfiContactPresence::Online,
        ContactPresence::Away => FfiContactPresence::Away,
        ContactPresence::DoNotDisturb => FfiContactPresence::DoNotDisturb,
        ContactPresence::Offline => FfiContactPresence::Offline,
    }
}

impl From<ContactPresence> for FfiContactPresence {
    fn from(value: ContactPresence) -> (r: Self)
        ensures
            r == ffi_contact_presence(value),
    {
        match value {
            ContactPresence::Online => FfiContactPresence::Online,
            ContactPresence::Away => FfiContactPresence::Away,
            ContactPresence::DoNotDisturb => FfiContactPresence::DoNotDisturb,
            ContactPresence::Offline => FfiContactPresence::Offline,
        }
    }
}

impl vstd::std_specs::convert::FromSpecImpl<ContactPresence> for FfiContactPresence {
    open spec fn obeys_from_spec() -> bool {
        true
    }

    open spec fn from_spec(value: ContactPresence) -> Self {
        ffi_contact_presence(value)
    }
}

/// The domain value of a binding contact presence.
pub open spec fn domain_contact_presence(value: FfiContactPresence) -> ContactPresence {
    match value {
        FfiContactPresence::Online => ContactPresence::Online,
        FfiContactPresence::Away => ContactPresence::Away,
        FfiContactPresence::DoNotDisturb => ContactPresence::DoNotDisturb,
        FfiContactPresence::Offline => ContactPresence::Offline,
    }
}

impl From<FfiContactPresence> for ContactPresence {
    fn from(value: FfiContactPresence) -> (r: Self)
        ensures
            r == domain_contact_presence(value),
    {
        match value {
            FfiContactPresence::Online => ContactPresence::Online,
            FfiContactPresence::Away => ContactPresence::Away,
            FfiContactPresence::DoNotDisturb => ContactPresence::DoNotDisturb,
            FfiContactPresence::Offline => ContactPresence::Offline,
        }
    }
}

impl vstd::std_specs::convert::FromSpecImpl<FfiContactPresence> for ContactPresence {
    open spec fn obeys_from_spec() -> bool {
        true
    }

    open spec fn from_spec(value: FfiContactPresence) -> Self {
        domain_contact_presence(value)
    }
}

/// Presence subscription state of a roster contact.
#[derive(Clone, Copy, Debug, PartialEq, Eq, Structural)]
pub enum FfiRosterSubscription {
    Neither,
    Inbound,
    Outbound,
    Mutual,
    PendingOutbound,
}

/// The binding value of a roster subscription.
pub open spec fn ffi_roster_subscription(value: RosterSubscription) -> FfiRosterSubscription {
    match value {
        RosterSubscription::Neither => FfiRosterSubscription::Neither,
        RosterSubscription::Inbound => FfiRosterSubscription::Inbound,
        RosterSubscription::Outbound => FfiRosterSubscription::Outbound,
        RosterSubscription::Mutual => FfiRosterSubscription::Mutual,
        RosterSubscription::PendingOutbound => FfiRosterSubscription::PendingOutbound,
    }
}

impl From<RosterSubscription> for FfiRosterSubscription {
    fn from(value: RosterSubscription) -> (r: Self)
        ensures
            r == ffi_roster_subscription(value),
    {
        match value {
            RosterSubscription::Neither => FfiRosterSubscription::Neither,
            RosterSubscription::Inbound => FfiRosterSubscription::Inbound,
            RosterSubscription::Outbound => FfiRosterSubscription::Outbound,
            RosterSubscription::Mutual => FfiRosterSubscription::Mutual,
            RosterSubscription::PendingOutbound => FfiRosterSubscription::PendingOutbound,
        }
    }
}

impl vstd::std_specs::convert::FromSpecImpl<RosterSubscription> for FfiRosterSubscription {
    open spec fn obeys_from_spec() -> bool {
        true
    }

    open spec fn from_spec(value: RosterSubscription) -> Self {
        ffi_roster_subscription(value)
    }
}

/// The domain value of a binding roster subscription.
pub open spec fn domain_roster_subscription(value: FfiRosterSubscription) -> RosterSubscription {
    match value {
        FfiRosterSubscription::Neither => RosterSubscription::Neither,
        FfiRosterSubscription::Inbound => RosterSubscription::Inbound,
        FfiRosterSubscription::Outbound => RosterSubscription::Outbound,
        FfiRosterSubscription::Mutual => RosterSubscription::Mutual,
        FfiRosterSubscription::PendingOutbound => RosterSubscription::PendingOutbound,
    }
}

impl From<FfiRosterSubscription> for RosterSubscription {
    fn from(value: FfiRosterSubscription) -> (r: Self)
        ensures
            r == domain_roster_subscription(value),
    {
        match value {
            FfiRosterSubscription::Neither => RosterSubscription::Neither,
            FfiRosterSubscription::Inbound => RosterSubscription::Inbound,
            FfiRosterSubscription::Outbound => RosterSubscription::Outbound,
            FfiRosterSubscription::Mutual => RosterSubscription::Mutual,
            FfiRosterSubscription::PendingOutbound => RosterSubscription::PendingOutbound,
        }
    }
}

impl vstd::std_specs::convert::FromSpecImpl<FfiRosterSubscription> for RosterSubscription {
    open spec fn obeys_from_spec() -> bool {
        true
    }

    open spec fn from_spec(value: FfiRosterSubscription) -> Self {
        domain_roster_subscription(value)
    }
}

/// Kind of a conversation.
#[derive(Clone, Copy, Debug, PartialEq, Eq, Structural)]
pub enum FfiConversationKind {
    Direct,
    MultiUserChat,
}

/// The binding value of a conversation kind.
pub open spec fn ffi_conversation_kind(value: ConversationKind) -> FfiConversationKind {
    match value {
        ConversationKind::Direct => FfiConversationKind::Direct,
        ConversationKind::MultiUserChat => FfiConversationKind::MultiUserChat,
    }
}

impl From<ConversationKind> for FfiConversationKind {
    fn from(value: ConversationKind) -> (r: Self)
        ensures
            r == ffi_conversation_kind(value),
    {
        match value {
            ConversationKind::Direct => FfiConversationKind::Direct,
            ConversationKind::MultiUserChat => FfiConversationKind::MultiUserChat,
        }
    }
}

impl vstd::std_specs::convert::FromSpecImpl<ConversationKind> for FfiConversationKind {
    open spec fn obeys_from_spec() -> bool {
        true
    }

    open spec fn from_spec(value: ConversationKind) -> Self {
        ffi_conversation_kind(value)
    }
}

/// The domain value of a binding conversation kind.
pub open spec fn domain_conversation_kind(value: FfiConversationKind) -> ConversationKind {
    match value {
        FfiConversationKind::Direct => ConversationKind::Direct,
        FfiConversationKind::MultiUserChat => ConversationKind::MultiUserChat,
    }
}

impl From<FfiConversationKind> for ConversationKind {
    fn from(value: FfiConversationKind) -> (r: Self)
        ensures
            r == domain_conversation_kind(value),
    {
        match value {
            FfiConversationKind::Direct => ConversationKind::Direct,
            FfiConversationKind::MultiUserChat => ConversationKind::MultiUserChat,
        }
    }
}

impl vstd::std_specs::convert::FromSpecImpl<FfiConversationKind> for ConversationKind {
    open spec fn obeys_from_spec() -> bool {
        true
    }

    open spec fn from_spec(value: FfiConversationKind) -> Self {
        domain_conversation_kind(value)
    }
}

/// Direction of a message relative to the local account.
#[derive(Clone, Copy, Debug, PartialEq, Eq, Structural)]
pub enum FfiMessageDirection {
    Incoming,
    Outgoing,
}

/// The binding value of a message direction.
pub open spec fn ffi_message_direction(value: MessageDirection) -> FfiMessageDirection {
    match value {
        MessageDirection::Incoming => FfiMessageDirection::Incoming,
        MessageDirection::Outgoing => FfiMessageDirection::Outgoing,
    }
}

impl From<MessageDirection> for FfiMessageDirection {
    fn from(value: MessageDirection) -> (r: Self)
        ensures
            r == ffi_message_direction(value),
    {
        match value {
            MessageDirection::Incoming => FfiMessageDirection::Incoming,
            MessageDirection::Outgoing => FfiMessageDirection::Outgoing,
        }
    }
}

impl vstd::std_specs::convert::FromSpecImpl<MessageDirection> for FfiMessageDirection {
    open spec fn obeys_from_spec() -> bool {
        true
    }

    open spec fn from_spec(value: MessageDirection) -> Self {
        ffi_message_direction(value)
    }
}

/// Delivery state of a message.
#[derive(Clone, Copy, Debug, PartialEq, Eq, Structural)]
pub enum FfiDeliveryState {
    Pending,
    Sent,
    Delivered,
    Read,
    Failed,
}

/// The binding value of a delivery state.
pub open spec fn ffi_delivery_state(value: DeliveryState) -> FfiDeliveryState {
    match value {
        DeliveryState::Pending => FfiDeliveryState::Pending,
        DeliveryState::Sent => FfiDeliveryState::Sent,
        DeliveryState::Delivered => FfiDeliveryState::Delivered,
        DeliveryState::Read => FfiDeliveryState::Read,
        DeliveryState::Failed => FfiDeliveryState::Failed,
    }
}

impl From<DeliveryState> for FfiDeliveryState {
    fn from(value: DeliveryState) -> (r: Self)
        ensures
            r == ffi_delivery_state(value),
    {
        match value {
            DeliveryState::Pending => FfiDeliveryState::Pending,
            DeliveryState::Sent => FfiDeliveryState::Sent,
            DeliveryState::Delivered => FfiDeliveryState::Delivered,
            DeliveryState::Read => FfiDeliveryState::Read,
            DeliveryState::Failed => FfiDeliveryState::Failed,
        }
    }
}

impl vstd::std_specs::convert::FromSpecImpl<DeliveryState> for FfiDeliveryState {
    open spec fn obeys_from_spec() -> bool {
        true
    }

    open spec fn from_spec(value: DeliveryState) -> Self {
        ffi_delivery_state(value)
    }
}

/// Payload category of a message.
#[derive(Clone, Copy, Debug, PartialEq, Eq, Structural)]
pub enum FfiMessageKind {
    Text,
    Attachment,
    Voice,
}

/// The binding value of a message kind.
pub open spec fn ffi_message_kind(value: MessageKind) -> FfiMessageKind {
    match value {
        MessageKind::Text => FfiMessageKind::Text,
        MessageKind::Attachment => FfiMessageKind::Attachment,
        MessageKind::Voice => FfiMessageKind::Voice,
    }
}

impl From<MessageKind> for FfiMessageKind {
    fn from(value: MessageKind) -> (r: Self)
        ensures
            r == ffi_message_kind(value),
    {
        match value {
            MessageKind::Text => FfiMessageKind::Text,
            MessageKind::Attachment => FfiMessageKind::Attachment,
            MessageKind::Voice => FfiMessageKind::Voice,
        }
    }
}

impl vstd::std_specs::convert::FromSpecImpl<MessageKind> for FfiMessageKind {
    open spec fn obeys_from_spec() -> bool {
        true
    }

    open spec fn from_spec(value: MessageKind) -> Self {
        ffi_message_kind(value)
    }
}

/// XMPP feature discovered for an account.
#[derive(Clone, Copy, Debug, PartialEq, Eq, Structural)]
pub enum FfiProtocolCapability {
    MultiUserChat,
    MessageArchiveManagement,
    StreamManagement,
    HttpFileUpload,
    Omemo,
    PushNotifications,
    Receipts,
    ChatMarkers,
    ChatStates,
    MessageReactions,
    MessageCorrections,
    MessageReplies,
    SharedPins,
}

/// The binding value of a protocol capability.
pub open spec fn ffi_protocol_capability(value: ProtocolCapability) -> FfiProtocolCapability {
    match value {
        ProtocolCapability::MultiUserChat => FfiProtocolCapability::MultiUserChat,
        ProtocolCapability::MessageArchiveManagement => FfiProtocolCapability::MessageArchiveManagement,
        ProtocolCapability::StreamManagement => FfiProtocolCapability::StreamManagement,
        ProtocolCapability::HttpFileUpload => FfiProtocolCapability::HttpFileUpload,
        ProtocolCapability::Omemo => FfiProtocolCapability::Omemo,
        ProtocolCapability::PushNotifications => FfiProtocolCapability::PushNotifications,
        ProtocolCapability::Receipts => FfiProtocolCapability::Receipts,
        ProtocolCapability::ChatMarkers => FfiProtocolCapability::ChatMarkers,
        ProtocolCapability::ChatStates => FfiProtocolCapability::ChatStates,
        ProtocolCapability::MessageReactions => FfiProtocolCapability::MessageReactions,
        ProtocolCapability::MessageCorrections => FfiProtocolCapability::MessageCorrections,
        ProtocolCapability::MessageReplies => FfiProtocolCapability::MessageReplies,
        ProtocolCapability::SharedPins => FfiProtocolCapability::SharedPins,
    }
}

impl From<ProtocolCapability> for FfiProtocolCapability {
    fn from(value: ProtocolCapability) -> (r: Self)
        ensures
            r == ffi_protocol_capability(value),
    {
        match value {
            ProtocolCapability::MultiUserChat => FfiProtocolCapability::MultiUserChat,
            ProtocolCapability::MessageArchiveManagement => FfiProtocolCapability::MessageArchiveManagement,
            ProtocolCapability::StreamManagement => FfiProtocolCapability::StreamManagement,
            ProtocolCapability::HttpFileUpload => FfiProtocolCapability::HttpFileUpload,
            ProtocolCapability::Omemo => FfiProtocolCapability::Omemo,
            ProtocolCapability::PushNotifications => FfiProtocolCapability::PushNotifications,
            ProtocolCapability::Receipts => FfiProtocolCapability::Receipts,
            ProtocolCapability::ChatMarkers => FfiProtocolCapability::ChatMarkers,
            ProtocolCapability::ChatStates => FfiProtocolCapability::ChatStates,
            ProtocolCapability::MessageReactions => FfiProtocolCapability::MessageReactions,
            ProtocolCapability::MessageCorrections => FfiProtocolCapability::MessageCorrections,
            ProtocolCapability::MessageReplies => FfiProtocolCapability::MessageReplies,
            ProtocolCapability::SharedPins => FfiProtocolCapability::SharedPins,
        }
    }
}

impl vstd::std_specs::convert::FromSpecImpl<ProtocolCapability> for FfiProtocolCapability {
    open spec fn obeys_from_spec() -> bool {
        true
    }

    open spec fn from_spec(value: ProtocolCapability) -> Self {
        ffi_protocol_capability(value)
    }
}

/// The domain value of a binding protocol capability.
pub open spec fn domain_protocol_capability(value: FfiProtocolCapability) -> ProtocolCapability {
    match value {
        FfiProtocolCapability::MultiUserChat => ProtocolCapability::MultiUserChat,
        FfiProtocolCapability::MessageArchiveManagement => ProtocolCapability::MessageArchiveManagement,
        FfiProtocolCapability::StreamManagement => ProtocolCapability::StreamManagement,
        FfiProtocolCapability::HttpFileUpload => ProtocolCapability::HttpFileUpload,
        FfiProtocolCapability::Omemo => ProtocolCapability::Omemo,
        FfiProtocolCapability::PushNotifications => ProtocolCapability::PushNotifications,
        FfiProtocolCapability::Receipts => ProtocolCapability::Receipts,
        FfiProtocolCapability::ChatMarkers => ProtocolCapability::ChatMarkers,
        FfiProtocolCapability::ChatStates => ProtocolCapability::ChatStates,
        FfiProtocolCapability::MessageReactions => ProtocolCapability::MessageReactions,
        FfiProtocolCapability::MessageCorrections => ProtocolCapability::MessageCorrections,
        FfiProtocolCapability::MessageReplies => ProtocolCapability::MessageReplies,
        FfiProtocolCapability::SharedPins => ProtocolCapability::SharedPins,
    }
}

impl From<FfiProtocolCapability> for ProtocolCapability {
    fn from(value: FfiProtocolCapability) -> (r: Self)
        ensures
            r == domain_protocol_capability(value),
    {
        match value {
            FfiProtocolCapability::MultiUserChat => ProtocolCapability::MultiUserChat,
            FfiProtocolCapability::MessageArchiveManagement => ProtocolCapability::MessageArchiveManagement,
            FfiProtocolCapability::StreamManagement => ProtocolCapability::StreamManagement,
            FfiProtocolCapability::HttpFileUpload => ProtocolCapability::HttpFileUpload,
            FfiProtocolCapability::Omemo => ProtocolCapability::Omemo,
            FfiProtocolCapability::PushNotifications => ProtocolCapability::PushNotifications,
            FfiProtocolCapability::Receipts => ProtocolCapability::Receipts,
            FfiProtocolCapability::ChatMarkers => ProtocolCapability::ChatMarkers,
            FfiProtocolCapability::ChatStates => ProtocolCapability::ChatStates,
            FfiProtocolCapability::MessageReactions => ProtocolCapability::MessageReactions,
            FfiProtocolCapability::MessageCorrections => ProtocolCapability::MessageCorrections,
            FfiProtocolCapability::MessageReplies => ProtocolCapability::MessageReplies,
            FfiProtocolCapability::SharedPins => ProtocolCapability::SharedPins,
        }
    }
}

impl vstd::std_specs::convert::FromSpecImpl<FfiProtocolCapability> for ProtocolCapability {
    open spec fn obeys_from_spec() -> bool {
        true
    }

    open spec fn from_spec(value: FfiProtocolCapability) -> Self {
        domain_protocol_capability(value)
    }
}

/// How a proxy tunnel is established.
#[derive(Clone, Copy, Debug, PartialEq, Eq, Structural)]
pub enum FfiProxyKind {
    Socks5,
    HttpConnect,
}

/// The binding value of a proxy kind.
pub open spec fn ffi_proxy_kind(value: ProxyKind) -> FfiProxyKind {
    match value {
        ProxyKind::Socks5 => FfiProxyKind::Socks5,
        ProxyKind::HttpConnect => FfiProxyKind::HttpConnect,
    }
}

impl From<ProxyKind> for FfiProxyKind {
    fn from(value: ProxyKind) -> (r: Self)
        ensures
            r == ffi_proxy_kind(value),
    {
        match value {
            ProxyKind::Socks5 => FfiProxyKind::Socks5,
            ProxyKind::HttpConnect => FfiProxyKind::HttpConnect,
        }
    }
}

impl vstd::std_specs::convert::FromSpecImpl<ProxyKind> for FfiProxyKind {
    open spec fn obeys_from_spec() -> bool {
        true
    }

    open spec fn from_spec(value: ProxyKind) -> Self {
        ffi_proxy_kind(value)
    }
}

/// The domain value of a binding proxy kind.
pub open spec fn domain_proxy_kind(value: FfiProxyKind) -> ProxyKind {
    match value {
        FfiProxyKind::Socks5 => ProxyKind::Socks5,
        FfiProxyKind::HttpConnect => ProxyKind::HttpConnect,
    }
}

impl From<FfiProxyKind> for ProxyKind {
    fn from(value: FfiProxyKind) -> (r: Self)
        ensures
            r == domain_proxy_kind(value),
    {
        match value {
            FfiProxyKind::Socks5 => ProxyKind::Socks5,
            FfiProxyKind::HttpConnect => ProxyKind::HttpConnect,
        }
    }
}

impl vstd::std_specs::convert::FromSpecImpl<FfiProxyKind> for ProxyKind {
    open spec fn obeys_from_spec() -> bool {
        true
    }

    open spec fn from_spec(value: FfiProxyKind) -> Self {
        domain_proxy_kind(value)
    }
}

/// Non-secret proxy configuration safe for display and persistence; proxy
/// credentials are supplied per call, never stored.
#[derive(Clone, Debug, PartialEq, Eq)]
pub struct FfiProxyConfig {
    pub host: String,
    pub port: u16,
    pub kind: FfiProxyKind,
}

impl From<ProxyConfig> for FfiProxyConfig {
    fn from(value: ProxyConfig) -> (r: Self)
        ensures
            r == (FfiProxyConfig { host: value.host, port: value.port, kind: ffi_proxy_kind(value.kind) }),
    {
        FfiProxyConfig { host: value.host, port: value.port, kind: FfiProxyKind::from(value.kind) }
    }
}

impl vstd::std_specs::convert::FromSpecImpl<ProxyConfig> for FfiProxyConfig {
    open spec fn obeys_from_spec() -> bool {
        true
    }

    open spec fn from_spec(value: ProxyConfig) -> Self {
        FfiProxyConfig { host: value.host, port: value.port, kind: ffi_proxy_kind(value.kind) }
    }
}

/// Outcome of a proxy probe, safe to show in the UI.
#[derive(Clone, Debug, PartialEq, Eq)]
pub struct FfiProxyProbe {
    pub ok: bool,
    pub latency_ms: u64,
    pub error: Option<String>,
}

impl From<ProxyProbe> for FfiProxyProbe {
    fn from(value: ProxyProbe) -> (r: Self)
        ensures
            r == (FfiProxyProbe { ok: value.ok, latency_ms: value.latency_ms, error: value.error }),
    {
        FfiProxyProbe { ok: value.ok, latency_ms: value.latency_ms, error: value.error }
    }
}

impl vstd::std_specs::convert::FromSpecImpl<ProxyProbe> for FfiProxyProbe {
    open spec fn obeys_from_spec() -> bool {
        true
    }

    open spec fn from_spec(value: ProxyProbe) -> Self {
        FfiProxyProbe { ok: value.ok, latency_ms: value.latency_ms, error: value.error }
    }
}

/// An account record safe for display.
#[derive(Clone, Debug, PartialEq, Eq)]
pub struct FfiAccount {
    pub id: u64,
    pub jid: String,
    pub server: String,
    pub display_name: String,
    pub connection_state: FfiConnectionState,
    /// The discovered capabilities, in declaration order.
    pub capabilities: Vec<FfiProtocolCapability>,
    /// Last connection failure reason, safe to show in the UI.
    pub connection_error: Option<String>,
    /// Typed disconnect classification; `None` while connected or never
    /// disconnected.
    pub disconnect_kind: Option<FfiDisconnectKind>,
}

/// The binding values of capabilities, in order.
pub open spec fn ffi_capabilities(s: Seq<ProtocolCapability>) -> Seq<FfiProtocolCapability> {
    s.map_values(|c: ProtocolCapability| ffi_protocol_capability(c))
}

/// The binding value of an optional disconnect kind.
pub open spec fn ffi_opt_kind(kind: Option<DisconnectKind>) -> Option<FfiDisconnectKind> {
    match kind {
        Some(k) => Some(ffi_disconnect_kind(k)),
        None => None,
    }
}

/// Whether a binding account projects a domain account: the same values,
/// the capabilities listed in declaration order.
pub open spec fn projects_account(r: FfiAccount, a: Account) -> bool {
    &&& r.id == a.id
    &&& r.jid == a.jid
    &&& r.server == a.server
    &&& r.display_name == a.display_name
    &&& r.connection_state == ffi_connection_state(a.connection_state)
    &&& r.capabilities@ == ffi_capabilities(
        all_capabilities().filter(|c: ProtocolCapability| a.capabilities@.contains(c)),
    )
    &&& r.connection_error == a.connection_error
    &&& r.disconnect_kind == ffi_opt_kind(a.disconnect_kind)
}

impl FfiAccount {
    /// The binding projection of an account.
    pub fn from_account(value: Account) -> (r: Self)
        ensures
            projects_account(r, value),
    {
        let list = value.capabilities.to_vec();
        let mut capabilities: Vec<FfiProtocolCapability> = Vec::new();
        let mut i: usize = 0;
        while i < list.len()
            invariant
                i <= list.len(),
                capabilities@ == ffi_capabilities(list@.take(i as int)),
            decreases list.len() - i,
        {
            capabilities.push(FfiProtocolCapability::from(list[i]));
            proof {
                assert(ffi_capabilities(list@.take(i + 1)) =~= ffi_capabilities(list@.take(i as int)).push(
                    ffi_protocol_capability(list@[i as int]),
                ));
            }
            i = i + 1;
        }
        proof {
            assert(list@.take(i as int) =~= list@);
        }
        let disconnect_kind = match value.disconnect_kind {
            Some(k) => Some(FfiDisconnectKind::from(k)),
            None => None,
        };
        FfiAccount {
            id: value.id,
            jid: value.jid,
            server: value.server,
            display_name: value.display_name,
            connection_state: FfiConnectionState::from(value.connection_state),
            capabilities,
            connection_error: value.connection_error,
            disconnect_kind,
        }
    }
}

/// A roster contact record safe for display.
#[derive(Clone, Debug, PartialEq, Eq)]
pub struct FfiContact {
    pub account_id: u64,
    pub jid: String,
    pub display_name: String,
    pub presence: FfiContactPresence,
    pub status: Option<String>,
    pub subscription: FfiRosterSubscription,
}

/// The binding value of a contact.
pub open spec fn ffi_contact(value: Contact) -> FfiContact {
    FfiContact {
        account_id: value.account_id,
        jid: value.jid,
        display_name: value.display_name,
        presence: ffi_contact_presence(value.presence),
        status: value.status,
        subscription: ffi_roster_subscription(value.subscription),
    }
}

impl From<Contact> for FfiContact {
    fn from(value: Contact) -> (r: Self)
        ensures
            r == ffi_contact(value),
    {
        FfiContact {
            account_id: value.account_id,
            jid: value.jid,
            display_name: value.display_name,
            presence: FfiContactPresence::from(value.presence),
            status: value.status,
            subscription: FfiRosterSubscription::from(value.subscription),
        }
    }
}

impl vstd::std_specs::convert::FromSpecImpl<Contact> for FfiContact {
    open spec fn obeys_from_spec() -> bool {
        true
    }

    open spec fn from_spec(value: Contact) -> Self {
        ffi_contact(value)
    }
}

/// A conversation record safe for display.
#[derive(Clone, Debug, PartialEq, Eq)]
pub struct FfiConversation {
    pub id: u64,
    pub account_id: u64,
    pub kind: FfiConversationKind,
    pub address: String,
    pub title: String,
    pub unread_count: u32,
    pub last_activity_epoch_ms: u64,
}

/// The binding value of a conversation.
pub open spec fn ffi_conversation(value: Conversation) -> FfiConversation {
    FfiConversation {
        id: value.id,
        account_id: value.account_id,
        kind: ffi_conversation_kind(value.kind),
        address: value.address,
        title: value.title,
        unread_count: value.unread_count,
        last_activity_epoch_ms: value.last_activity_epoch_ms,
    }
}

impl From<Conversation> for FfiConversation {
    fn from(value: Conversation) -> (r: Self)
        ensures
            r == ffi_conversation(value),
    {
        FfiConversation {
            id: value.id,
            account_id: value.account_id,
            kind: FfiConversationKind::from(value.kind),
            address: value.address,
            title: value.title,
            unread_count: value.unread_count,
            last_activity_epoch_ms: value.last_activity_epoch_ms,
        }
    }
}

impl vstd::std_specs::convert::FromSpecImpl<Conversation> for FfiConversation {
    open spec fn obeys_from_spec() -> bool {
        true
    }

    open spec fn from_spec(value: Conversation) -> Self {
        ffi_conversation(value)
    }
}

/// Attachment metadata.
#[derive(Clone, Debug, PartialEq, Eq)]
pub struct FfiAttachment {
    pub id: String,
    pub filename: String,
    pub mime_type: String,
    pub byte_count: u64,
    pub remote_url: Option<String>,
}

/// The binding value of an attachment.
pub open spec fn ffi_attachment(value: Attachment) -> FfiAttachment {
    FfiAttachment {
        id: value.id,
        filename: value.filename,
        mime_type: value.mime_type,
        byte_count: value.byte_count,
        remote_url: value.remote_url,
    }
}

impl From<Attachment> for FfiAttachment {
    fn from(value: Attachment) -> (r: Self)
        ensures
            r == ffi_attachment(value),
    {
        FfiAttachment {
            id: value.id,
            filename: value.filename,
            mime_type: value.mime_type,
            byte_count: value.byte_count,
            remote_url: value.remote_url,
        }
    }
}

impl vstd::std_specs::convert::FromSpecImpl<Attachment> for FfiAttachment {
    open spec fn obeys_from_spec() -> bool {
        true
    }

    open spec fn from_spec(value: Attachment) -> Self {
        ffi_attachment(value)
    }
}

/// A message record safe for display.
#[derive(Clone, Debug, PartialEq, Eq)]
pub struct FfiMessage {
    pub id: u64,
    pub conversation_id: u64,
    pub sender: String,
    pub body: String,
    pub direction: FfiMessageDirection,
    pub kind: FfiMessageKind,
    pub sent_at_epoch_ms: u64,
    pub delivery_state: FfiDeliveryState,
    pub in_reply_to: Option<u64>,
    pub attachment: Option<FfiAttachment>,
}

/// The binding value of a message.
pub open spec fn ffi_message(value: Message) -> FfiMessage {
    FfiMessage {
        id: value.id,
        conversation_id: value.conversation_id,
        sender: value.sender,
        body: value.body,
        direction: ffi_message_direction(value.direction),
        kind: ffi_message_kind(value.kind),
        sent_at_epoch_ms: value.sent_at_epoch_ms,
        delivery_state: ffi_delivery_state(value.delivery_state),
        in_reply_to: value.in_reply_to,
        attachment: match value.attachment {
            Some(a) => Some(ffi_attachment(a)),
            None => None,
        },
    }
}

impl From<Message> for FfiMessage {
    fn from(value: Message) -> (r: Self)
        ensures
            r == ffi_message(value),
    {
        let attachment = match value.attachment {
            Some(a) => Some(FfiAttachment::from(a)),
            None => None,
        };
        FfiMessage {
            id: value.id,
            conversation_id: value.conversation_id,
            sender: value.sender,
            body: value.body,
            direction: FfiMessageDirection::from(value.direction),
            kind: FfiMessageKind::from(value.kind),
            sent_at_epoch_ms: value.sent_at_epoch_ms,
            delivery_state: FfiDeliveryState::from(value.delivery_state),
            in_reply_to: value.in_reply_to,
            attachment,
        }
    }
}

impl vstd::std_specs::convert::FromSpecImpl<Message> for FfiMessage {
    open spec fn obeys_from_spec() -> bool {
        true
    }

    open spec fn from_spec(value: Message) -> Self {
        ffi_message(value)
    }
}

/// A reaction record.
#[derive(Clone, Debug, PartialEq, Eq)]
pub struct FfiReaction {
    pub id: u64,
    pub message_id: u64,
    pub emoji: String,
    pub actor: String,
}

/// The binding value of a reaction.
pub open spec fn ffi_reaction(value: Reaction) -> FfiReaction {
    FfiReaction { id: value.id, message_id: value.message_id, emoji: value.emoji, actor: value.actor }
}

impl From<Reaction> for FfiReaction {
    fn from(value: Reaction) -> (r: Self)
        ensures
            r == ffi_reaction(value),
    {
        FfiReaction { id: value.id, message_id: value.message_id, emoji: value.emoji, actor: value.actor }
    }
}

impl vstd::std_specs::convert::FromSpecImpl<Reaction> for FfiReaction {
    open spec fn obeys_from_spec() -> bool {
        true
    }

    open spec fn from_spec(value: Reaction) -> Self {
        ffi_reaction(value)
    }
}

/// The complete UI snapshot: no XML, handles, passwords or key material.
#[derive(Clone, Debug, PartialEq, Eq)]
pub struct FfiCoreSnapshot {
    pub accounts: Vec<FfiAccount>,
    pub contacts: Vec<FfiContact>,
    pub conversations: Vec<FfiConversation>,
    pub messages: Vec<FfiMessage>,
    pub reactions: Vec<FfiReaction>,
}

/// Whether a binding snapshot projects a domain snapshot record by record.
pub open spec fn projects_snapshot(r: FfiCoreSnapshot, s: CoreSnapshot) -> bool {
    &&& r.accounts@.len() == s.accounts@.len()
    &&& forall|i: int| 0 <= i < r.accounts@.len() ==> #[trigger] projects_account(
        r.accounts@[i],
        s.accounts@[i],
    )
    &&& r.contacts@ == s.contacts@.map_values(|c: Contact| ffi_contact(c))
    &&& r.conversations@ == s.conversations@.map_values(|c: Conversation| ffi_conversation(c))
    &&& r.messages@ == s.messages@.map_values(|m: Message| ffi_message(m))
    &&& r.reactions@ == s.reactions@.map_values(|x: Reaction| ffi_reaction(x))
}

impl FfiCoreSnapshot {
    /// The binding projection of a snapshot.
    pub fn from_snapshot(value: CoreSnapshot) -> (r: Self)
        ensures
            projects_snapshot(r, value),
    {
        let mut accounts: Vec<FfiAccount> = Vec::new();
        let mut i: usize = 0;
        while i < value.accounts.len()
            invariant
                i <= value.accounts.len(),
                accounts@.len() == i,
                forall|k: int| 0 <= k < i ==> #[trigger] projects_account(
                    accounts@[k],
                    value.accounts@[k],
                ),
            decreases value.accounts.len() - i,
        {
            accounts.push(FfiAccount::from_account(value.accounts[i].clone()));
            i = i + 1;
        }
        let mut contacts: Vec<FfiContact> = Vec::new();
        let mut j: usize = 0;
        while j < value.contacts.len()
            invariant
                j <= value.contacts.len(),
                contacts@ == value.contacts@.take(j as int).map_values(|c: Contact| ffi_contact(c)),
            decreases value.contacts.len() - j,
        {
            contacts.push(FfiContact::from(value.contacts[j].clone()));
            proof {
                assert(value.contacts@.take(j + 1).map_values(|c: Contact| ffi_contact(c)) =~= value.contacts@.take(
                    j as int,
                ).map_values(|c: Contact| ffi_contact(c)).push(ffi_contact(value.contacts@[j as int])));
            }
            j = j + 1;
        }
        let mut conversations: Vec<FfiConversation> = Vec::new();
        let mut k: usize = 0;
        while k < value.conversations.len()
            invariant
                k <= value.conversations.len(),
                conversations@ == value.conversations@.take(k as int).map_values(
                    |c: Conversation| ffi_conversation(c),
                ),
            decreases value.conversations.len() - k,
        {
            conversations.push(FfiConversation::from(value.conversations[k].clone()));
            proof {
                assert(value.conversations@.take(k + 1).map_values(|c: Conversation| ffi_conversation(c))
                    =~= value.conversations@.take(k as int).map_values(
                    |c: Conversation| ffi_conversation(c),
                ).push(ffi_conversation(value.conversations@[k as int])));
            }
            k = k + 1;
        }
        let mut messages: Vec<FfiMessage> = Vec::new();
        let mut m: usize = 0;
        while m < value.messages.len()
            invariant
                m <= value.messages.len(),
                messages@ == value.messages@.take(m as int).map_values(|x: Message| ffi_message(x)),
            decreases value.messages.len() - m,
        {
            messages.push(FfiMessage::from(value.messages[m].clone()));
            proof {
                assert(value.messages@.take(m + 1).map_values(|x: Message| ffi_message(x)) =~= value.messages@.take(
                    m as int,
                ).map_values(|x: Message| ffi_message(x)).push(ffi_message(value.messages@[m as int])));
            }
            m = m + 1;
        }
        let mut reactions: Vec<FfiReaction> = Vec::new();
        let mut n: usize = 0;
        while n < value.reactions.len()
            invariant
                n <= value.reactions.len(),
                reactions@ == value.reactions@.take(n as int).map_values(|x: Reaction| ffi_reaction(x)),
            decreases value.reactions.len() - n,
        {
            reactions.push(FfiReaction::from(value.reactions[n].clone()));
            proof {
                assert(value.reactions@.take(n + 1).map_values(|x: Reaction| ffi_reaction(x)) =~= value.reactions@.take(
                    n as int,
                ).map_values(|x: Reaction| ffi_reaction(x)).push(ffi_reaction(value.reactions@[n as int])));
            }
            n = n + 1;
        }
        proof {
            assert(value.contacts@.take(j as int) =~= value.contacts@);
            assert(value.conversations@.take(k as int) =~= value.conversations@);
            assert(value.messages@.take(m as int) =~= value.messages@);
            assert(value.reactions@.take(n as int) =~= value.reactions@);
        }
        FfiCoreSnapshot { accounts, contacts, conversations, messages, reactions }
    }
}

/// Notification emitted after a state change.
#[derive(Clone, Copy, Debug, PartialEq, Eq, Structural)]
pub enum FfiCoreEvent {
    AccountChanged { account_id: u64 },
    RosterChanged { account_id: u64 },
    ConversationChanged { conversation_id: u64 },
    MessageAdded { message_id: u64 },
    MessageChanged { message_id: u64 },
}

/// The binding value of a core event.
pub open spec fn ffi_core_event(value: CoreEvent) -> FfiCoreEvent {
    match value {
        CoreEvent::AccountChanged(account_id) => FfiCoreEvent::AccountChanged { account_id },
        CoreEvent::RosterChanged(account_id) => FfiCoreEvent::RosterChanged { account_id },
        CoreEvent::ConversationChanged(conversation_id) => FfiCoreEvent::ConversationChanged {
            conversation_id,
        },
        CoreEvent::MessageAdded(message_id) => FfiCoreEvent::MessageAdded { message_id },
        CoreEvent::MessageChanged(message_id) => FfiCoreEvent::MessageChanged { message_id },
    }
}

impl From<CoreEvent> for FfiCoreEvent {
    fn from(value: CoreEvent) -> (r: Self)
        ensures
            r == ffi_core_event(value),
    {
        match value {
            CoreEvent::AccountChanged(account_id) => FfiCoreEvent::AccountChanged { account_id },
            CoreEvent::RosterChanged(account_id) => FfiCoreEvent::RosterChanged { account_id },
            CoreEvent::ConversationChanged(conversation_id) => FfiCoreEvent::ConversationChanged {
                conversation_id,
            },
            CoreEvent::MessageAdded(message_id) => FfiCoreEvent::MessageAdded { message_id },
            CoreEvent::MessageChanged(message_id) => FfiCoreEvent::MessageChanged { message_id },
        }
    }
}

impl vstd::std_specs::convert::FromSpecImpl<CoreEvent> for FfiCoreEvent {
    open spec fn obeys_from_spec() -> bool {
        true
    }

    open spec fn from_spec(value: CoreEvent) -> Self {
        ffi_core_event(value)
    }
}

/// Errors the presentation layer handles.
#[derive(Clone, Debug, PartialEq, Eq)]
pub enum MindChatBindingError {
    InvalidInput { detail: String },
    NotFound { detail: String },
    CapabilityUnavailable { capability: FfiProtocolCapability },
    AuthenticationFailed,
    ConnectionFailed { detail: String },
    Internal { detail: String },
}

/// The text a binding error displays.
pub open spec fn binding_error_text(error: MindChatBindingError) -> Seq<char> {
    match error {
        MindChatBindingError::InvalidInput { detail } => detail@,
        MindChatBindingError::NotFound { detail } => detail@,
        MindChatBindingError::ConnectionFailed { detail } => detail@,
        MindChatBindingError::Internal { detail } => detail@,
        MindChatBindingError::CapabilityUnavailable { capability } => "capability unavailable: "@
            + capability_name(domain_protocol_capability(capability)),
        MindChatBindingError::AuthenticationFailed => "authentication failed"@,
    }
}

/// The binding error for a transport failure: a certificate failure is a
/// connection failure with its detail, a protocol violation invalid input,
/// an unsupported operation an internal error.
pub open spec fn binding_error_for_transport(value: TransportError) -> MindChatBindingError {
    match value {
        TransportError::AuthenticationFailed => MindChatBindingError::AuthenticationFailed,
        TransportError::TlsVerification(detail) => MindChatBindingError::ConnectionFailed { detail },
        TransportError::ConnectionFailed(detail) => MindChatBindingError::ConnectionFailed { detail },
        TransportError::ProtocolViolation(detail) => MindChatBindingError::InvalidInput { detail },
        TransportError::Unsupported(detail) => MindChatBindingError::Internal { detail },
    }
}

impl From<TransportError> for MindChatBindingError {
    fn from(value: TransportError) -> (r: Self)
        ensures
            r == binding_error_for_transport(value),
    {
        match value {
            TransportError::AuthenticationFailed => MindChatBindingError::AuthenticationFailed,
            TransportError::TlsVerification(detail) => MindChatBindingError::ConnectionFailed { detail },
            TransportError::ConnectionFailed(detail) => MindChatBindingError::ConnectionFailed { detail },
            TransportError::ProtocolViolation(detail) => MindChatBindingError::InvalidInput { detail },
            TransportError::Unsupported(detail) => MindChatBindingError::Internal { detail },
        }
    }
}

impl vstd::std_specs::convert::FromSpecImpl<TransportError> for MindChatBindingError {
    open spec fn obeys_from_spec() -> bool {
        true
    }

    open spec fn from_spec(value: TransportError) -> Self {
        binding_error_for_transport(value)
    }
}

/// Whether a domain error is invalid input (as opposed to an unknown id or
/// a missing capability).
pub open spec fn is_input_error(error: CoreError) -> bool {
    match error {
        CoreError::UnknownAccount(_) | CoreError::UnknownConversation(_)
        | CoreError::UnknownMessage(_) | CoreError::CapabilityUnavailable(_) => false,
        _ => true,
    }
}

impl MindChatBindingError {
    /// The text this error displays.
    pub fn message(&self) -> (r: String)
        ensures
            r@ == binding_error_text(*self),
    {
        match self {
            MindChatBindingError::InvalidInput { detail } => detail.clone(),
            MindChatBindingError::NotFound { detail } => detail.clone(),
            MindChatBindingError::ConnectionFailed { detail } => detail.clone(),
            MindChatBindingError::Internal { detail } => detail.clone(),
            MindChatBindingError::CapabilityUnavailable { capability } => "capability unavailable: ".to_owned().concat(
                capability_label(ProtocolCapability::from(*capability)),
            ),
            MindChatBindingError::AuthenticationFailed => "authentication failed".to_owned(),
        }
    }

    /// The binding error for a domain error: invalid input, an unknown id
    /// (not found), or a missing capability, with the domain error's text.
    pub fn from_core_error(value: CoreError) -> (r: Self)
        ensures
            is_input_error(value) ==> (r matches MindChatBindingError::InvalidInput { detail } && detail@
                == core_error_text(value)),
            (value is UnknownAccount || value is UnknownConversation || value is UnknownMessage) ==> (
            r matches MindChatBindingError::NotFound { detail } && detail@ == core_error_text(value)),
            value matches CoreError::CapabilityUnavailable(c) ==> r
                == (MindChatBindingError::CapabilityUnavailable {
                capability: ffi_protocol_capability(c),
            }),
    {
        match value {
            CoreError::UnknownAccount(_) | CoreError::UnknownConversation(_)
            | CoreError::UnknownMessage(_) => MindChatBindingError::NotFound { detail: value.message() },
            CoreError::CapabilityUnavailable(capability) => MindChatBindingError::CapabilityUnavailable {
                capability: FfiProtocolCapability::from(capability),
            },
            _ => MindChatBindingError::InvalidInput { detail: value.message() },
        }
    }

    /// The binding error for a coordination failure: the domain or transport
    /// error it carries, mapped as such.
    pub fn from_coordinator_error(value: TransportCoordinatorError) -> (r: Self)
        ensures
            value matches TransportCoordinatorError::Transport(e) ==> r
                == binding_error_for_transport(e),
            value matches TransportCoordinatorError::Core(e) ==> (is_input_error(e) ==> (r matches MindChatBindingError::InvalidInput {
                detail,
            } && detail@ == core_error_text(e))),
            value matches TransportCoordinatorError::Core(e) ==> ((e is UnknownAccount
                || e is UnknownConversation || e is UnknownMessage) ==> (r matches MindChatBindingError::NotFound {
                detail,
            } && detail@ == core_error_text(e))),
            value matches TransportCoordinatorError::Core(e) ==> (e matches CoreError::CapabilityUnavailable(
                c,
            ) ==> r == (MindChatBindingError::CapabilityUnavailable {
                capability: ffi_protocol_capability(c),
            })),
    {
        match value {
            TransportCoordinatorError::Core(error) => MindChatBindingError::from_core_error(error),
            TransportCoordinatorError::Transport(error) => MindChatBindingError::from(error),
        }
    }

    /// The binding error for a persistence failure: an internal error with
    /// the failure's text.
    pub fn from_persistence_error(value: PersistenceError) -> (r: Self)
        ensures
            r matches MindChatBindingError::Internal { detail } && detail@ == persistence_error_text(
                value,
            ),
    {
        MindChatBindingError::Internal { detail: value.message() }
    }
}

/// Checks a binding proxy configuration into the domain value; an invalid
/// one is invalid input with the proxy error's text.
pub fn to_proxy_config(config: &FfiProxyConfig) -> (r: Result<ProxyConfig, MindChatBindingError>)
    ensures
        match endpoint_check(config.host@, config.port, "a proxy port must not be zero"@) {
            Ok(()) => (r matches Ok(p) && p.host@ == config.host@ && p.port == config.port && p.kind
                == domain_proxy_kind(config.kind)),
            Err(f) => (r matches Err(MindChatBindingError::InvalidInput { detail }) && f matches ProxyFailure::InvalidConfig(
                d,
            ) && detail@ == "invalid proxy configuration: "@ + d),
        },
{
    match ProxyConfig::new(config.host.as_str(), config.port, ProxyKind::from(config.kind)) {
        Ok(p) => Ok(p),
        Err(error) => Err(MindChatBindingError::InvalidInput { detail: error.message() }),
    }
}

/// What save and load last observed of the state file, for diagnostics.
/// Holds no snapshot content.
#[derive(Clone, Debug, PartialEq, Eq)]
pub struct PersistenceTrack {
    pub path: Option<String>,
    pub size_bytes: Option<u64>,
    pub schema_version: Option<u32>,
    /// Whether the last load failed and the file was set aside.
    pub quarantined: bool,
    pub last_saved_at_epoch_ms: Option<u64>,
    pub last_loaded_at_epoch_ms: Option<u64>,
}

impl PersistenceTrack {
    /// Nothing observed yet.
    pub fn new() -> (r: Self)
        ensures
            r.path is None,
            r.size_bytes is None,
            r.schema_version is None,
            !r.quarantined,
            r.last_saved_at_epoch_ms is None,
            r.last_loaded_at_epoch_ms is None,
    {
        PersistenceTrack {
            path: None,
            size_bytes: None,
            schema_version: None,
            quarantined: false,
            last_saved_at_epoch_ms: None,
            last_loaded_at_epoch_ms: None,
        }
    }

    /// Records a successful save of a file of `size_bytes` (when its size
    /// could be read) at `now_ms`, in the current schema.
    pub fn record_save(&mut self, path: String, size_bytes: Option<u64>, now_ms: u64)
        ensures
            *final(self) == (PersistenceTrack {
                path: Some(path),
                size_bytes,
                schema_version: Some(CURRENT_SCHEMA_VERSION),
                last_saved_at_epoch_ms: Some(now_ms),
                ..*old(self)
            }),
    {
        self.path = Some(path);
        self.size_bytes = size_bytes;
        self.schema_version = Some(CURRENT_SCHEMA_VERSION);
        self.last_saved_at_epoch_ms = Some(now_ms);
    }

    /// Records a successful load with the file's metadata at `now_ms`.
    pub fn record_load_success(&mut self, path: String, metadata: StateFileMetadata, now_ms: u64)
        ensures
            *final(self) == (PersistenceTrack {
                path: Some(path),
                size_bytes: Some(metadata.size_bytes),
                schema_version: Some(metadata.schema_version),
                last_loaded_at_epoch_ms: Some(now_ms),
                ..*old(self)
            }),
    {
        self.path = Some(path);
        self.size_bytes = Some(metadata.size_bytes);
        self.schema_version = Some(metadata.schema_version);
        self.last_loaded_at_epoch_ms = Some(now_ms);
    }

    /// Records a load that found no file at `now_ms`.
    pub fn record_load_missing(&mut self, path: String, now_ms: u64)
        ensures
            *final(self) == (PersistenceTrack {
                path: Some(path),
                last_loaded_at_epoch_ms: Some(now_ms),
                ..*old(self)
            }),
    {
        self.path = Some(path);
        self.last_loaded_at_epoch_ms = Some(now_ms);
    }

    /// Records a failed load at `now_ms`: the file is set aside
    /// (quarantined), its size kept when it could be read, and a refused
    /// schema version remembered.
    pub fn record_load_failure(
        &mut self,
        path: String,
        error: &PersistenceError,
        size_bytes: Option<u64>,
        now_ms: u64,
    )
        ensures
            *final(self) == (PersistenceTrack {
                path: Some(path),
                size_bytes,
                schema_version: match error {
                    PersistenceError::UnsupportedVersion(v) => Some(*v),
                    _ => old(self).schema_version,
                },
                quarantined: true,
                last_loaded_at_epoch_ms: Some(now_ms),
                ..*old(self)
            }),
    {
        self.path = Some(path);
        self.size_bytes = size_bytes;
        if let PersistenceError::UnsupportedVersion(version) = error {
            self.schema_version = Some(*version);
        }
        self.quarantined = true;
        self.last_loaded_at_epoch_ms = Some(now_ms);
    }
}

/// The opt-in diagnostics export: record counts and persistence metadata,
/// with no password, message body, avatar or JID.
#[derive(Clone, Debug, PartialEq, Eq)]
pub struct FfiDiagnosticsReport {
    pub account_count: u64,
    pub contact_count: u64,
    pub conversation_count: u64,
    pub message_count: u64,
    pub reaction_count: u64,
    pub state_path: Option<String>,
    pub state_size_bytes: Option<u64>,
    pub state_schema_version: Option<u32>,
    pub state_quarantined: bool,
    pub state_last_saved_at_epoch_ms: Option<u64>,
    pub state_last_loaded_at_epoch_ms: Option<u64>,
}

/// A count as a `u64`, saturating.
pub open spec fn count_of(n: nat) -> u64 {
    if n <= u64::MAX {
        n as u64
    } else {
        u64::MAX
    }
}

fn count(n: usize) -> (r: u64)
    ensures
        r == count_of(n as nat),
{
    if n as u128 <= u64::MAX as u128 {
        n as u64
    } else {
        u64::MAX
    }
}

/// Assembles the diagnostics report from a snapshot's record counts and
/// what persistence last observed.
pub fn diagnostics_report(snapshot: &CoreSnapshot, track: &PersistenceTrack) -> (r:
    FfiDiagnosticsReport)
    ensures
        r == (FfiDiagnosticsReport {
            account_count: count_of(snapshot.accounts@.len()),
            contact_count: count_of(snapshot.contacts@.len()),
            conversation_count: count_of(snapshot.conversations@.len()),
            message_count: count_of(snapshot.messages@.len()),
            reaction_count: count_of(snapshot.reactions@.len()),
            state_path: track.path,
            state_size_bytes: track.size_bytes,
            state_schema_version: track.schema_version,
            state_quarantined: track.quarantined,
            state_last_saved_at_epoch_ms: track.last_saved_at_epoch_ms,
            state_last_loaded_at_epoch_ms: track.last_loaded_at_epoch_ms,
        }),
{
    FfiDiagnosticsReport {
        account_count: count(snapshot.accounts.len()),
        contact_count: count(snapshot.contacts.len()),
        conversation_count: count(snapshot.conversations.len()),
        message_count: count(snapshot.messages.len()),
        reaction_count: count(snapshot.reactions.len()),
        state_path: crate::model::copy_opt_string(&track.path),
        state_size_bytes: track.size_bytes,
        state_schema_version: track.schema_version,
        state_quarantined: track.quarantined,
        state_last_saved_at_epoch_ms: track.last_saved_at_epoch_ms,
        state_last_loaded_at_epoch_ms: track.last_loaded_at_epoch_ms,
    }
}


/// The most transport events one poll applies.
pub const MAX_TRANSPORT_EVENTS_PER_POLL: u32 = 128;

/// The number of events a poll asked for `max_events` applies: zero does no
/// work, and larger values are clamped to the per-poll bound.
pub fn poll_limit(max_events: u32) -> (r: u32)
    ensures
        r == (if max_events <= MAX_TRANSPORT_EVENTS_PER_POLL {
            max_events
        } else {
            MAX_TRANSPORT_EVENTS_PER_POLL
        }),
{
    if max_events <= MAX_TRANSPORT_EVENTS_PER_POLL {
        max_events
    } else {
        MAX_TRANSPORT_EVENTS_PER_POLL
    }
}

/// A count reported across the binding, saturating at `u32::MAX`.
pub fn count_u32(n: usize) -> (r: u32)
    ensures
        r == (if n <= u32::MAX {
            n as u32
        } else {
            u32::MAX
        }),
{
    if n as u64 <= u32::MAX as u64 {
        n as u32
    } else {
        u32::MAX
    }
}

/// The invalid-input error with a detail.
fn invalid_input(detail: &str) -> (r: MindChatBindingError)
    ensures
        r matches MindChatBindingError::InvalidInput { detail: d } && d@ == detail@,
{
    MindChatBindingError::InvalidInput { detail: detail.to_owned() }
}

/// A connection needs a password; it goes to the transport only.
pub fn require_password(password: &str) -> (r: Result<(), MindChatBindingError>)
    ensures
        password@.len() == 0 ==> (r matches Err(MindChatBindingError::InvalidInput { detail }) && detail@
            == "a password is required"@),
        password@.len() > 0 ==> r is Ok,
{
    if password.unicode_len() == 0 {
        Err(invalid_input("a password is required"))
    } else {
        Ok(())
    }
}

/// A registration needs a password, a username and a server, checked in
/// that order (the names ignoring surrounding whitespace), before any
/// network work starts.
pub fn check_registration_input(username: &str, server: &str, password: &str) -> (r: Result<
    (),
    MindChatBindingError,
>)
    ensures
        password@.len() == 0 ==> (r matches Err(MindChatBindingError::InvalidInput { detail }) && detail@
            == "a password is required"@),
        password@.len() > 0 && is_blank(username@) ==> (r matches Err(
            MindChatBindingError::InvalidInput { detail },
        ) && detail@ == "a username is required"@),
        password@.len() > 0 && !is_blank(username@) && is_blank(server@) ==> (r matches Err(
            MindChatBindingError::InvalidInput { detail },
        ) && detail@ == "a server hostname is required"@),
        password@.len() > 0 && !is_blank(username@) && !is_blank(server@) ==> r is Ok,
{
    if let Err(e) = require_password(password) {
        return Err(e);
    }
    if blank(username) {
        return Err(invalid_input("a username is required"));
    }
    if blank(server) {
        return Err(invalid_input("a server hostname is required"));
    }
    Ok(())
}

/// A display name must not be blank.
pub fn require_display_name(display_name: &str) -> (r: Result<(), MindChatBindingError>)
    ensures
        is_blank(display_name@) ==> (r matches Err(MindChatBindingError::InvalidInput { detail })
            && detail@ == "a display name is required"@),
        !is_blank(display_name@) ==> r is Ok,
{
    if blank(display_name) {
        Err(invalid_input("a display name is required"))
    } else {
        Ok(())
    }
}

/// Checks a proxy library: every configuration valid, in order; `None`
/// clears the library. The first invalid configuration is reported.
pub fn to_proxy_configs(proxies: Option<Vec<FfiProxyConfig>>) -> (r: Result<
    Vec<ProxyConfig>,
    MindChatBindingError,
>)
    ensures
        proxies is None ==> (r matches Ok(v) && v@.len() == 0),
        proxies matches Some(list) ==> match r {
            Ok(v) => v@.len() == list@.len() && forall|i: int|
                0 <= i < v@.len() ==> {
                    &&& endpoint_check(list@[i].host@, list@[i].port, "a proxy port must not be zero"@)
                        is Ok
                    &&& (#[trigger] v@[i]).host@ == list@[i].host@
                    &&& v@[i].port == list@[i].port
                    &&& v@[i].kind == domain_proxy_kind(list@[i].kind)
                },
            Err(e) => exists|k: int|
                0 <= k < list@.len() && endpoint_check(
                    (#[trigger] list@[k]).host@,
                    list@[k].port,
                    "a proxy port must not be zero"@,
                ) is Err && e is InvalidInput && forall|j: int|
                    0 <= j < k ==> endpoint_check(
                        (#[trigger] list@[j]).host@,
                        list@[j].port,
                        "a proxy port must not be zero"@,
                    ) is Ok,
        },
{
    let mut out: Vec<ProxyConfig> = Vec::new();
    let list = match proxies {
        Some(list) => list,
        None => return Ok(out),
    };
    let mut i: usize = 0;
    while i < list.len()
        invariant
            i <= list.len(),
            proxies == Some(list),
            out@.len() == i,
            forall|k: int|
                0 <= k < i ==> {
                    &&& endpoint_check(list@[k].host@, list@[k].port, "a proxy port must not be zero"@)
                        is Ok
                    &&& (#[trigger] out@[k]).host@ == list@[k].host@
                    &&& out@[k].port == list@[k].port
                    &&& out@[k].kind == domain_proxy_kind(list@[k].kind)
                },
        decreases list.len() - i,
    {
        match to_proxy_config(&list[i]) {
            Ok(p) => out.push(p),
            Err(e) => {
                proof {
                    assert forall|j: int| 0 <= j < i implies endpoint_check(
                        (#[trigger] list@[j]).host@,
                        list@[j].port,
                        "a proxy port must not be zero"@,
                    ) is Ok by {
                        assert(out@[j].port == list@[j].port);
                    }
                    assert(endpoint_check(
                        list@[i as int].host@,
                        list@[i as int].port,
                        "a proxy port must not be zero"@,
                    ) is Err);
                }
                return Err(e);
            },
        }
        i = i + 1;
    }
    Ok(out)
}

/// A restore runs once, on an empty handle: it is refused while the core
/// has accounts or the transport owns connections.
pub fn check_restore_allowed(account_count: usize, connected_count: usize) -> (r: Result<
    (),
    MindChatBindingError,
>)
    ensures
        account_count > 0 ==> (r matches Err(MindChatBindingError::Internal { detail }) && detail@
            == "core already contains accounts; load_state must run before any mutation"@),
        account_count == 0 && connected_count > 0 ==> (r matches Err(
            MindChatBindingError::Internal { detail },
        ) && detail@
            == "transport already has connected accounts; load_state must run before any connection"@),
        account_count == 0 && connected_count == 0 ==> r is Ok,
{
    if account_count > 0 {
        return Err(
            MindChatBindingError::Internal {
                detail: "core already contains accounts; load_state must run before any mutation".to_owned(),
            },
        );
    }
    if connected_count > 0 {
        return Err(
            MindChatBindingError::Internal {
                detail: "transport already has connected accounts; load_state must run before any connection".to_owned(),
            },
        );
    }
    Ok(())
}

/// Whether an account's outbox is flushed: only for an online account;
/// an unknown account is not found.
pub fn flush_allowed(account_id: u64, state: Option<ConnectionState>) -> (r: Result<
    bool,
    MindChatBindingError,
>)
    ensures
        state is None ==> (r matches Err(MindChatBindingError::NotFound { detail }) && detail@
            == core_error_text(CoreError::UnknownAccount(account_id))),
        state matches Some(s) ==> r == Ok::<bool, MindChatBindingError>(s == ConnectionState::Online),
{
    match state {
        None => Err(MindChatBindingError::from_core_error(CoreError::UnknownAccount(account_id))),
        Some(s) => Ok(s == ConnectionState::Online),
    }
}

/// The probe result for a configuration that is not valid: a failure
/// without latency, with the error's text.
pub fn invalid_probe(error: &MindChatBindingError) -> (r: FfiProxyProbe)
    ensures
        !r.ok,
        r.latency_ms == 0,
        r.error matches Some(d) && d@ == binding_error_text(*error),
{
    FfiProxyProbe { ok: false, latency_ms: 0, error: Some(error.message()) }
}

/// The binding error for deleting an account that does not exist.
pub fn unknown_account_error(account_id: u64) -> (r: MindChatBindingError)
    ensures
        r matches MindChatBindingError::NotFound { detail } && detail@ == "unknown account "@
            + decimal(account_id as nat),
{
    MindChatBindingError::NotFound {
        detail: "unknown account ".to_owned().concat(decimal_text(account_id).as_str()),
    }
}

} // verus!
