//! The records, events, commands and errors of the domain core.

use vstd::prelude::*;

use crate::caps::{CapabilitySet, ProtocolCapability};
use crate::proxy::ProxyConfig;
use crate::text::{decimal, decimal_text};

verus! {

/// Stable identifier for an XMPP account configured in the client.
pub type AccountId = u64;

/// Stable identifier for a direct or group conversation.
pub type ConversationId = u64;

/// Stable identifier for a message.
pub type MessageId = u64;

/// Stable identifier for a message reaction.
pub type ReactionId = u64;

/// Longest accepted message body, in characters, after trimming.
pub const MAX_MESSAGE_CHARS: usize = 16384;

/// Connection status projected to the UI.
#[derive(Clone, Copy, Debug, PartialEq, Eq, Structural)]
pub enum ConnectionState {
    Offline,
    Connecting,
    Online,
    Failed,
}

/// Typed reason an account left the connected state; derived from typed
/// transport failures, never from prose.
#[derive(Clone, Copy, Debug, PartialEq, Eq, PartialOrd, Ord, Hash, Structural)]
pub enum DisconnectKind {
    AuthenticationFailed,
    TlsVerificationFailed,
    ServerRefused,
    NetworkLost,
    Cancelled,
    Unknown,
}

/// Presence projected for one roster contact.
#[derive(Clone, Copy, Debug, PartialEq, Eq, Structural)]
pub enum ContactPresence {
    Online,
    Away,
    DoNotDisturb,
    Offline,
}

/// Direction of a roster presence subscription as confirmed by the server.
#[derive(Clone, Copy, Debug, PartialEq, Eq, Structural)]
pub enum RosterSubscription {
    /// Neither side currently receives the other side's presence.
    Neither,
    /// The local account receives the contact's presence.
    Inbound,
    /// The contact receives the local account's presence.
    Outbound,
    /// Both sides receive presence updates.
    Mutual,
    /// The server has a pending outgoing subscription request.
    PendingOutbound,
}

/// Conversation transport topology.
#[derive(Clone, Copy, Debug, PartialEq, Eq, Structural)]
pub enum ConversationKind {
    Direct,
    MultiUserChat,
}

/// Direction of a message relative to the local account.
#[derive(Clone, Copy, Debug, PartialEq, Eq, Structural)]
pub enum MessageDirection {
    Incoming,
    Outgoing,
}

/// Delivery state shown for an outgoing message.
#[derive(Clone, Copy, Debug, PartialEq, Eq, Structural)]
pub enum DeliveryState {
    Pending,
    Sent,
    Delivered,
    Read,
    Failed,
}

/// High-level payload category. Binary data is kept outside this core model.
#[derive(Clone, Copy, Debug, PartialEq, Eq, Structural)]
pub enum MessageKind {
    Text,
    Attachment,
    Voice,
}

/// Strength of a delivery state; receipts never lower it.
pub open spec fn rank_of(state: DeliveryState) -> u8 {
    match state {
        DeliveryState::Pending => 0,
        DeliveryState::Failed => 1,
        DeliveryState::Sent => 2,
        DeliveryState::Delivered => 3,
        DeliveryState::Read => 4,
    }
}

/// Executable delivery strength.
pub fn delivery_rank(state: DeliveryState) -> (r: u8)
    ensures
        r == rank_of(state),
{
    match state {
        DeliveryState::Pending => 0,
        DeliveryState::Failed => 1,
        DeliveryState::Sent => 2,
        DeliveryState::Delivered => 3,
        DeliveryState::Read => 4,
    }
}

/// Details supplied when configuring an account.
#[derive(Debug, PartialEq, Eq)]
pub struct AccountSetup {
    pub jid: String,
    pub server: String,
    pub display_name: String,
}

impl AccountSetup {
    /// Constructs a setup request; server and JID validation occur in the core.
    pub fn new(jid: &str, server: &str, display_name: &str) -> (r: Self)
        ensures
            r.jid@ == jid@,
            r.server@ == server@,
            r.display_name@ == display_name@,
    {
        AccountSetup {
            jid: jid.to_owned(),
            server: server.to_owned(),
            display_name: display_name.to_owned(),
        }
    }
}

/// One configured XMPP account.
#[derive(Debug, PartialEq, Eq)]
pub struct Account {
    pub id: AccountId,
    pub jid: String,
    pub server: String,
    pub display_name: String,
    pub connection_state: ConnectionState,
    pub capabilities: CapabilitySet,
    /// Last connection failure reason, cleared on the next successful connect.
    pub connection_error: Option<String>,
    /// Typed disconnect classification; `None` while connected or never disconnected.
    pub disconnect_kind: Option<DisconnectKind>,
    /// Whether a mid-session network loss is retried automatically.
    pub auto_reconnect: bool,
    /// Non-secret proxy library assigned to the account.
    pub proxies: Vec<ProxyConfig>,
}

/// Accounts default to automatic reconnection.
pub fn default_auto_reconnect() -> (r: bool)
    ensures
        r,
{
    true
}

/// An owned copy of an optional string.
pub fn copy_opt_string(value: &Option<String>) -> (r: Option<String>)
    ensures
        r == *value,
{
    match value {
        Some(text) => Some(text.clone()),
        None => None,
    }
}

impl Account {
    /// Whether two accounts hold the same values (the proxy libraries compared by contents).
    pub open spec fn same(self, other: Account) -> bool {
        &&& self.id == other.id
        &&& self.jid == other.jid
        &&& self.server == other.server
        &&& self.display_name == other.display_name
        &&& self.connection_state == other.connection_state
        &&& self.capabilities@ == other.capabilities@
        &&& self.connection_error == other.connection_error
        &&& self.disconnect_kind == other.disconnect_kind
        &&& self.auto_reconnect == other.auto_reconnect
        &&& self.proxies@ == other.proxies@
    }
}

/// Whether two account lists hold the same accounts in the same order.
pub open spec fn same_accounts(a: Seq<Account>, b: Seq<Account>) -> bool {
    a.len() == b.len() && forall|i: int| 0 <= i < a.len() ==> #[trigger] a[i].same(b[i])
}

/// An owned copy of an account list.
pub fn copy_accounts(accounts: &Vec<Account>) -> (r: Vec<Account>)
    ensures
        same_accounts(r@, accounts@),
{
    let r = accounts.clone();
    proof {
        assert forall|i: int| 0 <= i < r.len() implies #[trigger] r@[i].same(accounts@[i]) by {
            assert(cloned::<Account>(accounts[i], r[i]));
        }
    }
    r
}

impl Clone for Account {
    fn clone(&self) -> (r: Self)
        ensures
            r.same(*self),
    {
        Account {
            id: self.id,
            jid: self.jid.clone(),
            server: self.server.clone(),
            display_name: self.display_name.clone(),
            connection_state: self.connection_state,
            capabilities: self.capabilities,
            connection_error: copy_opt_string(&self.connection_error),
            disconnect_kind: self.disconnect_kind,
            auto_reconnect: self.auto_reconnect,
            proxies: crate::proxy::copy_proxies(&self.proxies),
        }
    }
}

/// A roster contact projection owned by one account.
#[derive(Debug, PartialEq, Eq)]
pub struct Contact {
    pub account_id: AccountId,
    pub jid: String,
    pub display_name: String,
    pub presence: ContactPresence,
    pub status: Option<String>,
    pub subscription: RosterSubscription,
}

impl Clone for Contact {
    fn clone(&self) -> (r: Self)
        ensures
            r == *self,
    {
        Contact {
            account_id: self.account_id,
            jid: self.jid.clone(),
            display_name: self.display_name.clone(),
            presence: self.presence,
            status: copy_opt_string(&self.status),
            subscription: self.subscription,
        }
    }
}

/// A local conversation projection.
#[derive(Debug, PartialEq, Eq)]
pub struct Conversation {
    pub id: ConversationId,
    pub account_id: AccountId,
    pub kind: ConversationKind,
    pub address: String,
    pub title: String,
    pub unread_count: u32,
    pub last_activity_epoch_ms: u64,
}

impl Clone for Conversation {
    fn clone(&self) -> (r: Self)
        ensures
            r == *self,
    {
        Conversation {
            id: self.id,
            account_id: self.account_id,
            kind: self.kind,
            address: self.address.clone(),
            title: self.title.clone(),
            unread_count: self.unread_count,
            last_activity_epoch_ms: self.last_activity_epoch_ms,
        }
    }
}

/// Attachment metadata that is safe to expose to the UI.
#[derive(Debug, PartialEq, Eq)]
pub struct Attachment {
    pub id: String,
    pub filename: String,
    pub mime_type: String,
    pub byte_count: u64,
    pub remote_url: Option<String>,
}

impl Clone for Attachment {
    fn clone(&self) -> (r: Self)
        ensures
            r == *self,
    {
        Attachment {
            id: self.id.clone(),
            filename: self.filename.clone(),
            mime_type: self.mime_type.clone(),
            byte_count: self.byte_count,
            remote_url: copy_opt_string(&self.remote_url),
        }
    }
}

/// An immutable message projection.
#[derive(Debug, PartialEq, Eq)]
pub struct Message {
    pub id: MessageId,
    pub conversation_id: ConversationId,
    pub sender: String,
    pub body: String,
    pub direction: MessageDirection,
    pub kind: MessageKind,
    pub sent_at_epoch_ms: u64,
    pub delivery_state: DeliveryState,
    pub in_reply_to: Option<MessageId>,
    pub attachment: Option<Attachment>,
}

impl Clone for Message {
    fn clone(&self) -> (r: Self)
        ensures
            r == *self,
    {
        let attachment = match &self.attachment {
            Some(a) => Some(a.clone()),
            None => None,
        };
        Message {
            id: self.id,
            conversation_id: self.conversation_id,
            sender: self.sender.clone(),
            body: self.body.clone(),
            direction: self.direction,
            kind: self.kind,
            sent_at_epoch_ms: self.sent_at_epoch_ms,
            delivery_state: self.delivery_state,
            in_reply_to: self.in_reply_to,
            attachment,
        }
    }
}

/// An emoji reaction attached to a message.
#[derive(Debug, PartialEq, Eq)]
pub struct Reaction {
    pub id: ReactionId,
    pub message_id: MessageId,
    pub emoji: String,
    pub actor: String,
}

impl Clone for Reaction {
    fn clone(&self) -> (r: Self)
        ensures
            r == *self,
    {
        Reaction {
            id: self.id,
            message_id: self.message_id,
            emoji: self.emoji.clone(),
            actor: self.actor.clone(),
        }
    }
}

/// Read-only state suitable for a persistence adapter or test fixture.
#[derive(Debug, PartialEq, Eq)]
pub struct CoreSnapshot {
    pub accounts: Vec<Account>,
    pub contacts: Vec<Contact>,
    pub conversations: Vec<Conversation>,
    pub messages: Vec<Message>,
    pub reactions: Vec<Reaction>,
}

impl Default for CoreSnapshot {
    fn default() -> (r: Self)
        ensures
            r.accounts@.len() == 0,
            r.contacts@.len() == 0,
            r.conversations@.len() == 0,
            r.messages@.len() == 0,
            r.reactions@.len() == 0,
    {
        CoreSnapshot {
            accounts: Vec::new(),
            contacts: Vec::new(),
            conversations: Vec::new(),
            messages: Vec::new(),
            reactions: Vec::new(),
        }
    }
}

/// An owned copy of a vector whose element clones are exact.
pub fn copy_vec<T: Clone>(v: &Vec<T>) -> (r: Vec<T>)
    requires
        forall|a: T, b: T| #[trigger] cloned::<T>(a, b) ==> a == b,
    ensures
        r@ == v@,
{
    let r = v.clone();
    proof {
        assert forall|i: int| 0 <= i < v.len() implies r@[i] == v@[i] by {
            assert(cloned::<T>(v[i], r[i]));
        }
        assert(r@ =~= v@);
    }
    r
}

impl CoreSnapshot {
    /// Whether two snapshots hold the same records in the same order.
    pub open spec fn same(self, other: CoreSnapshot) -> bool {
        &&& same_accounts(self.accounts@, other.accounts@)
        &&& self.contacts@ == other.contacts@
        &&& self.conversations@ == other.conversations@
        &&& self.messages@ == other.messages@
        &&& self.reactions@ == other.reactions@
    }
}

impl Clone for CoreSnapshot {
    fn clone(&self) -> (r: Self)
        ensures
            r.same(*self),
    {
        CoreSnapshot {
            accounts: copy_accounts(&self.accounts),
            contacts: copy_vec(&self.contacts),
            conversations: copy_vec(&self.conversations),
            messages: copy_vec(&self.messages),
            reactions: copy_vec(&self.reactions),
        }
    }
}

/// Events emitted after state changes.
#[derive(Clone, Copy, Debug, PartialEq, Eq, Structural)]
pub enum CoreEvent {
    AccountChanged(AccountId),
    RosterChanged(AccountId),
    ConversationChanged(ConversationId),
    MessageAdded(MessageId),
    MessageChanged(MessageId),
}

/// Operations available to first-party UI and the extension boundary.
#[derive(Debug, PartialEq, Eq)]
pub enum CoreCommand {
    SendText { conversation_id: ConversationId, body: String, in_reply_to: Option<MessageId> },
    MarkConversationRead { conversation_id: ConversationId },
    AddReaction { message_id: MessageId, emoji: String },
}

/// Typed failures returned to bindings and protocol adapters.
#[derive(Clone, Copy, Debug, PartialEq, Eq, Structural)]
pub enum CoreError {
    InvalidJid,
    InvalidServer,
    InvalidConversationAddress,
    EmptyMessage,
    MessageTooLong,
    EmptyReaction,
    EmptyDisplayName,
    InvalidReplyTarget,
    UnknownAccount(AccountId),
    UnknownConversation(ConversationId),
    UnknownMessage(MessageId),
    CapabilityUnavailable(ProtocolCapability),
}

/// The name a capability is shown with in messages.
pub open spec fn capability_name(capability: ProtocolCapability) -> Seq<char> {
    match capability {
        ProtocolCapability::MultiUserChat => "MultiUserChat"@,
        ProtocolCapability::MessageArchiveManagement => "MessageArchiveManagement"@,
        ProtocolCapability::StreamManagement => "StreamManagement"@,
        ProtocolCapability::HttpFileUpload => "HttpFileUpload"@,
        ProtocolCapability::Omemo => "Omemo"@,
        ProtocolCapability::PushNotifications => "PushNotifications"@,
        ProtocolCapability::Receipts => "Receipts"@,
        ProtocolCapability::ChatMarkers => "ChatMarkers"@,
        ProtocolCapability::ChatStates => "ChatStates"@,
        ProtocolCapability::MessageReactions => "MessageReactions"@,
        ProtocolCapability::MessageCorrections => "MessageCorrections"@,
        ProtocolCapability::MessageReplies => "MessageReplies"@,
        ProtocolCapability::SharedPins => "SharedPins"@,
    }
}

/// Executable capability name.
pub fn capability_label(capability: ProtocolCapability) -> (r: &'static str)
    ensures
        r@ == capability_name(capability),
{
    match capability {
        ProtocolCapability::MultiUserChat => "MultiUserChat",
        ProtocolCapability::MessageArchiveManagement => "MessageArchiveManagement",
        ProtocolCapability::StreamManagement => "StreamManagement",
        ProtocolCapability::HttpFileUpload => "HttpFileUpload",
        ProtocolCapability::Omemo => "Omemo",
        ProtocolCapability::PushNotifications => "PushNotifications",
        ProtocolCapability::Receipts => "Receipts",
        ProtocolCapability::ChatMarkers => "ChatMarkers",
        ProtocolCapability::ChatStates => "ChatStates",
        ProtocolCapability::MessageReactions => "MessageReactions",
        ProtocolCapability::MessageCorrections => "MessageCorrections",
        ProtocolCapability::MessageReplies => "MessageReplies",
        ProtocolCapability::SharedPins => "SharedPins",
    }
}

/// The UI-safe text of a core error.
pub open spec fn core_error_text(error: CoreError) -> Seq<char> {
    match error {
        CoreError::InvalidJid => "a full JID is required"@,
        CoreError::InvalidServer => "a server hostname is required"@,
        CoreError::InvalidConversationAddress => "a full conversation address is required"@,
        CoreError::EmptyMessage => "a message cannot be empty"@,
        CoreError::MessageTooLong => "message exceeds the configured length limit"@,
        CoreError::EmptyReaction => "a reaction cannot be empty"@,
        CoreError::EmptyDisplayName => "a display name is required"@,
        CoreError::InvalidReplyTarget => "a reply must target a message in the same conversation"@,
        CoreError::UnknownAccount(id) => "unknown account "@ + decimal(id as nat),
        CoreError::UnknownConversation(id) => "unknown conversation "@ + decimal(id as nat),
        CoreError::UnknownMessage(id) => "unknown message "@ + decimal(id as nat),
        CoreError::CapabilityUnavailable(capability) => "server does not advertise "@
            + capability_name(capability),
    }
}

impl CoreError {
    /// The UI-safe message for this error (what the error displays as).
    pub fn message(&self) -> (r: String)
        ensures
            r@ == core_error_text(*self),
    {
        match *self {
            CoreError::InvalidJid => "a full JID is required".to_owned(),
            CoreError::InvalidServer => "a server hostname is required".to_owned(),
            CoreError::InvalidConversationAddress => "a full conversation address is required".to_owned(),
            CoreError::EmptyMessage => "a message cannot be empty".to_owned(),
            CoreError::MessageTooLong => "message exceeds the configured length limit".to_owned(),
            CoreError::EmptyReaction => "a reaction cannot be empty".to_owned(),
            CoreError::EmptyDisplayName => "a display name is required".to_owned(),
            CoreError::InvalidReplyTarget => "a reply must target a message in the same conversation".to_owned(),
            CoreError::UnknownAccount(id) => "unknown account ".to_owned().concat(
                decimal_text(id).as_str(),
            ),
            CoreError::UnknownConversation(id) => "unknown conversation ".to_owned().concat(
                decimal_text(id).as_str(),
            ),
            CoreError::UnknownMessage(id) => "unknown message ".to_owned().concat(
                decimal_text(id).as_str(),
            ),
            CoreError::CapabilityUnavailable(capability) => "server does not advertise ".to_owned().concat(
                capability_label(capability),
            ),
        }
    }
}

} // verus!
