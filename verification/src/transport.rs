//! Protocol adapter boundary.
//!
//! A production implementation speaks XMPP and converts protocol-specific
//! stanzas to these domain-safe requests and events. The core depends on
//! this trait rather than on a particular XMPP crate.

use vstd::prelude::*;

use crate::caps::CapabilitySet;
use crate::model::{
    AccountId, ContactPresence, ConversationId, ConversationKind, DeliveryState, DisconnectKind,
    MessageId, RosterSubscription,
};
use crate::proxy::ProxyConfig;
use crate::rules::opt_view;
use crate::caps::ProtocolCapability;

verus! {

/// Password-like input that must not appear in diagnostic output.
#[derive(Clone, PartialEq, Eq)]
pub struct SecretString {
    value: String,
}

impl SecretString {
    /// The wrapped secret.
    pub closed spec fn secret(self) -> Seq<char> {
        self.value@
    }

    /// Wraps a secret supplied by the platform credential flow.
    pub fn new(value: &str) -> (r: Self)
        ensures
            r.secret() == value@,
    {
        SecretString { value: value.to_owned() }
    }

    /// Consumes the wrapper at the single hand-off point to the transport.
    pub fn into_inner(self) -> (r: String)
        ensures
            r@ == self.secret(),
    {
        self.value
    }

    /// The diagnostic rendering, which never shows the secret.
    pub fn debug_text(&self) -> (r: String)
        ensures
            r@ == "SecretString([redacted])"@,
    {
        "SecretString([redacted])".to_owned()
    }
}

/// Account and connection data needed by an XMPP transport adapter.
#[derive(Clone, PartialEq, Eq)]
pub struct ConnectionRequest {
    pub account_id: AccountId,
    pub jid: String,
    pub server: String,
    pub password: SecretString,
    /// Whether a mid-session network loss should be retried automatically.
    pub auto_reconnect: bool,
    /// Proxy tunnel configuration; `None` connects directly.
    pub proxy: Option<ProxyConfig>,
    /// Proxy credentials for the handshake, handed over at connect time.
    pub proxy_password: Option<SecretString>,
}

/// Outgoing message data after the domain core has validated it.
#[derive(Debug, PartialEq, Eq)]
pub struct OutgoingMessage {
    pub account_id: AccountId,
    pub conversation_id: ConversationId,
    pub message_id: MessageId,
    pub kind: ConversationKind,
    pub recipient: String,
    pub body: String,
    pub in_reply_to: Option<MessageId>,
}

impl Clone for OutgoingMessage {
    fn clone(&self) -> (r: Self)
        ensures
            r == *self,
    {
        OutgoingMessage {
            account_id: self.account_id,
            conversation_id: self.conversation_id,
            message_id: self.message_id,
            kind: self.kind,
            recipient: self.recipient.clone(),
            body: self.body.clone(),
            in_reply_to: self.in_reply_to,
        }
    }
}

/// State change emitted by an XMPP transport implementation.
#[allow(inconsistent_fields)]
#[derive(Debug, PartialEq, Eq)]
pub enum TransportEvent {
    Connected { account_id: AccountId, capabilities: CapabilitySet },
    Disconnected {
        account_id: AccountId,
        recoverable: bool,
        /// Human-readable failure reason for the UI, when the transport has one.
        detail: Option<String>,
        /// Typed disconnect cause; the only control-flow signal of a disconnect.
        kind: DisconnectKind,
    },
    /// Capabilities received after service discovery completes.
    CapabilitiesDiscovered { account_id: AccountId, capabilities: CapabilitySet },
    /// A roster item supplied by a roster result or push.
    RosterContactUpsert {
        account_id: AccountId,
        jid: String,
        display_name: String,
        subscription: RosterSubscription,
    },
    /// A roster item removed by a roster result or push.
    RosterContactRemoved { account_id: AccountId, jid: String },
    /// A presence update for an existing roster contact.
    ContactPresenceUpdated {
        account_id: AccountId,
        jid: String,
        presence: ContactPresence,
        status: Option<String>,
    },
    IncomingText {
        account_id: AccountId,
        kind: ConversationKind,
        address: String,
        sender: String,
        body: String,
        received_at_epoch_ms: u64,
    },
    DeliveryUpdated {
        /// Account on which the receipt was received.
        account_id: AccountId,
        /// Bare JID of the sender that acknowledged the message.
        sender: String,
        message_id: MessageId,
        state: DeliveryState,
    },
}

/// A transport event with its texts as character sequences and its
/// capability sets as sets.
pub enum EventView {
    Connected { account_id: AccountId, capabilities: Set<ProtocolCapability> },
    Disconnected {
        account_id: AccountId,
        recoverable: bool,
        detail: Option<Seq<char>>,
        kind: DisconnectKind,
    },
    CapabilitiesDiscovered { account_id: AccountId, capabilities: Set<ProtocolCapability> },
    RosterContactUpsert {
        account_id: AccountId,
        jid: Seq<char>,
        display_name: Seq<char>,
        subscription: RosterSubscription,
    },
    RosterContactRemoved { account_id: AccountId, jid: Seq<char> },
    ContactPresenceUpdated {
        account_id: AccountId,
        jid: Seq<char>,
        presence: ContactPresence,
        status: Option<Seq<char>>,
    },
    IncomingText {
        account_id: AccountId,
        kind: ConversationKind,
        address: Seq<char>,
        sender: Seq<char>,
        body: Seq<char>,
        received_at_epoch_ms: u64,
    },
    DeliveryUpdated {
        account_id: AccountId,
        sender: Seq<char>,
        message_id: MessageId,
        state: DeliveryState,
    },
}

impl View for TransportEvent {
    type V = EventView;

    open spec fn view(&self) -> EventView {
        match self {
            TransportEvent::Connected { account_id, capabilities } => EventView::Connected {
                account_id: *account_id,
                capabilities: capabilities@,
            },
            TransportEvent::Disconnected { account_id, recoverable, detail, kind } =>
                EventView::Disconnected {
                account_id: *account_id,
                recoverable: *recoverable,
                detail: opt_view(*detail),
                kind: *kind,
            },
            TransportEvent::CapabilitiesDiscovered { account_id, capabilities } =>
                EventView::CapabilitiesDiscovered {
                account_id: *account_id,
                capabilities: capabilities@,
            },
            TransportEvent::RosterContactUpsert { account_id, jid, display_name, subscription } =>
                EventView::RosterContactUpsert {
                account_id: *account_id,
                jid: jid@,
                display_name: display_name@,
                subscription: *subscription,
            },
            TransportEvent::RosterContactRemoved { account_id, jid } =>
                EventView::RosterContactRemoved { account_id: *account_id, jid: jid@ },
            TransportEvent::ContactPresenceUpdated { account_id, jid, presence, status } =>
                EventView::ContactPresenceUpdated {
                account_id: *account_id,
                jid: jid@,
                presence: *presence,
                status: opt_view(*status),
            },
            TransportEvent::IncomingText {
                account_id,
                kind,
                address,
                sender,
                body,
                received_at_epoch_ms,
            } => EventView::IncomingText {
                account_id: *account_id,
                kind: *kind,
                address: address@,
                sender: sender@,
                body: body@,
                received_at_epoch_ms: *received_at_epoch_ms,
            },
            TransportEvent::DeliveryUpdated { account_id, sender, message_id, state } =>
                EventView::DeliveryUpdated {
                account_id: *account_id,
                sender: sender@,
                message_id: *message_id,
                state: *state,
            },
        }
    }
}

/// The views of a sequence of events.
pub open spec fn event_views(events: Seq<TransportEvent>) -> Seq<EventView> {
    events.map_values(|e: TransportEvent| e@)
}

/// Failure boundary for implementations of the XMPP transport adapter.
#[derive(Clone, Debug, PartialEq, Eq)]
pub enum TransportError {
    AuthenticationFailed,
    TlsVerification(String),
    ConnectionFailed(String),
    ProtocolViolation(String),
    Unsupported(String),
}

/// The UI-safe text of a transport error.
pub open spec fn transport_error_text(error: TransportError) -> Seq<char> {
    match error {
        TransportError::AuthenticationFailed => "authentication failed"@,
        TransportError::TlsVerification(detail) => "TLS verification failed: "@ + detail@,
        TransportError::ConnectionFailed(detail) => "connection failed: "@ + detail@,
        TransportError::ProtocolViolation(detail) => "protocol violation: "@ + detail@,
        TransportError::Unsupported(detail) => "unsupported by transport: "@ + detail@,
    }
}

impl TransportError {
    /// The UI-safe message for this error (what the error displays as).
    pub fn message(&self) -> (r: String)
        ensures
            r@ == transport_error_text(*self),
    {
        match self {
            TransportError::AuthenticationFailed => "authentication failed".to_owned(),
            TransportError::TlsVerification(detail) => "TLS verification failed: ".to_owned().concat(
                detail.as_str(),
            ),
            TransportError::ConnectionFailed(detail) => "connection failed: ".to_owned().concat(
                detail.as_str(),
            ),
            TransportError::ProtocolViolation(detail) => "protocol violation: ".to_owned().concat(
                detail.as_str(),
            ),
            TransportError::Unsupported(detail) => "unsupported by transport: ".to_owned().concat(
                detail.as_str(),
            ),
        }
    }
}

/// What a transport handed back to one request for its next event: an
/// event, an empty queue, or a channel failure.
pub type Polled = Result<Option<TransportEvent>, TransportError>;

/// One request handed to a transport, with the answer it gave.
pub enum TransportCall {
    /// Open a session with this request.
    Connect(ConnectionRequest, Result<(), TransportError>),
    /// Close the session of this account.
    Disconnect(AccountId, Result<(), TransportError>),
    /// Send this message.
    Send(OutgoingMessage, Result<(), TransportError>),
    /// Take the next queued event.
    NextEvent(Polled),
}

/// Boundary for XMPP implementations. Implementations may buffer work
/// internally and expose an event-polling shape to the core.
///
/// A transport that keeps a record (`keeps_record`) has in `requests` every
/// request it was handed, oldest first, each with the answer it gave; what
/// it answers is its own. A transport that defines neither keeps no record
/// and promises nothing.
pub trait XmppTransport {
    /// Whether this transport keeps the record of `requests`.
    closed spec fn keeps_record() -> bool {
        false
    }

    /// The requests handed to this transport so far, oldest first, with
    /// their answers. An implementation that keeps a record defines it over
    /// its own state.
    closed spec fn requests(&self) -> Seq<TransportCall> {
        vstd::pervasive::arbitrary()
    }

    fn connect(&mut self, request: ConnectionRequest) -> (r: Result<(), TransportError>)
        ensures
            Self::keeps_record() ==> final(self).requests() == old(self).requests().push(
                TransportCall::Connect(request, r),
            ),
    ;

    fn disconnect(&mut self, account_id: AccountId) -> (r: Result<(), TransportError>)
        ensures
            Self::keeps_record() ==> final(self).requests() == old(self).requests().push(
                TransportCall::Disconnect(account_id, r),
            ),
    ;

    fn send(&mut self, message: OutgoingMessage) -> (r: Result<(), TransportError>)
        ensures
            Self::keeps_record() ==> final(self).requests() == old(self).requests().push(
                TransportCall::Send(message, r),
            ),
    ;

    fn next_event(&mut self) -> (r: Polled)
        ensures
            Self::keeps_record() ==> final(self).requests() == old(self).requests().push(
                TransportCall::NextEvent(r),
            ),
    ;
}

} // verus!

