//! Decisions of the XMPP session worker: connect-failure handling, typed
//! disconnect classification, reconnection, endpoint syntax, outgoing
//! message stanzas and receipt ids. The network loop itself runs outside the
//! library and hands these functions plain values.

use vstd::prelude::*;

use crate::model::{
    AccountId, ConversationKind, DisconnectKind, MessageId, RosterSubscription,
};
use crate::proxy::{strategy_name, ConnectStrategy, ProxyConfig};
use crate::rules::{first_index, lemma_first_index_unique};
use crate::text::{
    all_digits, chars_of, decimal, decimal_text, digits_value, find_char, parse_decimal,
    parse_unsigned, trim, trimmed,
};
use crate::transport::{ConnectionRequest, OutgoingMessage, SecretString, TransportError};
use crate::session::{IncomingIq, IncomingMessage, IncomingPresence};

verus! {

/// A terminal connect failure with a UI-safe reason.
#[derive(Debug, PartialEq, Eq)]
pub struct ConnectFailure {
    pub detail: String,
    /// False when the server rejected the credentials (or the certificate),
    /// so the account is projected as `Failed` instead of `Offline`.
    pub recoverable: bool,
    /// Diagnostics classification.
    pub kind: DisconnectKind,
}

impl Clone for ConnectFailure {
    fn clone(&self) -> (r: Self)
        ensures
            r == *self,
    {
        ConnectFailure { detail: self.detail.clone(), recoverable: self.recoverable, kind: self.kind }
    }
}

/// The detail reported for a proxy strategy without a tunnel configuration.
pub open spec fn missing_proxy_detail(strategy: ConnectStrategy) -> Seq<char> {
    strategy_name(strategy) + " connect strategy has no proxy configuration"@
}

/// The failure a connect strategy produces for a worker without usable proxy
/// configuration. `Direct` connects normally; a proxy strategy without a
/// tunnel fails recoverably, so an account never silently falls back to a
/// direct connection.
pub fn strategy_connect_failure(strategy: ConnectStrategy, proxy_configured: bool) -> (r: Option<
    ConnectFailure,
>)
    ensures
        strategy == ConnectStrategy::Direct || proxy_configured ==> r is None,
        strategy != ConnectStrategy::Direct && !proxy_configured ==> (r matches Some(f)
            && f.detail@ == missing_proxy_detail(strategy) && f.recoverable && f.kind
            == DisconnectKind::Unknown),
{
    match strategy {
        ConnectStrategy::Direct => None,
        ConnectStrategy::HttpConnect | ConnectStrategy::Socks5 => {
            if proxy_configured {
                None
            } else {
                Some(
                    ConnectFailure {
                        detail: strategy.as_str().to_owned().concat(
                            " connect strategy has no proxy configuration",
                        ),
                        recoverable: true,
                        kind: DisconnectKind::Unknown,
                    },
                )
            }
        },
    }
}

/// Returns the failure when it is non-recoverable, so a connect attempt can
/// stop instead of trying another candidate.
pub fn terminal_if_auth(failure: ConnectFailure) -> (r: Option<ConnectFailure>)
    ensures
        failure.recoverable ==> r is None,
        !failure.recoverable ==> r == Some(failure),
{
    if failure.recoverable {
        None
    } else {
        Some(failure)
    }
}

/// The variant of a failure reported by the XMPP client library.
#[derive(Clone, Copy, Debug, PartialEq, Eq, Structural)]
pub enum XmppErrorKind {
    Io,
    JidParse,
    Protocol,
    /// A SASL or other authentication failure other than a temporary one.
    Auth,
    /// The server's SASL `temporary-auth-failure`.
    AuthTemporary,
    Disconnected,
    InvalidState,
    Fmt,
    Utf8,
    Connection,
    DnsProto,
    DnsNet,
    Idna,
    Addr,
    StreamError,
    ReconnectBudgetExhausted,
    Tls,
}

/// A failure reported by the XMPP client library, as plain values.
#[derive(Debug, PartialEq, Eq)]
pub struct XmppError {
    pub kind: XmppErrorKind,
    /// Whether the failure is a TLS certificate verification failure.
    pub tls_verification: bool,
    /// The error's display text.
    pub detail: String,
}

/// Whether the error is a terminal authentication failure; a server-side
/// temporary failure stays retryable.
pub fn is_auth_error(error: &XmppError) -> (r: bool)
    ensures
        r == (error.kind == XmppErrorKind::Auth),
{
    matches!(error.kind, XmppErrorKind::Auth)
}

/// Whether the error is a TLS certificate verification failure.
pub fn is_tls_verification_error(error: &XmppError) -> (r: bool)
    ensures
        r == error.tls_verification,
{
    error.tls_verification
}

/// The disconnect kind of a typed failure.
pub open spec fn disconnect_kind_of(error: XmppError) -> DisconnectKind {
    if error.tls_verification {
        DisconnectKind::TlsVerificationFailed
    } else {
        match error.kind {
            XmppErrorKind::Auth | XmppErrorKind::AuthTemporary => DisconnectKind::AuthenticationFailed,
            XmppErrorKind::StreamError => DisconnectKind::ServerRefused,
            XmppErrorKind::Io | XmppErrorKind::Disconnected | XmppErrorKind::Connection
            | XmppErrorKind::Addr | XmppErrorKind::DnsProto | XmppErrorKind::DnsNet
            | XmppErrorKind::Idna | XmppErrorKind::ReconnectBudgetExhausted
            | XmppErrorKind::Tls => DisconnectKind::NetworkLost,
            XmppErrorKind::JidParse | XmppErrorKind::Protocol | XmppErrorKind::InvalidState
            | XmppErrorKind::Fmt | XmppErrorKind::Utf8 => DisconnectKind::Unknown,
        }
    }
}

/// Classifies a typed failure into the diagnostics disconnect kind. This is
/// the single place that derives control flow from a disconnect cause, and it
/// reads typed variants, never prose.
pub fn classify_disconnect(error: &XmppError) -> (r: DisconnectKind)
    ensures
        r == disconnect_kind_of(*error),
{
    if is_tls_verification_error(error) {
        return DisconnectKind::TlsVerificationFailed;
    }
    match error.kind {
        XmppErrorKind::Auth | XmppErrorKind::AuthTemporary => DisconnectKind::AuthenticationFailed,
        XmppErrorKind::StreamError => DisconnectKind::ServerRefused,
        XmppErrorKind::Io | XmppErrorKind::Disconnected | XmppErrorKind::Connection
        | XmppErrorKind::Addr | XmppErrorKind::DnsProto | XmppErrorKind::DnsNet
        | XmppErrorKind::Idna | XmppErrorKind::ReconnectBudgetExhausted
        | XmppErrorKind::Tls => DisconnectKind::NetworkLost,
        XmppErrorKind::JidParse | XmppErrorKind::Protocol | XmppErrorKind::InvalidState
        | XmppErrorKind::Fmt | XmppErrorKind::Utf8 => DisconnectKind::Unknown,
    }
}

/// Whether a disconnect leaves the account retryable: only a hard
/// authentication failure or a certificate failure does not.
pub open spec fn recoverable_spec(error: XmppError) -> bool {
    error.kind != XmppErrorKind::Auth && !error.tls_verification
}

/// Recoverability of a disconnect, the same mid-session as on connect.
pub fn disconnected_is_recoverable(error: &XmppError) -> (r: bool)
    ensures
        r == recoverable_spec(*error),
{
    !is_auth_error(error) && !is_tls_verification_error(error)
}

/// Whether the client's reconnect loop gave up after its total retry budget.
pub fn reconnect_budget_exhausted(error: &XmppError) -> (r: bool)
    ensures
        r == (error.kind == XmppErrorKind::ReconnectBudgetExhausted),
{
    matches!(error.kind, XmppErrorKind::ReconnectBudgetExhausted)
}

/// What the worker loop does after handling one client event.
#[derive(Clone, Copy, Debug, PartialEq, Eq, Structural)]
pub enum LoopAction {
    /// Keep polling the same client.
    Keep,
    /// Drop the client and end the worker.
    Stop,
}

/// An event of the XMPP client, as plain values.
#[derive(Debug, PartialEq, Eq)]
pub enum ClientEvent {
    /// The stream is connected and initialized: whether it offers stream
    /// management, and the domain of the bound JID.
    Online { stream_management: bool, domain: String },
    /// The stream ended.
    Disconnected(XmppError),
    /// A message stanza arrived.
    Message(IncomingMessage),
    /// A presence stanza arrived.
    Presence(IncomingPresence),
    /// An IQ stanza arrived.
    Iq(IncomingIq),
}

/// The loop decision for an event.
pub open spec fn decision(event: ClientEvent, auto_reconnect: bool) -> LoopAction {
    match event {
        ClientEvent::Disconnected(error) => if error.kind == XmppErrorKind::ReconnectBudgetExhausted {
            LoopAction::Stop
        } else if recoverable_spec(error) && auto_reconnect {
            LoopAction::Keep
        } else {
            LoopAction::Stop
        },
        _ => LoopAction::Keep,
    }
}

/// The reconnect decision for a client event: a disconnect keeps polling
/// (the client resumes) only when it is recoverable, auto-reconnect is on,
/// and the retry budget is not spent.
pub fn reconnect_decision(event: &ClientEvent, auto_reconnect: bool) -> (r: LoopAction)
    ensures
        r == decision(*event, auto_reconnect),
{
    match event {
        ClientEvent::Disconnected(error) => {
            if reconnect_budget_exhausted(error) {
                return LoopAction::Stop;
            }
            if disconnected_is_recoverable(error) && auto_reconnect {
                return LoopAction::Keep;
            }
            LoopAction::Stop
        },
        _ => LoopAction::Keep,
    }
}

/// Maps the first client event to a terminal connect failure, if it is one:
/// only a disconnect is, with its detail, recoverability and kind.
pub fn terminal_failure_for_event(event: &ClientEvent) -> (r: Option<ConnectFailure>)
    ensures
        match event {
            ClientEvent::Disconnected(error) => (r matches Some(f) && f.detail == error.detail
                && f.recoverable == recoverable_spec(*error) && f.kind == disconnect_kind_of(
                *error,
            )),
            _ => r is None,
        },
{
    match event {
        ClientEvent::Disconnected(error) => Some(
            ConnectFailure {
                detail: error.detail.clone(),
                recoverable: disconnected_is_recoverable(error),
                kind: classify_disconnect(error),
            },
        ),
        _ => None,
    }
}

/// Whether an idle time (in nanoseconds) is past the stale threshold.
pub fn is_stale_nanos(idle: u128, threshold: u128) -> (r: bool)
    ensures
        r == (idle > threshold),
{
    idle > threshold
}

/// The whole nanoseconds that a `Duration` holds (what `Duration::as_nanos`
/// returns).
pub uninterp spec fn duration_whole_nanos(d: std::time::Duration) -> u128;

/// `Duration::as_nanos`: the total number of whole nanoseconds in `d`,
/// named by `duration_whole_nanos`.
#[verifier::external_body]
fn duration_nanos(d: &std::time::Duration) -> (r: u128)
    ensures
        r == duration_whole_nanos(*d),
{
    d.as_nanos()
}

/// Stale-session decision of the inbound watchdog: stale only strictly past
/// the threshold, comparing the two durations by their whole nanoseconds.
pub fn is_inbound_stale(idle: std::time::Duration, threshold: std::time::Duration) -> (r: bool)
    ensures
        r == (duration_whole_nanos(idle) > duration_whole_nanos(threshold)),
{
    is_stale_nanos(duration_nanos(&idle), duration_nanos(&threshold))
}

/// One SRV answer.
#[derive(Debug, PartialEq, Eq)]
pub struct SrvCandidate {
    pub priority: u16,
    pub weight: u16,
    pub target: String,
    pub port: u16,
}

impl Clone for SrvCandidate {
    fn clone(&self) -> (r: Self)
        ensures
            r == *self,
    {
        SrvCandidate {
            priority: self.priority,
            weight: self.weight,
            target: self.target.clone(),
            port: self.port,
        }
    }
}

/// Whether `a` may be tried no later than `b` (RFC 2782): lower priority
/// first, then higher weight first.
pub open spec fn srv_before(a: SrvCandidate, b: SrvCandidate) -> bool {
    a.priority < b.priority || (a.priority == b.priority && a.weight >= b.weight)
}

/// `s` (in order) with `x` placed after every element that may go no later than it.
pub open spec fn srv_insert(s: Seq<SrvCandidate>, x: SrvCandidate) -> Seq<SrvCandidate> {
    let k = crate::keyed::first_where(s, |y: SrvCandidate| !srv_before(y, x));
    s.insert(k, x)
}

/// The answers stably sorted by priority ascending, then weight descending.
pub open spec fn srv_sorted(s: Seq<SrvCandidate>) -> Seq<SrvCandidate>
    decreases s.len(),
{
    if s.len() == 0 {
        s
    } else {
        srv_insert(srv_sorted(s.drop_last()), s.last())
    }
}

/// Every answer may be tried no later than each one after it.
pub open spec fn srv_ordered(s: Seq<SrvCandidate>) -> bool {
    forall|i: int, j: int| 0 <= i < j < s.len() ==> srv_before(#[trigger] s[i], #[trigger] s[j])
}

/// Sorting keeps exactly the answers it was given and puts them in order.
pub proof fn lemma_srv_sorted(s: Seq<SrvCandidate>)
    ensures
        srv_ordered(srv_sorted(s)),
        srv_sorted(s).to_multiset() == s.to_multiset(),
        srv_sorted(s).len() == s.len(),
    decreases s.len(),
{
    broadcast use vstd::seq_lib::group_to_multiset_ensures;
    if s.len() > 0 {
        let t = srv_sorted(s.drop_last());
        let x = s.last();
        lemma_srv_sorted(s.drop_last());
        let p = |y: SrvCandidate| !srv_before(y, x);
        crate::keyed::lemma_first_where(t, p);
        let k = crate::keyed::first_where(t, p);
        let r = t.insert(k, x);
        assert(r == srv_sorted(s));
        vstd::seq_lib::to_multiset_insert(t, k, x);
        vstd::seq_lib::to_multiset_build(s.drop_last(), x);
        assert(s.drop_last().push(x) =~= s);
        assert forall|i: int, j: int| 0 <= i < j < r.len() implies srv_before(
            #[trigger] r[i],
            #[trigger] r[j],
        ) by {
            if j < k {
                assert(r[i] == t[i] && r[j] == t[j]);
            } else if j == k {
                assert(r[i] == t[i] && !p(t[i]));
            } else if i > k {
                assert(r[i] == t[i - 1] && r[j] == t[j - 1]);
            } else if i == k {
                assert(p(t[k]));
                assert(r[j] == t[j - 1]);
                if j - 1 > k {
                    assert(srv_before(t[k], t[j - 1]));
                }
            } else {
                assert(r[i] == t[i] && r[j] == t[j - 1]);
            }
        }
    }
}

/// Orders SRV answers per RFC 2782: priority ascending, then weight
/// descending; answers that tie keep their order.
pub fn order_srv_candidates(records: Vec<SrvCandidate>) -> (r: Vec<SrvCandidate>)
    ensures
        r@ == srv_sorted(records@),
        srv_ordered(r@),
        r@.to_multiset() == records@.to_multiset(),
{
    let mut out: Vec<SrvCandidate> = Vec::new();
    let mut i: usize = 0;
    while i < records.len()
        invariant
            i <= records.len(),
            out@ == srv_sorted(records@.take(i as int)),
        decreases records.len() - i,
    {
        let x = records[i].clone();
        let ghost p = |y: SrvCandidate| !srv_before(y, x);
        let mut k: usize = 0;
        while k < out.len()
            invariant
                k <= out.len(),
                p == (|y: SrvCandidate| !srv_before(y, x)),
                forall|j: int| 0 <= j < k ==> !p(#[trigger] out@[j]),
            ensures
                k <= out.len(),
                forall|j: int| 0 <= j < k ==> !p(#[trigger] out@[j]),
                k < out.len() ==> p(out@[k as int]),
            decreases out.len() - k,
        {
            let y = &out[k];
            if !(y.priority < x.priority || (y.priority == x.priority && y.weight >= x.weight)) {
                break ;
            }
            k = k + 1;
        }
        proof {
            crate::keyed::lemma_first_where_unique(out@, p, k as int);
            assert(records@.take(i + 1).drop_last() =~= records@.take(i as int));
        }
        out.insert(k, x);
        i = i + 1;
    }
    proof {
        assert(records@.take(i as int) =~= records@);
        lemma_srv_sorted(records@);
    }
    out
}

/// The message id carried in a receipt id `mindchat-<n>`, for a non-zero
/// `n` written with ASCII digits only.
pub open spec fn receipt_id_value(id: Seq<char>) -> Option<u64> {
    let prefix = "mindchat-"@;
    if id.len() >= prefix.len() && id.take(prefix.len() as int) == prefix {
        let suffix = id.skip(prefix.len() as int);
        if suffix.len() > 0 && all_digits(suffix) && digits_value(suffix) <= u64::MAX
            && digits_value(suffix) != 0 {
            Some(digits_value(suffix) as u64)
        } else {
            None
        }
    } else {
        None
    }
}

/// Parses the message id of a receipt for a message this client sent.
pub fn parse_receipt_message_id(id: &str) -> (r: Option<u64>)
    ensures
        r == receipt_id_value(id@),
{
    let v = chars_of(id);
    let prefix = chars_of("mindchat-");
    proof {
        reveal_strlit("mindchat-");
    }
    if v.len() < prefix.len() {
        return None;
    }
    let mut i: usize = 0;
    while i < prefix.len()
        invariant
            i <= prefix.len(),
            prefix.len() <= v.len(),
            prefix@ == "mindchat-"@,
            v@ == id@,
            forall|k: int| 0 <= k < i ==> v@[k] == prefix@[k],
        decreases prefix.len() - i,
    {
        if v[i] != prefix[i] {
            proof {
                assert(id@.take(prefix.len() as int)[i as int] == v@[i as int]);
                assert(prefix@[i as int] == "mindchat-"@[i as int]);
                assert(id@.take(prefix.len() as int)[i as int] != "mindchat-"@[i as int]);
                assert(id@.take(prefix.len() as int) != "mindchat-"@);
            }
            return None;
        }
        i = i + 1;
    }
    proof {
        assert(id@.take(prefix.len() as int) =~= "mindchat-"@);
    }
    let suffix = id.substring_char(prefix.len(), v.len());
    proof {
        assert(suffix@ =~= id@.skip(prefix.len() as int));
    }
    if suffix.unicode_len() == 0 {
        return None;
    }
    let sv = chars_of(suffix);
    let mut j: usize = 0;
    while j < sv.len()
        invariant
            j <= sv.len(),
            sv@ == suffix@,
            "mindchat-"@.len() == 9,
            id@.len() >= 9,
            id@.take(9) == "mindchat-"@,
            suffix@ == id@.skip(9),
            forall|k: int| 0 <= k < j ==> crate::text::is_digit(#[trigger] sv@[k]),
        decreases sv.len() - j,
    {
        if !('0' <= sv[j] && sv[j] <= '9') {
            proof {
                assert(!crate::text::is_digit(suffix@[j as int]));
            }
            return None;
        }
        j = j + 1;
    }
    proof {
        assert(all_digits(suffix@));
        assert(suffix@.len() > 0 && suffix@[0] != '+');
    }
    match parse_decimal(suffix, u64::MAX) {
        Some(n) => if n != 0 {
            Some(n)
        } else {
            None
        },
        None => None,
    }
}

/// Whether `s` parses as a JID (`jid::Jid::new`).
pub uninterp spec fn jid_accepts(s: Seq<char>) -> bool;

/// Whether `s` parses as a bare JID (`jid::BareJid::new`).
pub uninterp spec fn bare_jid_accepts(s: Seq<char>) -> bool;

/// `xmpp_parsers::jid::Jid::new`: whether the text parses (and normalizes)
/// as a JID. The outcome is named, not stated.
#[verifier::external_body]
pub(crate) fn jid_valid(s: &str) -> (r: bool)
    ensures
        r == jid_accepts(s@),
{
    xmpp_parsers::jid::Jid::new(s).is_ok()
}

/// `xmpp_parsers::jid::BareJid::new`: whether the text parses as a bare JID
/// (no resource). The outcome is named, not stated.
#[verifier::external_body]
pub(crate) fn bare_jid_valid(s: &str) -> (r: bool)
    ensures
        r == bare_jid_accepts(s@),
{
    xmpp_parsers::jid::BareJid::new(s).is_ok()
}

/// The type of an outgoing message stanza.
#[derive(Clone, Copy, Debug, PartialEq, Eq, Structural)]
pub enum StanzaType {
    Chat,
    Groupchat,
}

/// An outgoing message stanza, as plain values.
#[derive(Debug, PartialEq, Eq)]
pub struct OutgoingStanza {
    pub type_: StanzaType,
    pub to: String,
    pub id: String,
    pub body: String,
    /// Whether the stanza carries an XEP-0184 receipt request.
    pub request_receipt: bool,
}

/// Builds the message stanza for a validated outgoing message. Direct
/// messages request a receipt; group chat messages do not.
pub fn build_message_stanza(message: OutgoingMessage) -> (r: Result<OutgoingStanza, TransportError>)
    ensures
        !jid_accepts(message.recipient@) ==> (r matches Err(TransportError::ProtocolViolation(d))
            && d@ == "invalid conversation JID supplied to XMPP transport"@),
        jid_accepts(message.recipient@) ==> (r matches Ok(s) && s.type_ == (if message.kind
            == ConversationKind::Direct {
            StanzaType::Chat
        } else {
            StanzaType::Groupchat
        }) && s.to == message.recipient && s.id@ == "mindchat-"@ + decimal(
            message.message_id as nat,
        ) && s.body == message.body && s.request_receipt == (message.kind
            == ConversationKind::Direct)),
{
    if !jid_valid(message.recipient.as_str()) {
        return Err(
            TransportError::ProtocolViolation(
                "invalid conversation JID supplied to XMPP transport".to_owned(),
            ),
        );
    }
    let direct = matches!(message.kind, ConversationKind::Direct);
    let OutgoingMessage { recipient, body, message_id, .. } = message;
    Ok(
        OutgoingStanza {
            type_: if direct {
                StanzaType::Chat
            } else {
                StanzaType::Groupchat
            },
            to: recipient,
            id: "mindchat-".to_owned().concat(decimal_text(message_id).as_str()),
            body,
            request_receipt: direct,
        },
    )
}

/// A server field cut at its port text: after a bracketed host
/// (`[v6]:port`) or at the only `:`; errors name a malformed bracket or port.
pub enum PortSplit {
    NoPort,
    Split(Seq<char>, Seq<char>),
    BadBracket,
    BadPort,
}

/// How a server field splits into host and port text.
pub open spec fn port_split(s: Seq<char>) -> PortSplit {
    if s.len() > 0 && s[0] == '[' {
        let rest = s.drop_first();
        let j = first_index(rest, ']');
        if j == rest.len() {
            PortSplit::BadBracket
        } else {
            let suffix = rest.skip(j + 1);
            if suffix.len() == 0 {
                PortSplit::NoPort
            } else if suffix[0] != ':' {
                PortSplit::BadPort
            } else {
                PortSplit::Split(rest.take(j), suffix.drop_first())
            }
        }
    } else if first_index(s, ':') < s.len() && first_index(s.skip(first_index(s, ':') + 1), ':')
        == s.len() - first_index(s, ':') - 1 {
        PortSplit::Split(s.take(first_index(s, ':')), s.skip(first_index(s, ':') + 1))
    } else {
        PortSplit::NoPort
    }
}

/// The detail reported for a malformed endpoint, if any.
pub open spec fn endpoint_problem(host: Seq<char>, port: Seq<char>) -> Option<Seq<char>> {
    match parse_unsigned(port, 65535) {
        None => Some("invalid XMPP server port"@),
        Some(p) => if trim(host).len() == 0 || p == 0 {
            Some("invalid XMPP server endpoint"@)
        } else {
            None
        },
    }
}

/// The detail reported for a server field with bad endpoint syntax, if any.
pub open spec fn endpoint_syntax_problem(server: Seq<char>) -> Option<Seq<char>> {
    let s = trim(server);
    if s.len() == 0 {
        Some("XMPP server is empty"@)
    } else {
        match port_split(s) {
            PortSplit::NoPort => None,
            PortSplit::BadBracket => Some("invalid bracketed XMPP server"@),
            PortSplit::BadPort => Some("invalid XMPP server port"@),
            PortSplit::Split(host, port) => endpoint_problem(host, port),
        }
    }
}

/// Checks a host and port text of an explicit endpoint.
pub fn parse_endpoint(host: &str, port: &str) -> (r: Result<(String, u16), TransportError>)
    ensures
        match endpoint_problem(host@, port@) {
            Some(d) => (r matches Err(TransportError::ProtocolViolation(x)) && x@ == d),
            None => (r matches Ok((h, p)) && h@ == trim(host@) && p as nat == parse_unsigned(
                port@,
                65535,
            )->Some_0),
        },
{
    let host = trimmed(host);
    let port = match parse_decimal(port, 65535) {
        Some(p) => p as u16,
        None => {
            return Err(TransportError::ProtocolViolation("invalid XMPP server port".to_owned()))
        },
    };
    if host.as_str().unicode_len() == 0 || port == 0 {
        return Err(TransportError::ProtocolViolation("invalid XMPP server endpoint".to_owned()));
    }
    Ok((host, port))
}

/// Cuts a server field into host and port text.
fn split_port_text(server: &str) -> (r: (u8, String, String))
    ensures
        match port_split(server@) {
            PortSplit::NoPort => r.0 == 0,
            PortSplit::Split(h, p) => r.0 == 1 && r.1@ == h && r.2@ == p,
            PortSplit::BadBracket => r.0 == 2,
            PortSplit::BadPort => r.0 == 3,
        },
{
    let v = chars_of(server);
    let n = v.len();
    if n > 0 && v[0] == '[' {
        let close = match find_char(&v, ']', 1) {
            Some(j) => j,
            None => {
                proof {
                    lemma_first_index_unique(server@.drop_first(), ']', (n - 1) as int);
                }
                return (2, String::new(), String::new());
            },
        };
        proof {
            let rest = server@.drop_first();
            assert forall|k: int| 0 <= k < close - 1 implies #[trigger] rest[k] != ']' by {
                assert(rest[k] == v@[k + 1]);
            }
            lemma_first_index_unique(rest, ']', close - 1);
            assert(rest.skip(close as int) =~= server@.skip(close + 1));
            assert(rest.take(close - 1) =~= server@.subrange(1, close as int));
        }
        if close + 1 == n {
            return (0, String::new(), String::new());
        }
        if v[close + 1] != ':' {
            return (3, String::new(), String::new());
        }
        let host = server.substring_char(1, close).to_owned();
        let port = server.substring_char(close + 2, n).to_owned();
        proof {
            assert(port@ =~= server@.skip(close + 1).drop_first());
        }
        return (1, host, port);
    }
    let k = match find_char(&v, ':', 0) {
        Some(k) => k,
        None => {
            proof {
                lemma_first_index_unique(server@, ':', n as int);
            }
            return (0, String::new(), String::new());
        },
    };
    proof {
        lemma_first_index_unique(server@, ':', k as int);
    }
    let second = find_char(&v, ':', k + 1);
    proof {
        let tail = server@.skip(k + 1);
        match second {
            Some(j) => {
                assert forall|q: int| 0 <= q < j - k - 1 implies #[trigger] tail[q] != ':' by {
                    assert(tail[q] == v@[q + k + 1]);
                }
                lemma_first_index_unique(tail, ':', j - k - 1);
            },
            None => {
                assert forall|q: int| 0 <= q < n - k - 1 implies #[trigger] tail[q] != ':' by {
                    assert(tail[q] == v@[q + k + 1]);
                }
                lemma_first_index_unique(tail, ':', n - k - 1);
            },
        }
    }
    if second.is_some() {
        return (0, String::new(), String::new());
    }
    let host = server.substring_char(0, k).to_owned();
    let port = server.substring_char(k + 1, n).to_owned();
    proof {
        assert(port@ =~= server@.skip(k + 1));
    }
    (1, host, port)
}

/// Checks the syntax of a configured server field: non-empty, and an
/// explicit endpoint must carry a valid non-zero port and a host.
pub fn validate_endpoint_syntax(server: &str) -> (r: Result<(), TransportError>)
    ensures
        match endpoint_syntax_problem(server@) {
            Some(d) => (r matches Err(TransportError::ProtocolViolation(x)) && x@ == d),
            None => r is Ok,
        },
{
    let s = trimmed(server);
    if s.as_str().unicode_len() == 0 {
        return Err(TransportError::ProtocolViolation("XMPP server is empty".to_owned()));
    }
    let (tag, host, port) = split_port_text(s.as_str());
    if tag == 2 {
        return Err(TransportError::ProtocolViolation("invalid bracketed XMPP server".to_owned()));
    }
    if tag == 3 {
        return Err(TransportError::ProtocolViolation("invalid XMPP server port".to_owned()));
    }
    if tag == 1 {
        if let Err(e) = parse_endpoint(host.as_str(), port.as_str()) {
            return Err(e);
        }
    }
    Ok(())
}

/// What a server field says of an explicit endpoint: none, a host and port,
/// or the detail of a malformed one.
pub open spec fn host_port_of(server: Seq<char>) -> Result<Option<(Seq<char>, u16)>, Seq<char>> {
    match port_split(server) {
        PortSplit::NoPort => Ok(None),
        PortSplit::BadBracket => Err("invalid bracketed XMPP server"@),
        PortSplit::BadPort => Err("invalid XMPP server port"@),
        PortSplit::Split(host, port) => match endpoint_problem(host, port) {
            Some(d) => Err(d),
            None => Ok(Some((trim(host), parse_unsigned(port, 65535)->Some_0 as u16))),
        },
    }
}

/// Splits a server field into an explicit host and port, if it names one.
pub fn split_host_and_port(server: &str) -> (r: Result<Option<(String, u16)>, TransportError>)
    ensures
        match host_port_of(server@) {
            Ok(None) => r matches Ok(None),
            Ok(Some((h, p))) => r matches Ok(Some((x, q))) && x@ == h && q == p,
            Err(d) => r matches Err(TransportError::ProtocolViolation(x)) && x@ == d,
        },
{
    let (tag, host, port) = split_port_text(server);
    if tag == 2 {
        return Err(TransportError::ProtocolViolation("invalid bracketed XMPP server".to_owned()));
    }
    if tag == 3 {
        return Err(TransportError::ProtocolViolation("invalid XMPP server port".to_owned()));
    }
    if tag == 0 {
        return Ok(None);
    }
    match parse_endpoint(host.as_str(), port.as_str()) {
        Ok(endpoint) => Ok(Some(endpoint)),
        Err(e) => Err(e),
    }
}

} // verus!
