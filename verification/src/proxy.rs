//! Proxy connect strategy contract and the SOCKS5 / HTTP CONNECT wire formats.
//!
//! DNS for the XMPP server is resolved only at the proxy: in SOCKS5 the
//! hostname travels verbatim as an ATYP `0x03` domain and in HTTP CONNECT it
//! appears only in the request line and `Host` header. Proxy credentials are
//! never part of [`ProxyConfig`].

use vstd::prelude::*;

use crate::rules::{first_index, lemma_first_index_unique};
use vstd::utf8::{decode_utf8, encode_utf8, valid_utf8};

use base64::Engine;

use crate::addr::{ipv4_octets, ipv6_octets, parse_ipv4, parse_ipv6};
use crate::text::{
    char_is_whitespace, chars_of, is_ws, contains_whitespace, decimal, decimal_text, find_char, has_ws, is_blank,
    parse_decimal, parse_unsigned, trim, trimmed,
};

verus! {

/// How an account's XMPP connection is established.
#[derive(Clone, Copy, Debug, PartialEq, Eq, Structural)]
pub enum ConnectStrategy {
    /// Connect directly to the resolved XMPP endpoints.
    Direct,
    /// Establish the stream through an HTTP CONNECT proxy.
    HttpConnect,
    /// Establish the stream through a SOCKS5 proxy.
    Socks5,
}

impl Default for ConnectStrategy {
    fn default() -> (r: Self)
        ensures
            r == ConnectStrategy::Direct,
    {
        ConnectStrategy::Direct
    }
}

/// The stable name of a strategy.
pub open spec fn strategy_name(strategy: ConnectStrategy) -> Seq<char> {
    match strategy {
        ConnectStrategy::Direct => "direct"@,
        ConnectStrategy::HttpConnect => "http_connect"@,
        ConnectStrategy::Socks5 => "socks5"@,
    }
}

/// The strategy a stable name stands for, if any.
pub open spec fn strategy_named(name: Seq<char>) -> Option<ConnectStrategy> {
    if name == strategy_name(ConnectStrategy::Direct) {
        Some(ConnectStrategy::Direct)
    } else if name == strategy_name(ConnectStrategy::HttpConnect) {
        Some(ConnectStrategy::HttpConnect)
    } else if name == strategy_name(ConnectStrategy::Socks5) {
        Some(ConnectStrategy::Socks5)
    } else {
        None
    }
}

impl ConnectStrategy {
    /// Stable string form.
    pub fn as_str(self) -> (r: &'static str)
        ensures
            r@ == strategy_name(self),
    {
        match self {
            ConnectStrategy::Direct => "direct",
            ConnectStrategy::HttpConnect => "http_connect",
            ConnectStrategy::Socks5 => "socks5",
        }
    }

    /// The stable name as an owned string (what the strategy displays as).
    pub fn to_text(self) -> (r: String)
        ensures
            r@ == strategy_name(self),
    {
        self.as_str().to_owned()
    }

    /// Parses the stable name produced by [`Self::as_str`].
    pub fn from_name(name: &str) -> (r: Option<Self>)
        ensures
            r == strategy_named(name@),
    {
        if str_equal(name, "direct") {
            Some(ConnectStrategy::Direct)
        } else if str_equal(name, "http_connect") {
            Some(ConnectStrategy::HttpConnect)
        } else if str_equal(name, "socks5") {
            Some(ConnectStrategy::Socks5)
        } else {
            None
        }
    }
}

/// Exact string comparison.
pub fn str_equal(a: &str, b: &str) -> (r: bool)
    ensures
        r == (a@ == b@),
{
    let x = chars_of(a);
    let y = chars_of(b);
    if x.len() != y.len() {
        return false;
    }
    let mut i: usize = 0;
    while i < x.len()
        invariant
            i <= x.len(),
            x.len() == y.len(),
            x@ == a@,
            y@ == b@,
            forall|k: int| 0 <= k < i ==> x@[k] == y@[k],
        decreases x.len() - i,
    {
        if x[i] != y[i] {
            return false;
        }
        i = i + 1;
    }
    proof {
        assert(a@ =~= b@);
    }
    true
}

/// Parse failure for a [`ConnectStrategy`] name.
#[derive(Clone, Copy, Debug, PartialEq, Eq, Structural)]
pub struct UnknownConnectStrategy;

impl std::str::FromStr for ConnectStrategy {
    type Err = UnknownConnectStrategy;

    fn from_str(name: &str) -> (r: Result<Self, Self::Err>)
        ensures
            r == match strategy_named(name@) {
                Some(strategy) => Ok::<ConnectStrategy, UnknownConnectStrategy>(strategy),
                None => Err(UnknownConnectStrategy),
            },
    {
        match ConnectStrategy::from_name(name) {
            Some(strategy) => Ok(strategy),
            None => Err(UnknownConnectStrategy),
        }
    }
}

/// How the proxy tunnel is established.
#[derive(Clone, Copy, Debug, PartialEq, Eq, Structural)]
pub enum ProxyKind {
    /// SOCKS5 (RFC 1928) with optional RFC 1929 credentials.
    Socks5,
    /// HTTP CONNECT (RFC 7231 section 4.3.6) with optional Basic auth.
    HttpConnect,
}

impl Default for ProxyKind {
    fn default() -> (r: Self)
        ensures
            r == ProxyKind::Socks5,
    {
        ProxyKind::Socks5
    }
}

/// The stable name of a proxy kind.
pub open spec fn kind_name(kind: ProxyKind) -> Seq<char> {
    match kind {
        ProxyKind::Socks5 => "socks5"@,
        ProxyKind::HttpConnect => "http_connect"@,
    }
}

/// The connect strategy a proxy kind selects.
pub open spec fn strategy_for(kind: ProxyKind) -> ConnectStrategy {
    match kind {
        ProxyKind::Socks5 => ConnectStrategy::Socks5,
        ProxyKind::HttpConnect => ConnectStrategy::HttpConnect,
    }
}

impl ProxyKind {
    /// Stable string form.
    pub fn as_str(self) -> (r: &'static str)
        ensures
            r@ == kind_name(self),
    {
        match self {
            ProxyKind::Socks5 => "socks5",
            ProxyKind::HttpConnect => "http_connect",
        }
    }
}

impl From<ProxyKind> for ConnectStrategy {
    fn from(kind: ProxyKind) -> (r: Self)
        ensures
            r == strategy_for(kind),
    {
        match kind {
            ProxyKind::Socks5 => ConnectStrategy::Socks5,
            ProxyKind::HttpConnect => ConnectStrategy::HttpConnect,
        }
    }
}

impl vstd::std_specs::convert::FromSpecImpl<ProxyKind> for ConnectStrategy {
    open spec fn obeys_from_spec() -> bool {
        true
    }

    open spec fn from_spec(kind: ProxyKind) -> Self {
        strategy_for(kind)
    }
}

/// Non-secret proxy configuration stored on an account.
#[derive(Debug, PartialEq, Eq)]
pub struct ProxyConfig {
    /// Proxy hostname or IP literal. Only this host is resolved locally.
    pub host: String,
    /// Proxy TCP port.
    pub port: u16,
    /// Tunnel protocol.
    pub kind: ProxyKind,
}

impl Clone for ProxyConfig {
    fn clone(&self) -> (r: Self)
        ensures
            r == *self,
    {
        ProxyConfig { host: self.host.clone(), port: self.port, kind: self.kind }
    }
}

/// An owned copy of a proxy library.
pub fn copy_proxies(proxies: &Vec<ProxyConfig>) -> (r: Vec<ProxyConfig>)
    ensures
        r@ == proxies@,
{
    crate::model::copy_vec(proxies)
}

/// Typed failure for proxy configuration and handshakes.
#[derive(Debug, PartialEq, Eq)]
pub enum ProxyError {
    /// Underlying TCP or I/O failure.
    Io(String),
    /// Invalid proxy or tunnel configuration.
    InvalidConfig(String),
    /// SOCKS5 protocol violation or malformed packet.
    SocksProtocol(String),
    /// The SOCKS5 proxy rejected every offered authentication method (0xFF).
    SocksMethodRejected,
    /// RFC 1929 username/password authentication was refused.
    SocksAuthRejected,
    /// SOCKS5 CONNECT failed; carries the RFC 1928 reply code.
    SocksConnectFailed(u8),
    /// HTTP CONNECT response carried a non-200 status.
    HttpStatus { status: u16, reason: String },
    /// HTTP CONNECT response was malformed or closed early.
    HttpMalformed(String),
}

/// The UI-safe text of a proxy error.
pub open spec fn proxy_error_text(error: ProxyError) -> Seq<char> {
    match error {
        ProxyError::Io(detail) => "proxy I/O error: "@ + detail@,
        ProxyError::InvalidConfig(detail) => "invalid proxy configuration: "@ + detail@,
        ProxyError::SocksProtocol(detail) => "SOCKS5 protocol error: "@ + detail@,
        ProxyError::SocksMethodRejected => "the SOCKS5 proxy rejected every offered authentication method"@,
        ProxyError::SocksAuthRejected => "the SOCKS5 proxy refused the supplied credentials"@,
        ProxyError::SocksConnectFailed(reply) => "the SOCKS5 proxy refused the tunnel (reply code "@
            + decimal(reply as nat) + ")"@,
        ProxyError::HttpStatus { status, reason } => "the HTTP proxy refused the tunnel (status "@
            + decimal(status as nat) + (if reason@.len() == 0 {
            ""@
        } else {
            ": "@
        }) + reason@ + ")"@,
        ProxyError::HttpMalformed(detail) => "malformed HTTP proxy response: "@ + detail@,
    }
}

impl ProxyError {
    /// The UI-safe message for this error (what the error displays as).
    pub fn message(&self) -> (r: String)
        ensures
            r@ == proxy_error_text(*self),
    {
        match self {
            ProxyError::Io(detail) => "proxy I/O error: ".to_owned().concat(detail.as_str()),
            ProxyError::InvalidConfig(detail) => "invalid proxy configuration: ".to_owned().concat(
                detail.as_str(),
            ),
            ProxyError::SocksProtocol(detail) => "SOCKS5 protocol error: ".to_owned().concat(
                detail.as_str(),
            ),
            ProxyError::SocksMethodRejected => "the SOCKS5 proxy rejected every offered authentication method".to_owned(),
            ProxyError::SocksAuthRejected => "the SOCKS5 proxy refused the supplied credentials".to_owned(),
            ProxyError::SocksConnectFailed(reply) => "the SOCKS5 proxy refused the tunnel (reply code ".to_owned().concat(
                decimal_text(*reply as u64).as_str(),
            ).concat(")"),
            ProxyError::HttpStatus { status, reason } => {
                let head = "the HTTP proxy refused the tunnel (status ".to_owned().concat(
                    decimal_text(*status as u64).as_str(),
                );
                let sep = if reason.as_str().unicode_len() == 0 {
                    ""
                } else {
                    ": "
                };
                head.concat(sep).concat(reason.as_str()).concat(")")
            },
            ProxyError::HttpMalformed(detail) => "malformed HTTP proxy response: ".to_owned().concat(
                detail.as_str(),
            ),
        }
    }
}

/// A proxy failure with its texts as character sequences.
pub enum ProxyFailure {
    Io(Seq<char>),
    InvalidConfig(Seq<char>),
    SocksProtocol(Seq<char>),
    SocksMethodRejected,
    SocksAuthRejected,
    SocksConnectFailed(u8),
    HttpStatus { status: u16, reason: Seq<char> },
    HttpMalformed(Seq<char>),
}

impl View for ProxyError {
    type V = ProxyFailure;

    open spec fn view(&self) -> ProxyFailure {
        match self {
            ProxyError::Io(d) => ProxyFailure::Io(d@),
            ProxyError::InvalidConfig(d) => ProxyFailure::InvalidConfig(d@),
            ProxyError::SocksProtocol(d) => ProxyFailure::SocksProtocol(d@),
            ProxyError::SocksMethodRejected => ProxyFailure::SocksMethodRejected,
            ProxyError::SocksAuthRejected => ProxyFailure::SocksAuthRejected,
            ProxyError::SocksConnectFailed(code) => ProxyFailure::SocksConnectFailed(*code),
            ProxyError::HttpStatus { status, reason } => ProxyFailure::HttpStatus {
                status: *status,
                reason: reason@,
            },
            ProxyError::HttpMalformed(d) => ProxyFailure::HttpMalformed(d@),
        }
    }
}

/// The outcome of a proxy operation with the error taken by its view.
pub open spec fn failure<T>(r: Result<T, ProxyError>) -> Result<T, ProxyFailure> {
    match r {
        Ok(v) => Ok(v),
        Err(e) => Err(e@),
    }
}

/// SOCKS5 (RFC 1928) version byte.
pub const SOCKS5_VERSION: u8 = 0x05;

/// SOCKS5 no-authentication method.
pub const SOCKS5_METHOD_NO_AUTH: u8 = 0x00;

/// SOCKS5 username/password method (RFC 1929).
pub const SOCKS5_METHOD_USER_PASS: u8 = 0x02;

/// RFC 1929 authentication sub-negotiation version.
pub const SOCKS5_AUTH_VERSION: u8 = 0x01;

/// SOCKS5 CONNECT command.
pub const SOCKS5_CMD_CONNECT: u8 = 0x01;

/// SOCKS5 IPv4 address type.
pub const SOCKS5_ATYP_IPV4: u8 = 0x01;

/// SOCKS5 domain name address type (resolved by the proxy).
pub const SOCKS5_ATYP_DOMAIN: u8 = 0x03;

/// SOCKS5 IPv6 address type.
pub const SOCKS5_ATYP_IPV6: u8 = 0x04;

/// SOCKS5 successful CONNECT reply code.
pub const SOCKS5_REP_SUCCEEDED: u8 = 0x00;

/// Direct-TLS port used as the tunnel target when the account server names no port.
pub const PROXY_DEFAULT_TLS_PORT: u16 = 5223;

/// Upper bound for one HTTP CONNECT response header block.
pub const MAX_HTTP_RESPONSE_HEADER_BYTES: usize = 16384;

/// The detail of the configuration error host validation reports for `host`, if any.
pub open spec fn host_problem(host: Seq<char>) -> Option<Seq<char>> {
    if is_blank(host) {
        Some("a proxy or tunnel host is required"@)
    } else if has_ws(host) {
        Some("a proxy or tunnel host must not contain whitespace or line breaks"@)
    } else {
        None
    }
}

/// Rejects hosts that would corrupt a request line or allow header injection.
fn validate_host(host: &str) -> (r: Result<(), ProxyError>)
    ensures
        match host_problem(host@) {
            Some(detail) => failure(r) == Err::<(), ProxyFailure>(ProxyFailure::InvalidConfig(detail)),
            None => r is Ok,
        },
{
    let trimmed_host = trimmed(host);
    if trimmed_host.as_str().unicode_len() == 0 {
        return Err(ProxyError::InvalidConfig("a proxy or tunnel host is required".to_owned()));
    }
    if contains_whitespace(host) {
        return Err(
            ProxyError::InvalidConfig(
                "a proxy or tunnel host must not contain whitespace or line breaks".to_owned(),
            ),
        );
    }
    Ok(())
}

/// What building an endpoint `(host, port)` answers; `zero_port` is the
/// detail used when the port is zero.
pub open spec fn endpoint_check(host: Seq<char>, port: u16, zero_port: Seq<char>) -> Result<
    (),
    ProxyFailure,
> {
    match host_problem(host) {
        Some(detail) => Err(ProxyFailure::InvalidConfig(detail)),
        None => if port == 0 {
            Err(ProxyFailure::InvalidConfig(zero_port))
        } else {
            Ok(())
        },
    }
}

impl ProxyConfig {
    /// Validates and builds a proxy configuration. Hosts must be non-empty and
    /// free of whitespace and line breaks (a raw host goes into the HTTP
    /// CONNECT request, so a line break would allow header injection).
    pub fn new(host: &str, port: u16, kind: ProxyKind) -> (r: Result<Self, ProxyError>)
        ensures
            match endpoint_check(host@, port, "a proxy port must not be zero"@) {
                Err(f) => failure(r) == Err::<Self, ProxyFailure>(f),
                Ok(()) => (r matches Ok(c) && c.host@ == host@ && c.port == port && c.kind == kind),
            },
    {
        if let Err(e) = validate_host(host) {
            return Err(e);
        }
        if port == 0 {
            return Err(ProxyError::InvalidConfig("a proxy port must not be zero".to_owned()));
        }
        Ok(ProxyConfig { host: host.to_owned(), port, kind })
    }
}

/// The XMPP endpoint requested through the tunnel; its host is sent to the
/// proxy verbatim and never resolved locally.
#[derive(Debug, PartialEq, Eq)]
pub struct ProxyTarget {
    /// XMPP server hostname.
    pub host: String,
    /// XMPP server port as seen by the proxy.
    pub port: u16,
}

impl Clone for ProxyTarget {
    fn clone(&self) -> (r: Self)
        ensures
            r == *self,
    {
        ProxyTarget { host: self.host.clone(), port: self.port }
    }
}

/// The server field split at its port: the port text follows a bracketed
/// host (`[v6]:port`) or the only `:` of the field.
pub open spec fn split_server(s: Seq<char>) -> Result<Option<(Seq<char>, u16)>, Seq<char>> {
    if s.len() > 0 && s[0] == '[' {
        let rest = s.drop_first();
        let j = first_index(rest, ']');
        if j == rest.len() {
            Err("invalid bracketed server"@)
        } else {
            let suffix = rest.skip(j + 1);
            if suffix.len() == 0 {
                Ok(None)
            } else if suffix[0] != ':' {
                Err("invalid server port"@)
            } else {
                match parse_unsigned(suffix.drop_first(), 65535) {
                    Some(p) => Ok(Some((rest.take(j), p as u16))),
                    None => Err("invalid server port"@),
                }
            }
        }
    } else if first_index(s, ':') < s.len() && first_index(s.skip(first_index(s, ':') + 1), ':')
        == s.len() - first_index(s, ':') - 1 {
        let k = first_index(s, ':');
        match parse_unsigned(s.skip(k + 1), 65535) {
            Some(p) => Ok(Some((s.take(k), p as u16))),
            None => Err("invalid server port"@),
        }
    } else {
        Ok(None)
    }
}

/// Splits a server field into an optional explicit `(host, port)`.
fn split_host_and_port(server: &str) -> (r: Result<Option<(String, u16)>, ProxyError>)
    ensures
        match split_server(server@) {
            Err(detail) => failure(r) == Err::<Option<(String, u16)>, ProxyFailure>(
                ProxyFailure::InvalidConfig(detail),
            ),
            Ok(None) => r == Ok::<Option<(String, u16)>, ProxyError>(None),
            Ok(Some((host, port))) => (r matches Ok(Some((h, p))) && h@ == host && p == port),
        },
{
    let v = chars_of(server);
    let n = v.len();
    if n > 0 && v[0] == '[' {
        let close = match find_char(&v, ']', 1) {
            Some(j) => j,
            None => {
                proof {
                    lemma_first_index_unique(server@.drop_first(), ']', (n - 1) as int);
                }
                return Err(ProxyError::InvalidConfig("invalid bracketed server".to_owned()));
            },
        };
        proof {
            let rest = server@.drop_first();
            assert forall|k: int| 0 <= k < close - 1 implies #[trigger] rest[k] != ']' by {
                assert(rest[k] == v@[k + 1]);
            }
            lemma_first_index_unique(rest, ']', close - 1);
            assert(rest.skip(close as int) =~= server@.skip(close + 1));
            assert(rest.take(close - 1) =~= server@.subrange(1, close as int));
        }
        if close + 1 == n {
            return Ok(None);
        }
        if v[close + 1] != ':' {
            return Err(ProxyError::InvalidConfig("invalid server port".to_owned()));
        }
        let port_text = server.substring_char(close + 2, n);
        proof {
            assert(port_text@ =~= server@.skip(close + 1).drop_first());
        }
        return match parse_decimal(port_text, 65535) {
            Some(p) => Ok(Some((server.substring_char(1, close).to_owned(), p as u16))),
            None => Err(ProxyError::InvalidConfig("invalid server port".to_owned())),
        };
    }
    let k = match find_char(&v, ':', 0) {
        Some(k) => k,
        None => {
            proof {
                lemma_first_index_unique(server@, ':', n as int);
            }
            return Ok(None);
        },
    };
    proof {
        lemma_first_index_unique(server@, ':', k as int);
    }
    let second = find_char(&v, ':', k + 1);
    proof {
        let tail = server@.skip(k + 1);
        match second {
            Some(j) => {
                assert forall|q: int| 0 <= q < j - k - 1 implies #[trigger] tail[q] != ':' by {
                    assert(tail[q] == v@[q + k + 1]);
                }
                lemma_first_index_unique(tail, ':', j - k - 1);
            },
            None => {
                assert forall|q: int| 0 <= q < n - k - 1 implies #[trigger] tail[q] != ':' by {
                    assert(tail[q] == v@[q + k + 1]);
                }
                lemma_first_index_unique(tail, ':', n - k - 1);
            },
        }
    }
    if second.is_some() {
        return Ok(None);
    }
    let port_text = server.substring_char(k + 1, n);
    proof {
        assert(port_text@ =~= server@.skip(k + 1));
    }
    match parse_decimal(port_text, 65535) {
        Some(p) => Ok(Some((server.substring_char(0, k).to_owned(), p as u16))),
        None => Err(ProxyError::InvalidConfig("invalid server port".to_owned())),
    }
}

/// What deriving a tunnel target from a server field answers.
pub open spec fn target_from_server(server: Seq<char>) -> Result<(Seq<char>, u16), ProxyFailure> {
    let s = trim(server);
    if s.len() == 0 {
        Err(ProxyFailure::InvalidConfig("the XMPP server is empty"@))
    } else {
        match split_server(s) {
            Err(detail) => Err(ProxyFailure::InvalidConfig(detail)),
            Ok(Some((host, port))) => match endpoint_check(
                host,
                port,
                "a tunnel port must not be zero"@,
            ) {
                Err(f) => Err(f),
                Ok(()) => Ok((host, port)),
            },
            Ok(None) => match endpoint_check(
                s,
                PROXY_DEFAULT_TLS_PORT,
                "a tunnel port must not be zero"@,
            ) {
                Err(f) => Err(f),
                Ok(()) => Ok((s, PROXY_DEFAULT_TLS_PORT)),
            },
        }
    }
}

impl ProxyTarget {
    /// Validates and builds a tunnel target.
    pub fn new(host: &str, port: u16) -> (r: Result<Self, ProxyError>)
        ensures
            match endpoint_check(host@, port, "a tunnel port must not be zero"@) {
                Err(f) => failure(r) == Err::<Self, ProxyFailure>(f),
                Ok(()) => (r matches Ok(t) && t.host@ == host@ && t.port == port),
            },
    {
        if let Err(e) = validate_host(host) {
            return Err(e);
        }
        if port == 0 {
            return Err(ProxyError::InvalidConfig("a tunnel port must not be zero".to_owned()));
        }
        Ok(ProxyTarget { host: host.to_owned(), port })
    }

    /// Derives the tunnel target from an account server field. Proxy mode
    /// skips SRV and local resolution: an explicit `host:port` (or
    /// `[v6]:port`) wins; otherwise the bare hostname is used verbatim with
    /// [`PROXY_DEFAULT_TLS_PORT`].
    pub fn from_server(server: &str) -> (r: Result<Self, ProxyError>)
        ensures
            match target_from_server(server@) {
                Err(f) => failure(r) == Err::<Self, ProxyFailure>(f),
                Ok((host, port)) => (r matches Ok(t) && t.host@ == host && t.port == port),
            },
    {
        let s = trimmed(server);
        if s.as_str().unicode_len() == 0 {
            return Err(ProxyError::InvalidConfig("the XMPP server is empty".to_owned()));
        }
        match split_host_and_port(s.as_str()) {
            Err(e) => Err(e),
            Ok(Some((host, port))) => ProxyTarget::new(host.as_str(), port),
            Ok(None) => ProxyTarget::new(s.as_str(), PROXY_DEFAULT_TLS_PORT),
        }
    }
}


/// The SOCKS5 greeting for `methods`: version, method count, methods (at most 255).
pub open spec fn greeting_bytes(methods: Seq<u8>) -> Seq<u8> {
    let count = if methods.len() > 255 {
        255
    } else {
        methods.len()
    };
    seq![SOCKS5_VERSION, count as u8] + methods.take(count as int)
}

/// Builds the SOCKS5 greeting (RFC 1928 section 3).
pub fn socks5_greeting(methods: &[u8]) -> (r: Vec<u8>)
    ensures
        r@ == greeting_bytes(methods@),
{
    let count: usize = if methods.len() > 255 {
        255
    } else {
        methods.len()
    };
    let mut greeting: Vec<u8> = Vec::new();
    greeting.push(SOCKS5_VERSION);
    greeting.push(count as u8);
    let mut i: usize = 0;
    while i < count
        invariant
            count <= methods.len(),
            count <= 255,
            i <= count,
            greeting@ == seq![SOCKS5_VERSION, count as u8] + methods@.take(i as int),
        decreases count - i,
    {
        greeting.push(methods[i]);
        proof {
            assert(methods@.take(i + 1) =~= methods@.take(i as int).push(methods@[i as int]));
        }
        i = i + 1;
    }
    greeting
}

/// The detail reported for a reply carrying the wrong protocol version.
pub open spec fn version_detail(got: u8) -> Seq<char> {
    "the SOCKS5 proxy replied with version "@ + decimal(got as nat) + ", expected 5"@
}

/// The message for a reply carrying the wrong protocol version.
fn version_mismatch(got: u8) -> (r: ProxyError)
    ensures
        r@ == ProxyFailure::SocksProtocol(version_detail(got)),
{
    ProxyError::SocksProtocol(
        "the SOCKS5 proxy replied with version ".to_owned().concat(
            decimal_text(got as u64).as_str(),
        ).concat(", expected 5"),
    )
}

/// What the SOCKS5 method reply `[version, method]` answers.
pub open spec fn method_reply_check(b: Seq<u8>) -> Result<u8, ProxyFailure> {
    if b.len() != 2 {
        Err(ProxyFailure::SocksProtocol("the SOCKS5 method reply must be exactly 2 bytes"@))
    } else if b[0] != SOCKS5_VERSION {
        Err(ProxyFailure::SocksProtocol(version_detail(b[0])))
    } else if b[1] == 0xFF {
        Err(ProxyFailure::SocksMethodRejected)
    } else {
        Ok(b[1])
    }
}

/// Parses the SOCKS5 method reply: the selected method, or
/// `SocksMethodRejected` when the proxy selected `0xFF`.
pub fn parse_socks5_method_reply(bytes: &[u8]) -> (r: Result<u8, ProxyError>)
    ensures
        failure(r) == method_reply_check(bytes@),
{
    if bytes.len() != 2 {
        return Err(
            ProxyError::SocksProtocol("the SOCKS5 method reply must be exactly 2 bytes".to_owned()),
        );
    }
    if bytes[0] != SOCKS5_VERSION {
        return Err(version_mismatch(bytes[0]));
    }
    if bytes[1] == 0xFF {
        Err(ProxyError::SocksMethodRejected)
    } else {
        Ok(bytes[1])
    }
}

/// A length-prefixed RFC 1929 field: at most 255 bytes, preceded by its length.
pub open spec fn auth_field(bytes: Seq<u8>) -> Seq<u8> {
    let n = if bytes.len() > 255 {
        255
    } else {
        bytes.len()
    };
    seq![n as u8] + bytes.take(n as int)
}

/// The RFC 1929 username/password request.
pub open spec fn auth_request_bytes(username: Seq<char>, password: Seq<char>) -> Seq<u8> {
    seq![SOCKS5_AUTH_VERSION] + auth_field(encode_utf8(username)) + auth_field(
        encode_utf8(password),
    )
}

/// Appends a length-prefixed field of at most 255 bytes.
fn push_auth_field(out: &mut Vec<u8>, bytes: &[u8])
    ensures
        final(out)@ == old(out)@ + auth_field(bytes@),
{
    let n: usize = if bytes.len() > 255 {
        255
    } else {
        bytes.len()
    };
    out.push(n as u8);
    let ghost start = out@;
    let mut i: usize = 0;
    while i < n
        invariant
            n <= bytes.len(),
            n <= 255,
            i <= n,
            out@ == start + bytes@.take(i as int),
        decreases n - i,
    {
        out.push(bytes[i]);
        proof {
            assert(bytes@.take(i + 1) =~= bytes@.take(i as int).push(bytes@[i as int]));
        }
        i = i + 1;
    }
    proof {
        assert(start + bytes@.take(n as int) =~= old(out)@ + auth_field(bytes@));
    }
}

/// Builds the RFC 1929 username/password sub-negotiation request.
pub fn socks5_auth_request(username: &str, password: &str) -> (r: Vec<u8>)
    ensures
        r@ == auth_request_bytes(username@, password@),
{
    let mut request: Vec<u8> = Vec::new();
    request.push(SOCKS5_AUTH_VERSION);
    push_auth_field(&mut request, username.as_bytes());
    push_auth_field(&mut request, password.as_bytes());
    proof {
        assert(request@ =~= auth_request_bytes(username@, password@));
    }
    request
}

/// What the RFC 1929 authentication reply `[version, status]` answers.
pub open spec fn auth_reply_check(b: Seq<u8>) -> Result<(), ProxyFailure> {
    if b.len() != 2 {
        Err(
            ProxyFailure::SocksProtocol(
                "the SOCKS5 authentication reply must be exactly 2 bytes"@,
            ),
        )
    } else if b[0] != SOCKS5_AUTH_VERSION {
        Err(
            ProxyFailure::SocksProtocol(
                "the SOCKS5 proxy replied with authentication version "@ + decimal(b[0] as nat)
                    + ", expected 1"@,
            ),
        )
    } else if b[1] == 0 {
        Ok(())
    } else {
        Err(ProxyFailure::SocksAuthRejected)
    }
}

/// Parses the RFC 1929 authentication reply.
pub fn parse_socks5_auth_reply(bytes: &[u8]) -> (r: Result<(), ProxyError>)
    ensures
        failure(r) == auth_reply_check(bytes@),
{
    if bytes.len() != 2 {
        return Err(
            ProxyError::SocksProtocol(
                "the SOCKS5 authentication reply must be exactly 2 bytes".to_owned(),
            ),
        );
    }
    if bytes[0] != SOCKS5_AUTH_VERSION {
        return Err(
            ProxyError::SocksProtocol(
                "the SOCKS5 proxy replied with authentication version ".to_owned().concat(
                    decimal_text(bytes[0] as u64).as_str(),
                ).concat(", expected 1"),
            ),
        );
    }
    if bytes[1] == 0 {
        Ok(())
    } else {
        Err(ProxyError::SocksAuthRejected)
    }
}

/// What a SOCKS5 CONNECT reply answers: its framing is checked before its reply code.
pub open spec fn connect_reply_check(b: Seq<u8>) -> Result<(), ProxyFailure> {
    if b.len() < 4 {
        Err(
            ProxyFailure::SocksProtocol(
                "the SOCKS5 connect reply is shorter than its 4-byte header"@,
            ),
        )
    } else if b[0] != SOCKS5_VERSION {
        Err(ProxyFailure::SocksProtocol(version_detail(b[0])))
    } else if b[2] != 0 {
        Err(
            ProxyFailure::SocksProtocol(
                "the reserved byte of the SOCKS5 connect reply must be zero"@,
            ),
        )
    } else if b[3] != SOCKS5_ATYP_IPV4 && b[3] != SOCKS5_ATYP_IPV6 && b[3] != SOCKS5_ATYP_DOMAIN {
        Err(
            ProxyFailure::SocksProtocol(
                "unsupported address type "@ + decimal(b[3] as nat)
                    + " in the SOCKS5 connect reply"@,
            ),
        )
    } else if b[3] == SOCKS5_ATYP_DOMAIN && b.len() < 5 {
        Err(
            ProxyFailure::SocksProtocol(
                "the SOCKS5 connect reply is missing its domain length byte"@,
            ),
        )
    } else {
        let address_len: nat = if b[3] == SOCKS5_ATYP_IPV4 {
            4
        } else if b[3] == SOCKS5_ATYP_IPV6 {
            16
        } else {
            (b[4] + 1) as nat
        };
        let expected = 4 + address_len + 2;
        if b.len() != expected {
            Err(
                ProxyFailure::SocksProtocol(
                    "the SOCKS5 connect reply is "@ + decimal(b.len()) + " bytes, expected "@
                        + decimal(expected),
                ),
            )
        } else if b[1] == SOCKS5_REP_SUCCEEDED {
            Ok(())
        } else {
            Err(ProxyFailure::SocksConnectFailed(b[1]))
        }
    }
}

/// Parses a SOCKS5 CONNECT reply (RFC 1928 section 6), validating its framing.
pub fn parse_socks5_connect_reply(bytes: &[u8]) -> (r: Result<(), ProxyError>)
    ensures
        failure(r) == connect_reply_check(bytes@),
{
    if bytes.len() < 4 {
        return Err(
            ProxyError::SocksProtocol(
                "the SOCKS5 connect reply is shorter than its 4-byte header".to_owned(),
            ),
        );
    }
    if bytes[0] != SOCKS5_VERSION {
        return Err(version_mismatch(bytes[0]));
    }
    if bytes[2] != 0x00 {
        return Err(
            ProxyError::SocksProtocol(
                "the reserved byte of the SOCKS5 connect reply must be zero".to_owned(),
            ),
        );
    }
    let atyp = bytes[3];
    let address_len: usize = if atyp == SOCKS5_ATYP_IPV4 {
        4
    } else if atyp == SOCKS5_ATYP_IPV6 {
        16
    } else if atyp == SOCKS5_ATYP_DOMAIN {
        if bytes.len() < 5 {
            return Err(
                ProxyError::SocksProtocol(
                    "the SOCKS5 connect reply is missing its domain length byte".to_owned(),
                ),
            );
        }
        bytes[4] as usize + 1
    } else {
        return Err(
            ProxyError::SocksProtocol(
                "unsupported address type ".to_owned().concat(
                    decimal_text(atyp as u64).as_str(),
                ).concat(" in the SOCKS5 connect reply"),
            ),
        );
    };
    let expected: usize = 4 + address_len + 2;
    if bytes.len() != expected {
        return Err(
            ProxyError::SocksProtocol(
                "the SOCKS5 connect reply is ".to_owned().concat(
                    decimal_text(bytes.len() as u64).as_str(),
                ).concat(" bytes, expected ").concat(decimal_text(expected as u64).as_str()),
            ),
        );
    }
    if bytes[1] == SOCKS5_REP_SUCCEEDED {
        Ok(())
    } else {
        Err(ProxyError::SocksConnectFailed(bytes[1]))
    }
}

/// Outcome of a proxy probe, safe to cross the binding boundary.
#[derive(Debug, PartialEq, Eq)]
pub struct ProxyProbe {
    /// Whether the tunnel handshake completed successfully.
    pub ok: bool,
    /// Wall-clock time of the probe in milliseconds.
    pub latency_ms: u64,
    /// UI-safe failure detail when `ok` is false.
    pub error: Option<String>,
}

impl Clone for ProxyProbe {
    fn clone(&self) -> (r: Self)
        ensures
            r == *self,
    {
        ProxyProbe {
            ok: self.ok,
            latency_ms: self.latency_ms,
            error: crate::model::copy_opt_string(&self.error),
        }
    }
}

/// Maps a probe result and its latency in milliseconds (saturating at
/// `u64::MAX`) into a [`ProxyProbe`].
pub fn probe_from_millis(result: Result<(), ProxyError>, latency_ms: u128) -> (r: ProxyProbe)
    ensures
        r.ok == result is Ok,
        r.latency_ms == (if latency_ms > u64::MAX {
            u64::MAX
        } else {
            latency_ms as u64
        }),
        match result {
            Ok(()) => r.error is None,
            Err(e) => (r.error matches Some(d) && d@ == proxy_error_text(e)),
        },
{
    let latency_ms: u64 = if latency_ms > u64::MAX as u128 {
        u64::MAX
    } else {
        latency_ms as u64
    };
    match result {
        Ok(()) => ProxyProbe { ok: true, latency_ms, error: None },
        Err(error) => ProxyProbe { ok: false, latency_ms, error: Some(error.message()) },
    }
}

/// Maps a probe result and its measured latency into a [`ProxyProbe`].
pub fn probe_from_result(result: Result<(), ProxyError>, latency: std::time::Duration) -> (r:
    ProxyProbe)
    ensures
        r.ok == result is Ok,
        match result {
            Ok(()) => r.error is None,
            Err(e) => (r.error matches Some(d) && d@ == proxy_error_text(e)),
        },
{
    probe_from_millis(result, crate::clock::duration_millis(&latency))
}

/// At most four bytes encode each character.
pub proof fn lemma_utf8_len(s: Seq<char>)
    ensures
        encode_utf8(s).len() <= 4 * s.len(),
    decreases s.len(),
{
    if s.len() > 0 {
        lemma_utf8_len(s.drop_first());
    }
}

/// How a host travels in a SOCKS5 request: an IPv4 or IPv6 literal in
/// binary, anything else as a length-prefixed domain name (1 to 255 bytes)
/// that the proxy resolves.
pub open spec fn address_bytes(host: Seq<char>) -> Option<Seq<u8>> {
    match ipv4_octets(host) {
        Some(o) => Some(seq![SOCKS5_ATYP_IPV4] + o),
        None => match ipv6_octets(host) {
            Some(o) => Some(seq![SOCKS5_ATYP_IPV6] + o),
            None => {
                let b = encode_utf8(host);
                if 1 <= b.len() <= 255 {
                    Some(seq![SOCKS5_ATYP_DOMAIN, b.len() as u8] + b)
                } else {
                    None
                }
            },
        },
    }
}

/// Appends the SOCKS5 address of `host`: binary for an IP literal, else the
/// hostname verbatim (never resolved locally).
fn encode_address(host: &str, out: &mut Vec<u8>) -> (r: Result<(), ProxyError>)
    ensures
        match address_bytes(host@) {
            Some(b) => r is Ok && final(out)@ == old(out)@ + b,
            None => failure(r) == Err::<(), ProxyFailure>(
                ProxyFailure::InvalidConfig("a tunnel hostname must be between 1 and 255 bytes"@),
            ) && final(out)@ == old(out)@,
        },
{
    let v = chars_of(host);
    if let Some(octets) = parse_ipv4(&v) {
        out.push(SOCKS5_ATYP_IPV4);
        append_bytes(out, octets.as_slice());
        return Ok(());
    }
    if let Some(octets) = parse_ipv6(&v) {
        out.push(SOCKS5_ATYP_IPV6);
        append_bytes(out, octets.as_slice());
        return Ok(());
    }
    let bytes = host.as_bytes();
    if bytes.len() == 0 || bytes.len() > 255 {
        return Err(
            ProxyError::InvalidConfig(
                "a tunnel hostname must be between 1 and 255 bytes".to_owned(),
            ),
        );
    }
    out.push(SOCKS5_ATYP_DOMAIN);
    out.push(bytes.len() as u8);
    append_bytes(out, bytes);
    Ok(())
}

/// Appends `bytes` to `out`.
fn append_bytes(out: &mut Vec<u8>, bytes: &[u8])
    ensures
        final(out)@ == old(out)@ + bytes@,
{
    let ghost start = out@;
    let mut i: usize = 0;
    while i < bytes.len()
        invariant
            i <= bytes.len(),
            out@ == start + bytes@.take(i as int),
        decreases bytes.len() - i,
    {
        out.push(bytes[i]);
        proof {
            assert(bytes@.take(i + 1) =~= bytes@.take(i as int).push(bytes@[i as int]));
        }
        i = i + 1;
    }
    proof {
        assert(bytes@.take(i as int) =~= bytes@);
    }
}

/// The SOCKS5 CONNECT request for `(host, port)`.
pub open spec fn connect_request_bytes(host: Seq<char>, port: u16) -> Option<Seq<u8>> {
    match address_bytes(host) {
        Some(a) => Some(
            seq![SOCKS5_VERSION, SOCKS5_CMD_CONNECT, 0u8] + a + seq![
                (port / 256) as u8,
                (port % 256) as u8,
            ],
        ),
        None => None,
    }
}

/// Builds a SOCKS5 CONNECT request (RFC 1928 section 4) for a tunnel target.
pub fn socks5_connect_request(target: &ProxyTarget) -> (r: Result<Vec<u8>, ProxyError>)
    ensures
        match connect_request_bytes(target.host@, target.port) {
            Some(b) => (r matches Ok(v) && v@ == b),
            None => failure(r) == Err::<Vec<u8>, ProxyFailure>(
                ProxyFailure::InvalidConfig("a tunnel hostname must be between 1 and 255 bytes"@),
            ),
        },
{
    let mut request: Vec<u8> = Vec::new();
    request.push(SOCKS5_VERSION);
    request.push(SOCKS5_CMD_CONNECT);
    request.push(0x00);
    if let Err(e) = encode_address(target.host.as_str(), &mut request) {
        return Err(e);
    }
    request.push((target.port / 256) as u8);
    request.push((target.port % 256) as u8);
    proof {
        assert(request@ =~= connect_request_bytes(target.host@, target.port)->Some_0);
    }
    Ok(request)
}

/// The character of a six-bit value in the standard base64 alphabet
/// (RFC 4648): `A`-`Z`, `a`-`z`, `0`-`9`, `+`, `/`.
pub open spec fn base64_char(v: int) -> char {
    if v < 26 {
        (65 + v) as char
    } else if v < 52 {
        (97 + v - 26) as char
    } else if v < 62 {
        (48 + v - 52) as char
    } else if v == 62 {
        '+'
    } else {
        '/'
    }
}

/// Standard base64 (RFC 4648 alphabet, with `=` padding) of `bytes`: each
/// group of three bytes becomes four characters of six bits each; a final
/// group of one or two bytes is padded to four characters.
pub open spec fn base64_standard(bytes: Seq<u8>) -> Seq<char>
    decreases bytes.len(),
{
    if bytes.len() == 0 {
        Seq::empty()
    } else if bytes.len() == 1 {
        seq![base64_char((bytes[0] as int) / 4), base64_char(((bytes[0] as int) % 4) * 16), '=', '=']
    } else if bytes.len() == 2 {
        seq![
            base64_char((bytes[0] as int) / 4),
            base64_char(((bytes[0] as int) % 4) * 16 + (bytes[1] as int) / 16),
            base64_char(((bytes[1] as int) % 16) * 4),
            '=',
        ]
    } else {
        seq![
            base64_char((bytes[0] as int) / 4),
            base64_char(((bytes[0] as int) % 4) * 16 + (bytes[1] as int) / 16),
            base64_char(((bytes[1] as int) % 16) * 4 + (bytes[2] as int) / 64),
            base64_char((bytes[2] as int) % 64),
        ] + base64_standard(bytes.skip(3))
    }
}

/// `base64::engine::general_purpose::STANDARD.encode`: the standard base64
/// text of `bytes`, with padding. The call panics only when the output
/// length overflows `usize`, which `requires` leaves out.
#[verifier::external_body]
fn base64_encode(bytes: &[u8]) -> (r: String)
    requires
        bytes@.len() / 3 * 4 + 4 <= usize::MAX,
    ensures
        r@ == base64_standard(bytes@),
{
    base64::engine::general_purpose::STANDARD.encode(bytes)
}

/// The HTTP CONNECT request for `(host, port)` with an optional Basic token.
pub open spec fn connect_request_text(host: Seq<char>, port: u16, token: Option<Seq<char>>) -> Seq<
    char,
> {
    let authority = host + ":"@ + decimal(port as nat);
    "CONNECT "@ + authority + " HTTP/1.1\r\nHost: "@ + authority + "\r\n"@ + match token {
        Some(t) => "Proxy-Authorization: Basic "@ + t + "\r\n"@,
        None => ""@,
    } + "\r\n"@
}

/// The Basic credentials token for `username:password` (RFC 7617).
pub open spec fn basic_token(username: Seq<char>, password: Seq<char>) -> Seq<char> {
    base64_standard(encode_utf8(username + ":"@ + password))
}

/// Builds an HTTP CONNECT request (RFC 7231 section 4.3.6) carrying an
/// already encoded Basic token, if any.
pub fn http_connect_request_with_token(target: &ProxyTarget, token: Option<&str>) -> (r: String)
    ensures
        r@ == connect_request_text(
            target.host@,
            target.port,
            match token {
                Some(t) => Some(t@),
                None => None,
            },
        ),
{
    let authority = target.host.clone().concat(":").concat(
        decimal_text(target.port as u64).as_str(),
    );
    let mut request = "CONNECT ".to_owned().concat(authority.as_str()).concat(
        " HTTP/1.1\r\nHost: ",
    ).concat(authority.as_str()).concat("\r\n");
    let ghost head = request@;
    if let Some(t) = token {
        request = request.concat("Proxy-Authorization: Basic ").concat(t).concat("\r\n");
        proof {
            assert(request@ =~= head + ("Proxy-Authorization: Basic "@ + t@ + "\r\n"@));
        }
    } else {
        proof {
            reveal_strlit("");
            assert(request@ =~= head + ""@);
        }
    }
    request.concat("\r\n")
}

/// Builds an HTTP CONNECT request for a tunnel target; the XMPP hostname
/// appears only in the request line and `Host` header. With credentials, a
/// `Proxy-Authorization: Basic` header is added.
pub fn http_connect_request(target: &ProxyTarget, credentials: Option<(&str, &str)>) -> (r: String)
    requires
        match credentials {
            Some((u, p)) => u@.len() + p@.len() + 1 <= usize::MAX / 8,
            None => true,
        },
    ensures
        r@ == connect_request_text(
            target.host@,
            target.port,
            match credentials {
                Some((u, p)) => Some(basic_token(u@, p@)),
                None => None,
            },
        ),
{
    match credentials {
        Some((username, password)) => {
            let joined = username.to_owned().concat(":").concat(password);
            proof {
                reveal_strlit(":");
                lemma_utf8_len(joined@);
                assert(joined@.len() == username@.len() + 1 + password@.len());
                assert(joined@.len() * 4 / 3 * 4 + 4 <= usize::MAX) by (nonlinear_arith)
                    requires
                        joined@.len() <= usize::MAX / 8,
                ;
            }
            let bytes = joined.as_str().as_bytes();
            proof {
                assert(bytes@.len() / 3 * 4 + 4 <= usize::MAX) by (nonlinear_arith)
                    requires
                        bytes@.len() <= joined@.len() * 4,
                        joined@.len() * 4 / 3 * 4 + 4 <= usize::MAX,
                ;
            }
            let token = base64_encode(bytes);
            http_connect_request_with_token(target, Some(token.as_str()))
        },
        None => http_connect_request_with_token(target, None),
    }
}

/// Position of the first `\r\n` in `s`, or `s.len()` when there is none.
pub open spec fn first_crlf(s: Seq<char>) -> int
    decreases s.len(),
{
    if s.len() < 2 {
        s.len() as int
    } else if s[0] == '\r' && s[1] == '\n' {
        0
    } else {
        1 + first_crlf(s.drop_first())
    }
}

/// The whitespace-separated words of `s` (what `str::split_whitespace` yields).
pub open spec fn words_of(s: Seq<char>) -> Seq<Seq<char>>
    decreases s.len(),
{
    if s.len() == 0 {
        Seq::empty()
    } else {
        let w = words_of(s.drop_last());
        let c = s.last();
        if is_ws(c) {
            w
        } else if s.len() >= 2 && !is_ws(s[s.len() - 2]) {
            w.update(w.len() - 1, w.last().push(c))
        } else {
            w.push(seq![c])
        }
    }
}

/// The words joined by single spaces.
pub open spec fn join_words(ws: Seq<Seq<char>>) -> Seq<char>
    decreases ws.len(),
{
    if ws.len() == 0 {
        Seq::empty()
    } else if ws.len() == 1 {
        ws[0]
    } else {
        join_words(ws.drop_last()) + " "@ + ws.last()
    }
}

/// The quoted, escaped rendering of a string that `{:?}` writes.
pub uninterp spec fn debug_str(s: Seq<char>) -> Seq<char>;

/// `format!("{s:?}")`: the standard `Debug` rendering of a string slice
/// (quoted and escaped). The text is named, not stated.
#[verifier::external_body]
fn debug_quoted(s: &str) -> (r: String)
    ensures
        r@ == debug_str(s@),
{
    format!("{s:?}")
}

/// What an HTTP CONNECT response text answers: a status line starting with
/// `HTTP/` and a status code; only `200` opens the tunnel.
pub open spec fn http_response_check(text: Seq<char>) -> Result<(), ProxyFailure> {
    let line = text.take(first_crlf(text));
    let w = words_of(line);
    let version = if w.len() > 0 {
        w[0]
    } else {
        Seq::<char>::empty()
    };
    if !(version.len() >= 5 && version.take(5) == "HTTP/"@) {
        Err(
            ProxyFailure::HttpMalformed(
                "the proxy response status line does not start with HTTP/: "@ + debug_str(line),
            ),
        )
    } else if w.len() < 2 || parse_unsigned(w[1], 65535) is None {
        Err(
            ProxyFailure::HttpMalformed(
                "the proxy response has no parseable status code: "@ + debug_str(line),
            ),
        )
    } else if parse_unsigned(w[1], 65535)->Some_0 == 200 {
        Ok(())
    } else {
        Err(
            ProxyFailure::HttpStatus {
                status: parse_unsigned(w[1], 65535)->Some_0 as u16,
                reason: join_words(w.skip(2)),
            },
        )
    }
}

/// A text ending in a non-space character has a word.
proof fn lemma_words_nonempty(s: Seq<char>)
    requires
        s.len() > 0,
        !is_ws(s.last()),
    ensures
        words_of(s).len() > 0,
    decreases s.len(),
{
    if s.len() >= 2 && !is_ws(s[s.len() - 2]) {
        assert(s.drop_last().last() == s[s.len() - 2]);
        lemma_words_nonempty(s.drop_last());
    }
}

/// Splits a text into its whitespace-separated words.
fn split_words(v: &Vec<char>) -> (r: Vec<Vec<char>>)
    ensures
        r@.len() == words_of(v@).len(),
        forall|i: int| 0 <= i < r@.len() ==> #[trigger] r@[i]@ == words_of(v@)[i],
{
    let mut words: Vec<Vec<char>> = Vec::new();
    let mut i: usize = 0;
    while i < v.len()
        invariant
            i <= v.len(),
            words@.len() == words_of(v@.take(i as int)).len(),
            forall|k: int| 0 <= k < words@.len() ==> #[trigger] words@[k]@ == words_of(
                v@.take(i as int),
            )[k],
        decreases v.len() - i,
    {
        let c = v[i];
        let ghost pre = v@.take(i as int);
        let ghost cur = v@.take(i + 1);
        proof {
            assert(cur.drop_last() =~= pre);
            assert(cur.last() == c);
        }
        if char_is_whitespace(c) {
        } else if i >= 1 && !char_is_whitespace(v[i - 1]) {
            proof {
                assert(cur[cur.len() - 2] == v@[i - 1]);
                assert(pre.last() == v@[i - 1]);
                lemma_words_nonempty(pre);
            }
            let mut last = words.pop().unwrap();
            last.push(c);
            words.push(last);
            proof {
                let w = words_of(pre);
                assert forall|k: int| 0 <= k < words@.len() implies #[trigger] words@[k]@
                    == words_of(cur)[k] by {
                    if k < words@.len() - 1 {
                        assert(words@[k]@ == w[k]);
                    }
                }
            }
        } else {
            let mut word: Vec<char> = Vec::new();
            word.push(c);
            words.push(word);
            proof {
                assert(word@ =~= seq![c]);
            }
        }
        i = i + 1;
    }
    proof {
        assert(v@.take(i as int) =~= v@);
    }
    words
}

/// Joins words with single spaces.
fn join_with_spaces(ws: &Vec<Vec<char>>, from: usize) -> (r: String)
    requires
        from <= ws.len(),
    ensures
        r@ == join_words(ws@.skip(from as int).map_values(|w: Vec<char>| w@)),
{
    let ghost views = ws@.skip(from as int).map_values(|w: Vec<char>| w@);
    let mut out = String::new();
    let mut i: usize = from;
    proof {
        reveal_strlit("");
        reveal_strlit(" ");
        assert(views.take(0) =~= Seq::<Seq<char>>::empty());
    }
    while i < ws.len()
        invariant
            from <= i <= ws.len(),
            views == ws@.skip(from as int).map_values(|w: Vec<char>| w@),
            out@ == join_words(views.take(i - from)),
        decreases ws.len() - i,
    {
        let word = string_of(&ws[i]);
        proof {
            assert(views.take(i - from + 1).drop_last() =~= views.take(i - from));
            assert(views[i - from] == ws@[i as int]@);
            reveal_strlit(" ");
        }
        if i > from {
            out = out.concat(" ").concat(word.as_str());
        } else {
            out = out.concat(word.as_str());
            proof {
                assert(out@ =~= views.take(1)[0]);
            }
        }
        i = i + 1;
    }
    proof {
        assert(views.take(i - from) =~= views);
    }
    out
}

/// The string made of `v`'s characters.
fn string_of(v: &Vec<char>) -> (r: String)
    ensures
        r@ == v@,
{
    let mut out = String::new();
    let mut i: usize = 0;
    proof {
        reveal_strlit("");
    }
    while i < v.len()
        invariant
            i <= v.len(),
            out@ == v@.take(i as int),
        decreases v.len() - i,
    {
        out.push(v[i]);
        proof {
            assert(v@.take(i + 1) =~= v@.take(i as int).push(v@[i as int]));
        }
        i = i + 1;
    }
    proof {
        assert(v@.take(i as int) =~= v@);
    }
    out
}

/// Finds the first `\r\n`.
fn find_crlf(v: &Vec<char>) -> (r: usize)
    ensures
        r == first_crlf(v@),
        r <= v@.len(),
{
    let mut i: usize = 0;
    proof {
        assert(v@.skip(0) =~= v@);
    }
    while v.len() >= 2 && i < v.len() - 1
        invariant
            i <= v.len(),
            first_crlf(v@) == i + first_crlf(v@.skip(i as int)),
        decreases v.len() - i,
    {
        if v[i] == '\r' && v[i + 1] == '\n' {
            proof {
                assert(v@.skip(i as int)[0] == v@[i as int]);
                assert(v@.skip(i as int)[1] == v@[i + 1]);
            }
            return i;
        }
        proof {
            assert(v@.skip(i as int).drop_first() =~= v@.skip(i + 1));
        }
        i = i + 1;
    }
    proof {
        assert(v@.skip(i as int).len() < 2);
    }
    v.len()
}

/// Parses the text of an HTTP CONNECT response. Any status other than `200` is refused.
pub fn parse_http_connect_text(text: &str) -> (r: Result<(), ProxyError>)
    ensures
        failure(r) == http_response_check(text@),
{
    let v = chars_of(text);
    let end = find_crlf(&v);
    let line = text.substring_char(0, end);
    proof {
        assert(line@ =~= text@.take(end as int));
    }
    let lv = chars_of(line);
    let words = split_words(&lv);
    let ghost w = words_of(line@);
    let version_ok = words.len() > 0 && words[0].len() >= 5 && words[0][0] == 'H' && words[0][1]
        == 'T' && words[0][2] == 'T' && words[0][3] == 'P' && words[0][4] == '/';
    proof {
        reveal_strlit("HTTP/");
        if words@.len() > 0 {
            let v0 = w[0];
            assert(words@[0]@ == v0);
            if v0.len() >= 5 {
                if version_ok {
                    assert(v0.take(5) =~= "HTTP/"@);
                } else {
                    assert(v0.take(5) != "HTTP/"@) by {
                        if v0.take(5) == "HTTP/"@ {
                            assert(v0[0] == v0.take(5)[0]);
                            assert(v0[1] == v0.take(5)[1]);
                            assert(v0[2] == v0.take(5)[2]);
                            assert(v0[3] == v0.take(5)[3]);
                            assert(v0[4] == v0.take(5)[4]);
                        }
                    }
                }
            }
        }
    }
    if !version_ok {
        return Err(
            ProxyError::HttpMalformed(
                "the proxy response status line does not start with HTTP/: ".to_owned().concat(
                    debug_quoted(line).as_str(),
                ),
            ),
        );
    }
    let status = if words.len() < 2 {
        None
    } else {
        let code_text = string_of(&words[1]);
        parse_decimal(code_text.as_str(), 65535)
    };
    let status = match status {
        Some(code) => code as u16,
        None => {
            return Err(
                ProxyError::HttpMalformed(
                    "the proxy response has no parseable status code: ".to_owned().concat(
                        debug_quoted(line).as_str(),
                    ),
                ),
            );
        },
    };
    if status == 200 {
        return Ok(());
    }
    let reason = join_with_spaces(&words, 2);
    proof {
        assert(words@.skip(2).map_values(|x: Vec<char>| x@) =~= w.skip(2));
    }
    Err(ProxyError::HttpStatus { status, reason })
}

/// Whether `bytes` decode as UTF-8, and to what (`std::str::from_utf8`).
#[verifier::external_body]
fn utf8_decode(bytes: &[u8]) -> (r: Option<String>)
    ensures
        match r {
            Some(text) => valid_utf8(bytes@) && text@ == decode_utf8(bytes@),
            None => !valid_utf8(bytes@),
        },
{
    match std::str::from_utf8(bytes) {
        Ok(text) => Some(text.to_owned()),
        Err(_) => None,
    }
}

/// Parses an HTTP CONNECT response. Any status other than `200` is refused.
pub fn parse_http_connect_response(bytes: &[u8]) -> (r: Result<(), ProxyError>)
    ensures
        !valid_utf8(bytes@) ==> failure(r) == Err::<(), ProxyFailure>(
            ProxyFailure::HttpMalformed("the proxy response is not valid UTF-8"@),
        ),
        valid_utf8(bytes@) ==> failure(r) == http_response_check(decode_utf8(bytes@)),
{
    match utf8_decode(bytes) {
        Some(text) => parse_http_connect_text(text.as_str()),
        None => Err(
            ProxyError::HttpMalformed("the proxy response is not valid UTF-8".to_owned()),
        ),
    }
}
/// The SOCKS5 authentication methods offered: no authentication, and
/// username/password as well when a proxy secret is supplied.
pub fn socks5_offered_methods(has_password: bool) -> (r: Vec<u8>)
    ensures
        r@ == (if has_password {
            seq![SOCKS5_METHOD_NO_AUTH, SOCKS5_METHOD_USER_PASS]
        } else {
            seq![SOCKS5_METHOD_NO_AUTH]
        }),
{
    let mut methods: Vec<u8> = Vec::new();
    methods.push(SOCKS5_METHOD_NO_AUTH);
    if has_password {
        methods.push(SOCKS5_METHOD_USER_PASS);
    }
    proof {
        assert(methods@ =~= (if has_password {
            seq![SOCKS5_METHOD_NO_AUTH, SOCKS5_METHOD_USER_PASS]
        } else {
            seq![SOCKS5_METHOD_NO_AUTH]
        }));
    }
    methods
}

/// What the proxy's method selection asks of the client: `Ok(false)` to go
/// on without authentication, `Ok(true)` to authenticate with the secret.
/// Username/password without a secret, and any other method, are refused.
pub fn socks5_method_step(method: u8, has_password: bool) -> (r: Result<bool, ProxyError>)
    ensures
        method == SOCKS5_METHOD_NO_AUTH ==> r == Ok::<bool, ProxyError>(false),
        method == SOCKS5_METHOD_USER_PASS && has_password ==> r == Ok::<bool, ProxyError>(true),
        method == SOCKS5_METHOD_USER_PASS && !has_password ==> failure(r) == Err::<
            bool,
            ProxyFailure,
        >(ProxyFailure::SocksProtocol("the proxy requires credentials but none were supplied"@)),
        method != SOCKS5_METHOD_NO_AUTH && method != SOCKS5_METHOD_USER_PASS ==> failure(r)
            == Err::<bool, ProxyFailure>(
            ProxyFailure::SocksProtocol(
                "the proxy selected unsupported authentication method "@ + decimal(method as nat),
            ),
        ),
{
    if method == SOCKS5_METHOD_NO_AUTH {
        Ok(false)
    } else if method == SOCKS5_METHOD_USER_PASS {
        if has_password {
            Ok(true)
        } else {
            Err(
                ProxyError::SocksProtocol(
                    "the proxy requires credentials but none were supplied".to_owned(),
                ),
            )
        }
    } else {
        Err(
            ProxyError::SocksProtocol(
                "the proxy selected unsupported authentication method ".to_owned().concat(
                    decimal_text(method as u64).as_str(),
                ),
            ),
        )
    }
}

/// How many address bytes follow the header of a SOCKS5 CONNECT reply with
/// address type `atyp`: four or sixteen, `None` when a length byte comes
/// first (a domain), or a refusal of an unknown type.
pub fn socks5_reply_address_len(atyp: u8) -> (r: Result<Option<usize>, ProxyError>)
    ensures
        atyp == SOCKS5_ATYP_IPV4 ==> r == Ok::<Option<usize>, ProxyError>(Some(4)),
        atyp == SOCKS5_ATYP_IPV6 ==> r == Ok::<Option<usize>, ProxyError>(Some(16)),
        atyp == SOCKS5_ATYP_DOMAIN ==> r == Ok::<Option<usize>, ProxyError>(None),
        atyp != SOCKS5_ATYP_IPV4 && atyp != SOCKS5_ATYP_IPV6 && atyp != SOCKS5_ATYP_DOMAIN
            ==> failure(r) == Err::<Option<usize>, ProxyFailure>(
            ProxyFailure::SocksProtocol(
                "unsupported address type "@ + decimal(atyp as nat)
                    + " in the SOCKS5 connect reply"@,
            ),
        ),
{
    if atyp == SOCKS5_ATYP_IPV4 {
        Ok(Some(4))
    } else if atyp == SOCKS5_ATYP_IPV6 {
        Ok(Some(16))
    } else if atyp == SOCKS5_ATYP_DOMAIN {
        Ok(None)
    } else {
        Err(
            ProxyError::SocksProtocol(
                "unsupported address type ".to_owned().concat(decimal_text(atyp as u64).as_str()).concat(
                    " in the SOCKS5 connect reply",
                ),
            ),
        )
    }
}

/// What reading one more HTTP response header line means.
#[derive(Clone, Copy, Debug, PartialEq, Eq, Structural)]
pub enum HeaderStep {
    /// Keep reading lines.
    More,
    /// The empty line ended the headers.
    Done,
}

/// Decides after reading an HTTP response header line of `line` bytes,
/// `total` header bytes so far (the line included): a closed connection
/// (an empty read) or a header block past the bound is malformed; an empty
/// line (`\r\n` or `\n`) ends the headers.
pub fn http_header_step(line: &[u8], total: usize) -> (r: Result<HeaderStep, ProxyError>)
    ensures
        line@.len() == 0 ==> failure(r) == Err::<HeaderStep, ProxyFailure>(
            ProxyFailure::HttpMalformed(
                "the proxy closed the connection before the response completed"@,
            ),
        ),
        line@.len() > 0 && total > MAX_HTTP_RESPONSE_HEADER_BYTES ==> failure(r) == Err::<
            HeaderStep,
            ProxyFailure,
        >(ProxyFailure::HttpMalformed("the proxy response headers exceeded the size bound"@)),
        line@.len() > 0 && total <= MAX_HTTP_RESPONSE_HEADER_BYTES ==> r == Ok::<
            HeaderStep,
            ProxyError,
        >(
            if line@ == seq![13u8, 10u8] || line@ == seq![10u8] {
                HeaderStep::Done
            } else {
                HeaderStep::More
            },
        ),
{
    if line.len() == 0 {
        return Err(
            ProxyError::HttpMalformed(
                "the proxy closed the connection before the response completed".to_owned(),
            ),
        );
    }
    if total > MAX_HTTP_RESPONSE_HEADER_BYTES {
        return Err(
            ProxyError::HttpMalformed("the proxy response headers exceeded the size bound".to_owned()),
        );
    }
    let crlf = line.len() == 2 && line[0] == 13u8 && line[1] == 10u8;
    let lf = line.len() == 1 && line[0] == 10u8;
    proof {
        if line@.len() == 2 && line@[0] == 13u8 && line@[1] == 10u8 {
            assert(line@ =~= seq![13u8, 10u8]);
        }
        if line@.len() == 1 && line@[0] == 10u8 {
            assert(line@ =~= seq![10u8]);
        }
    }
    if crlf || lf {
        Ok(HeaderStep::Done)
    } else {
        Ok(HeaderStep::More)
    }
}

/// The failure of a proxy probe that ran out of time.
pub fn probe_timeout_error() -> (r: ProxyError)
    ensures
        r@ == ProxyFailure::Io("the proxy probe timed out"@),
{
    ProxyError::Io("the proxy probe timed out".to_owned())
}

} // verus!
