//! Connection candidates and the decisions of a connect attempt.

use vstd::prelude::*;
use crate::addr::{ipv4_octets, ipv6_octets, parse_ipv4, parse_ipv6};
use crate::model::{copy_vec, AccountId, DisconnectKind};
use crate::proxy::{strategy_for, ConnectStrategy, ProxyConfig};
use crate::rules::opt_view;
use crate::session::SessionState;
use crate::text::{blank, chars_of, decimal, decimal_text, is_blank, trim, trimmed};
use crate::transport::{ConnectionRequest, EventView, TransportError, TransportEvent};
use crate::xmpp::{
    bare_jid_accepts, bare_jid_valid, endpoint_syntax_problem, host_port_of, is_stale_nanos,
    split_host_and_port,
    validate_endpoint_syntax, ConnectFailure, XmppError, XmppErrorKind,
};

verus! {

/// One way to reach the server: an address, a port, and whether TLS starts
/// at once (direct TLS) rather than after StartTLS.
#[derive(Debug, PartialEq, Eq)]
pub struct Candidate {
    /// The address's octets: four for IPv4, sixteen for IPv6.
    pub ip: Vec<u8>,
    pub port: u16,
    pub direct_tls: bool,
}

/// What identifies a candidate.
pub type CandidateKey = (Seq<u8>, u16, bool);

/// A candidate's identity.
pub open spec fn key(c: Candidate) -> CandidateKey {
    (c.ip@, c.port, c.direct_tls)
}

/// The identities of a list of candidates.
pub open spec fn keys(s: Seq<Candidate>) -> Seq<CandidateKey> {
    s.map_values(|c: Candidate| key(c))
}

impl Clone for Candidate {
    fn clone(&self) -> (r: Self)
        ensures
            key(r) == key(*self),
    {
        Candidate { ip: copy_vec(&self.ip), port: self.port, direct_tls: self.direct_tls }
    }
}

/// Whether two byte strings are equal.
pub fn bytes_equal(a: &Vec<u8>, b: &Vec<u8>) -> (r: bool)
    ensures
        r == (a@ == b@),
{
    if a.len() != b.len() {
        return false;
    }
    let mut i: usize = 0;
    while i < a.len()
        invariant
            i <= a.len(),
            a.len() == b.len(),
            forall|k: int| 0 <= k < i ==> a@[k] == b@[k],
        decreases a.len() - i,
    {
        if a[i] != b[i] {
            return false;
        }
        i = i + 1;
    }
    proof {
        assert(a@ =~= b@);
    }
    true
}

fn same_candidate(a: &Candidate, b: &Candidate) -> (r: bool)
    ensures
        r == (key(*a) == key(*b)),
{
    a.port == b.port && a.direct_tls == b.direct_tls && bytes_equal(&a.ip, &b.ip)
}

/// Each element at its first occurrence, in order.
pub open spec fn first_occurrences<K>(s: Seq<K>) -> Seq<K>
    decreases s.len(),
{
    if s.len() == 0 {
        Seq::empty()
    } else {
        let kept = first_occurrences(s.drop_last());
        if s.drop_last().contains(s.last()) {
            kept
        } else {
            kept.push(s.last())
        }
    }
}

/// Keeping first occurrences keeps exactly the elements there were.
pub proof fn lemma_first_occurrences_contains<K>(s: Seq<K>, x: K)
    ensures
        first_occurrences(s).contains(x) <==> s.contains(x),
    decreases s.len(),
{
    if s.len() > 0 {
        lemma_first_occurrences_contains(s.drop_last(), x);
        let kept = first_occurrences(s.drop_last());
        if s.contains(x) {
            let k = choose|k: int| 0 <= k < s.len() && s[k] == x;
            if k < s.len() - 1 {
                assert(s.drop_last()[k] == x);
            }
        }
        if s.drop_last().contains(x) {
            let k = choose|k: int| 0 <= k < s.drop_last().len() && s.drop_last()[k] == x;
            assert(s[k] == x);
        }
        if !s.drop_last().contains(s.last()) {
            if kept.push(s.last()).contains(x) {
                let k = choose|k: int| 0 <= k < kept.push(s.last()).len() && kept.push(s.last())[k] == x;
                if k < kept.len() {
                    assert(kept[k] == x);
                } else {
                    assert(s[s.len() - 1] == x);
                }
            }
            if kept.contains(x) {
                let k = choose|k: int| 0 <= k < kept.len() && kept[k] == x;
                assert(kept.push(s.last())[k] == x);
            }
            if x == s.last() {
                assert(kept.push(s.last())[kept.len() as int] == x);
            }
        }
    }
}

/// Keeping first occurrences leaves no element twice.
pub proof fn lemma_first_occurrences_distinct<K>(s: Seq<K>)
    ensures
        first_occurrences(s).no_duplicates(),
    decreases s.len(),
{
    if s.len() > 0 {
        lemma_first_occurrences_distinct(s.drop_last());
        lemma_first_occurrences_contains(s.drop_last(), s.last());
        let kept = first_occurrences(s.drop_last());
        if !s.drop_last().contains(s.last()) {
            let r = kept.push(s.last());
            assert forall|i: int, j: int| 0 <= i < r.len() && 0 <= j < r.len() && i != j implies r[i]
                != r[j] by {
                if i < kept.len() && j < kept.len() {
                } else if i < kept.len() {
                    assert(kept.contains(r[i]));
                } else {
                    assert(kept.contains(r[j]));
                }
            }
        }
    }
}

/// Removes repeated candidates, keeping the first of each in order.
pub fn dedupe_candidates(attempts: Vec<Candidate>) -> (r: Vec<Candidate>)
    ensures
        keys(r@) == first_occurrences(keys(attempts@)),
{
    let ghost ks = keys(attempts@);
    let mut out: Vec<Candidate> = Vec::new();
    let mut i: usize = 0;
    while i < attempts.len()
        invariant
            i <= attempts.len(),
            ks == keys(attempts@),
            keys(out@) == first_occurrences(ks.take(i as int)),
        decreases attempts.len() - i,
    {
        let c = &attempts[i];
        let mut seen = false;
        let mut j: usize = 0;
        while j < out.len()
            invariant
                j <= out.len(),
                seen <==> exists|k: int| 0 <= k < j && key(#[trigger] out@[k]) == key(*c),
            decreases out.len() - j,
        {
            if same_candidate(&out[j], c) {
                seen = true;
            }
            j = j + 1;
        }
        proof {
            let prefix = ks.take(i as int);
            assert(ks.take(i + 1).drop_last() =~= prefix);
            assert(ks.take(i + 1).last() == key(*c));
            lemma_first_occurrences_contains(prefix, key(*c));
            if seen {
                let k = choose|k: int| 0 <= k < out.len() && key(#[trigger] out@[k]) == key(*c);
                assert(keys(out@)[k] == key(*c));
                assert(first_occurrences(prefix).contains(key(*c)));
            } else {
                if first_occurrences(prefix).contains(key(*c)) {
                    let k = choose|k: int| 0 <= k < keys(out@).len() && keys(out@)[k] == key(*c);
                    assert(key(out@[k]) == key(*c));
                }
            }
        }
        if !seen {
            let ghost before = out@;
            out.push(c.clone());
            proof {
                assert(keys(out@) =~= keys(before).push(key(*c)));
            }
        }
        i = i + 1;
    }
    proof {
        assert(ks.take(i as int) =~= ks);
    }
    out
}


/// Candidates for one connection attempt that share a port and TLS mode.
#[derive(Debug, PartialEq, Eq)]
pub struct AttemptGroup {
    pub port: u16,
    pub direct_tls: bool,
    /// The addresses' octets, in candidate order.
    pub addresses: Vec<Vec<u8>>,
}

/// A group's port, TLS mode and addresses.
pub type GroupView = (u16, bool, Seq<Seq<u8>>);

/// The view of a group.
pub open spec fn group_view(g: AttemptGroup) -> GroupView {
    (g.port, g.direct_tls, g.addresses@.map_values(|a: Vec<u8>| a@))
}

/// The views of a list of groups.
pub open spec fn group_views(s: Seq<AttemptGroup>) -> Seq<GroupView> {
    s.map_values(|g: AttemptGroup| group_view(g))
}

/// Consecutive candidates that share a port and TLS mode, gathered into
/// groups in order.
pub open spec fn grouped(s: Seq<CandidateKey>) -> Seq<GroupView>
    decreases s.len(),
{
    if s.len() == 0 {
        Seq::empty()
    } else {
        let g = grouped(s.drop_last());
        let c = s.last();
        if g.len() > 0 && g.last().0 == c.1 && g.last().1 == c.2 {
            g.update(g.len() - 1, (c.1, c.2, g.last().2.push(c.0)))
        } else {
            g.push((c.1, c.2, seq![c.0]))
        }
    }
}

/// The candidates a list of groups stands for, in order.
pub open spec fn ungrouped(g: Seq<GroupView>) -> Seq<CandidateKey>
    decreases g.len(),
{
    if g.len() == 0 {
        Seq::empty()
    } else {
        ungrouped(g.drop_last()) + g.last().2.map_values(
            |a: Seq<u8>| (a, g.last().0, g.last().1),
        )
    }
}

/// Grouping loses, adds and reorders no candidate; every group is
/// non-empty; and neighbouring groups differ in port or TLS mode.
pub proof fn lemma_grouping(s: Seq<CandidateKey>)
    ensures
        ungrouped(grouped(s)) == s,
        forall|i: int| 0 <= i < grouped(s).len() ==> #[trigger] grouped(s)[i].2.len() > 0,
        forall|i: int|
            0 <= i < grouped(s).len() - 1 ==> (#[trigger] grouped(s)[i].0 != grouped(s)[i + 1].0
                || grouped(s)[i].1 != grouped(s)[i + 1].1),
    decreases s.len(),
{
    if s.len() > 0 {
        let prev = s.drop_last();
        lemma_grouping(prev);
        let g = grouped(prev);
        let c = s.last();
        if g.len() > 0 && g.last().0 == c.1 && g.last().1 == c.2 {
            let n = g.update(g.len() - 1, (c.1, c.2, g.last().2.push(c.0)));
            assert(n.drop_last() =~= g.drop_last());
            assert(ungrouped(g) == ungrouped(g.drop_last()) + g.last().2.map_values(
                |a: Seq<u8>| (a, g.last().0, g.last().1),
            ));
            assert(n.last().2.map_values(|a: Seq<u8>| (a, n.last().0, n.last().1)) =~= g.last().2.map_values(
                |a: Seq<u8>| (a, g.last().0, g.last().1),
            ).push(c));
            assert(ungrouped(n) == ungrouped(n.drop_last()) + n.last().2.map_values(
                |a: Seq<u8>| (a, n.last().0, n.last().1),
            ));
            assert(s =~= prev.push(c));
            assert(ungrouped(n) =~= s);
        } else {
            let n = g.push((c.1, c.2, seq![c.0]));
            assert(n.drop_last() =~= g);
            assert(n.last().2.map_values(|a: Seq<u8>| (a, n.last().0, n.last().1)) =~= seq![c]);
            assert(ungrouped(n) == ungrouped(n.drop_last()) + n.last().2.map_values(
                |a: Seq<u8>| (a, n.last().0, n.last().1),
            ));
            assert(ungrouped(n) =~= s);
        }
    } else {
        assert(ungrouped(grouped(s)) =~= s);
    }
}

/// Splits the ordered candidates into consecutive groups that share a port
/// and TLS mode, so the addresses of one endpoint can be raced together.
pub fn group_attempts(attempts: &Vec<Candidate>) -> (r: Vec<AttemptGroup>)
    ensures
        group_views(r@) == grouped(keys(attempts@)),
{
    let ghost ks = keys(attempts@);
    let mut groups: Vec<AttemptGroup> = Vec::new();
    let mut i: usize = 0;
    while i < attempts.len()
        invariant
            i <= attempts.len(),
            ks == keys(attempts@),
            group_views(groups@) == grouped(ks.take(i as int)),
        decreases attempts.len() - i,
    {
        let c = &attempts[i];
        proof {
            assert(ks.take(i + 1).drop_last() =~= ks.take(i as int));
            assert(ks.take(i + 1).last() == key(*c));
        }
        let ghost before = groups@;
        let n = groups.len();
        if n > 0 && groups[n - 1].port == c.port && groups[n - 1].direct_tls == c.direct_tls {
            let mut last = groups.pop().unwrap();
            proof {
                assert(before =~= groups@.push(last));
            }
            let ghost old_last = last;
            last.addresses.push(copy_vec(&c.ip));
            proof {
                assert(last.addresses@.map_values(|a: Vec<u8>| a@) =~= old_last.addresses@.map_values(
                    |a: Vec<u8>| a@,
                ).push(c.ip@));
            }
            groups.push(last);
            proof {
                assert(group_views(groups@) =~= group_views(before).update(
                    group_views(before).len() - 1,
                    (c.port, c.direct_tls, group_view(old_last).2.push(c.ip@)),
                ));
            }
        } else {
            let mut addresses: Vec<Vec<u8>> = Vec::new();
            addresses.push(copy_vec(&c.ip));
            let g = AttemptGroup { port: c.port, direct_tls: c.direct_tls, addresses };
            proof {
                assert(g.addresses@.map_values(|a: Vec<u8>| a@) =~= seq![c.ip@]);
            }
            groups.push(g);
            proof {
                assert(group_views(groups@) =~= group_views(before).push(
                    (c.port, c.direct_tls, seq![c.ip@]),
                ));
            }
        }
        i = i + 1;
    }
    proof {
        assert(ks.take(i as int) =~= ks);
    }
    groups
}


/// What a connect attempt remembers across candidate groups: the failure of
/// the last group tried.
#[derive(Debug)]
pub struct AttemptProgress {
    last_failure: ConnectFailure,
}

impl AttemptProgress {
    /// The failure reported if no group succeeds.
    pub closed spec fn last(self) -> ConnectFailure {
        self.last_failure
    }

    /// An attempt before any group was tried.
    pub fn new() -> (r: Self)
        ensures
            r.last().detail@ == "no connection candidates"@,
            r.last().recoverable,
            r.last().kind == DisconnectKind::NetworkLost,
    {
        AttemptProgress {
            last_failure: ConnectFailure {
                detail: "no connection candidates".to_owned(),
                recoverable: true,
                kind: DisconnectKind::NetworkLost,
            },
        }
    }

    /// Records the failure of one group. A non-recoverable failure (the
    /// server rejected the credentials or the certificate) ends the attempt
    /// and is returned; any other is remembered and the next group is tried.
    pub fn record_failure(&mut self, failure: ConnectFailure) -> (r: Option<ConnectFailure>)
        ensures
            !failure.recoverable ==> r == Some(failure) && final(self).last() == old(self).last(),
            failure.recoverable ==> r is None && final(self).last() == failure,
    {
        if !failure.recoverable {
            return Some(failure);
        }
        self.last_failure = failure;
        None
    }

    /// The failure of an attempt in which no group succeeded.
    pub fn finish(self) -> (r: ConnectFailure)
        ensures
            r == self.last(),
    {
        self.last_failure
    }
}

/// A recoverable network failure with the given detail.
fn network_failure(detail: String) -> (r: ConnectFailure)
    ensures
        r.detail == detail,
        r.recoverable,
        r.kind == DisconnectKind::NetworkLost,
{
    ConnectFailure { detail, recoverable: true, kind: DisconnectKind::NetworkLost }
}

/// The failure of a group whose handshakes all closed without an event.
pub fn group_closed_failure(port: u16) -> (r: ConnectFailure)
    ensures
        r.detail@ == "connection to port "@ + decimal(port as nat) + " closed during handshake"@,
        r.recoverable,
        r.kind == DisconnectKind::NetworkLost,
{
    network_failure(
        "connection to port ".to_owned().concat(decimal_text(port as u64).as_str()).concat(
            " closed during handshake",
        ),
    )
}

/// The failure of a group whose first address, during its head start,
/// closed the handshake without an event; `address` is that address as
/// text (`ip:port`, an IPv6 address in brackets).
pub fn head_start_closed_failure(address: &str) -> (r: ConnectFailure)
    ensures
        r.detail@ == "connection to "@ + address@ + " closed during handshake"@,
        r.recoverable,
        r.kind == DisconnectKind::NetworkLost,
{
    network_failure("connection to ".to_owned().concat(address).concat(" closed during handshake"))
}

/// The failure of a group that produced no event within the attempt bound.
pub fn group_timeout_failure(port: u16) -> (r: ConnectFailure)
    ensures
        r.detail@ == "connection to port "@ + decimal(port as nat)
            + " timed out after 10 seconds"@,
        r.recoverable,
        r.kind == DisconnectKind::NetworkLost,
{
    network_failure(
        "connection to port ".to_owned().concat(decimal_text(port as u64).as_str()).concat(
            " timed out after 10 seconds",
        ),
    )
}

/// The failure of a proxy tunnel that closed during the XMPP handshake.
pub fn tunnel_closed_failure() -> (r: ConnectFailure)
    ensures
        r.detail@ == "the proxy tunnel closed during the XMPP handshake"@,
        r.recoverable,
        r.kind == DisconnectKind::NetworkLost,
{
    network_failure("the proxy tunnel closed during the XMPP handshake".to_owned())
}

/// The failure of a proxied attempt that produced no event within its bound.
pub fn tunnel_timeout_failure() -> (r: ConnectFailure)
    ensures
        r.detail@ == "the proxy connection timed out after 10 seconds"@,
        r.recoverable,
        r.kind == DisconnectKind::NetworkLost,
{
    network_failure("the proxy connection timed out after 10 seconds".to_owned())
}

/// The failure of a proxied attempt whose server field is no valid tunnel
/// target: a local configuration problem.
pub fn proxy_target_failure(error: &crate::proxy::ProxyError) -> (r: ConnectFailure)
    ensures
        r.detail@ == crate::proxy::proxy_error_text(*error),
        r.recoverable,
        r.kind == DisconnectKind::Unknown,
{
    ConnectFailure { detail: error.message(), recoverable: true, kind: DisconnectKind::Unknown }
}

/// The terminal event of a worker whose connect phase failed.
pub fn connect_failed_event(account_id: AccountId, failure: ConnectFailure) -> (r: TransportEvent)
    ensures
        r@ == (EventView::Disconnected {
            account_id,
            recoverable: failure.recoverable,
            detail: Some(failure.detail@),
            kind: failure.kind,
        }),
{
    TransportEvent::Disconnected {
        account_id,
        recoverable: failure.recoverable,
        detail: Some(failure.detail),
        kind: failure.kind,
    }
}

/// The terminal event of a worker whose connect phase ran out of time.
pub fn connect_timeout_event(account_id: AccountId) -> (r: TransportEvent)
    ensures
        r@ == (EventView::Disconnected {
            account_id,
            recoverable: true,
            detail: Some("connection attempt exceeded 30 seconds"@),
            kind: DisconnectKind::NetworkLost,
        }),
{
    TransportEvent::Disconnected {
        account_id,
        recoverable: true,
        detail: Some("connection attempt exceeded 30 seconds".to_owned()),
        kind: DisconnectKind::NetworkLost,
    }
}

/// The terminal event of a stream that ended without a cause: retryable,
/// so a plain network loss never reads as a credential failure.
pub fn stream_ended_event(account_id: AccountId) -> (r: TransportEvent)
    ensures
        r@ == (EventView::Disconnected {
            account_id,
            recoverable: true,
            detail: None,
            kind: DisconnectKind::NetworkLost,
        }),
{
    TransportEvent::Disconnected {
        account_id,
        recoverable: true,
        detail: None,
        kind: DisconnectKind::NetworkLost,
    }
}

/// The terminal event of a worker that crashed.
pub fn worker_crashed_event(account_id: AccountId) -> (r: TransportEvent)
    ensures
        r@ == (EventView::Disconnected {
            account_id,
            recoverable: true,
            detail: Some("XMPP worker crashed"@),
            kind: DisconnectKind::Unknown,
        }),
{
    TransportEvent::Disconnected {
        account_id,
        recoverable: true,
        detail: Some("XMPP worker crashed".to_owned()),
        kind: DisconnectKind::Unknown,
    }
}

/// A command that the coordinator hands a worker.
#[derive(Clone, Copy, Debug, PartialEq, Eq, Structural)]
pub enum WorkerCommandKind {
    /// Send one message.
    Send,
    /// Close the session and end the worker.
    Disconnect,
}

/// The answer to a command that arrives while the account is still
/// connecting; the worker then ends without finishing the connection.
pub fn connecting_command_reply(kind: WorkerCommandKind) -> (r: Result<(), TransportError>)
    ensures
        kind == WorkerCommandKind::Disconnect ==> r is Ok,
        kind == WorkerCommandKind::Send ==> (r matches Err(TransportError::ConnectionFailed(d))
            && d@ == "account is still connecting"@),
{
    match kind {
        WorkerCommandKind::Disconnect => Ok(()),
        WorkerCommandKind::Send => Err(
            TransportError::ConnectionFailed("account is still connecting".to_owned()),
        ),
    }
}

/// The reply to a bounded send (or, with `closing`, a bounded close of the
/// stream): what the operation returned, or, when the bound passed first
/// (`finished` is `None`), the timeout error of that operation.
pub fn bounded_reply(finished: Option<Result<(), TransportError>>, closing: bool) -> (r: Result<
    (),
    TransportError,
>)
    ensures
        finished is Some ==> r == finished->0,
        finished is None ==> (r matches Err(TransportError::ConnectionFailed(d)) && d@ == (if closing {
            "timed out while closing XMPP connection"@
        } else {
            "timed out while sending XMPP stanza"@
        })),
{
    match finished {
        Some(result) => result,
        None => {
            if closing {
                Err(TransportError::ConnectionFailed("timed out while closing XMPP connection".to_owned()))
            } else {
                Err(TransportError::ConnectionFailed("timed out while sending XMPP stanza".to_owned()))
            }
        },
    }
}

/// How long a live session may go without inbound data, in nanoseconds.
pub const INBOUND_STALE_NANOS: u128 = 180_000_000_000;

/// What the worker does after a watchdog check.
#[derive(Clone, Copy, Debug, PartialEq, Eq, Structural)]
pub enum WatchdogAction {
    /// Nothing: the session is not live, or not stale.
    Idle,
    /// The stale session is forced down so the client reconnects.
    Reconnect,
    /// The worker ends.
    Stop,
}

/// The inbound watchdog: a live session idle for longer than three minutes
/// is reported lost (retryable) and either reconnected or, without
/// auto-reconnect, ended. `idle_nanos` is the time since the last inbound
/// data.
pub fn watchdog_check(
    session: &mut SessionState,
    account_id: AccountId,
    idle_nanos: u128,
    auto_reconnect: bool,
) -> (r: (Option<TransportEvent>, WatchdogAction))
    ensures
        final(session).stream_capabilities == old(session).stream_capabilities,
        if old(session).live && idle_nanos > INBOUND_STALE_NANOS {
            &&& !final(session).live
            &&& r.0 matches Some(e) && e@ == (EventView::Disconnected {
                account_id,
                recoverable: true,
                detail: Some("no inbound data from the server for 3 minutes"@),
                kind: DisconnectKind::NetworkLost,
            })
            &&& r.1 == (if auto_reconnect {
                WatchdogAction::Reconnect
            } else {
                WatchdogAction::Stop
            })
        } else {
            &&& final(session).live == old(session).live
            &&& r.0 is None
            &&& r.1 == WatchdogAction::Idle
        },
{
    if !session.live || !is_stale_nanos(idle_nanos, INBOUND_STALE_NANOS) {
        return (None, WatchdogAction::Idle);
    }
    session.live = false;
    let event = TransportEvent::Disconnected {
        account_id,
        recoverable: true,
        detail: Some("no inbound data from the server for 3 minutes".to_owned()),
        kind: DisconnectKind::NetworkLost,
    };
    if auto_reconnect {
        (Some(event), WatchdogAction::Reconnect)
    } else {
        (Some(event), WatchdogAction::Stop)
    }
}

/// The next keep-alive ping: the counter moves on (wrapping) and names the
/// ping's stanza id.
pub fn next_ping(counter: u64) -> (r: (u64, String))
    ensures
        r.0 == (if counter == u64::MAX {
            0
        } else {
            counter + 1
        }),
        r.1@ == "mindchat-ping-"@ + decimal(r.0 as nat),
{
    let next = counter.wrapping_add(1);
    (next, "mindchat-ping-".to_owned().concat(decimal_text(next).as_str()))
}

/// The transport error an XMPP client failure is reported as: any
/// authentication failure as such, anything else as a connection failure
/// with the failure's text.
pub open spec fn xmpp_transport_error(error: XmppError) -> TransportError {
    if error.kind == XmppErrorKind::Auth || error.kind == XmppErrorKind::AuthTemporary {
        TransportError::AuthenticationFailed
    } else {
        TransportError::ConnectionFailed(error.detail)
    }
}

/// Maps an XMPP client failure to the transport's error.
pub fn map_xmpp_error(error: XmppError) -> (r: TransportError)
    ensures
        r == xmpp_transport_error(error),
{
    match error.kind {
        XmppErrorKind::Auth | XmppErrorKind::AuthTemporary => TransportError::AuthenticationFailed,
        _ => TransportError::ConnectionFailed(error.detail),
    }
}

/// What a connection worker needs from a connection request.
#[derive(Debug)]
pub struct WorkerConnection {
    pub account_id: AccountId,
    pub jid: String,
    pub password: String,
    /// The server field without surrounding whitespace.
    pub server: String,
    pub auto_reconnect: bool,
    /// Direct, or through the configured proxy's protocol.
    pub connect_strategy: ConnectStrategy,
    pub proxy: Option<ProxyConfig>,
    /// The proxy credentials, handed over to the handshake only.
    pub proxy_password: Option<String>,
}

/// Why a connection request cannot start a worker, if it cannot.
pub open spec fn worker_request_problem(request: ConnectionRequest) -> Option<Seq<char>> {
    if !bare_jid_accepts(request.jid@) {
        Some("invalid account JID supplied to XMPP transport"@)
    } else if trim(request.server@).len() == 0 {
        Some("XMPP server is empty"@)
    } else {
        endpoint_syntax_problem(trim(request.server@))
    }
}

impl WorkerConnection {
    /// Checks a connection request and takes what the worker needs from it:
    /// the account must be a bare JID and the server field well-formed; the
    /// strategy follows the proxy's protocol, or is direct without a proxy.
    pub fn from_request(request: ConnectionRequest) -> (r: Result<WorkerConnection, TransportError>)
        ensures
            match worker_request_problem(request) {
                Some(d) => (r matches Err(TransportError::ProtocolViolation(x)) && x@ == d),
                None => r matches Ok(w) && {
                    &&& w.account_id == request.account_id
                    &&& w.jid@ == request.jid@
                    &&& w.password@ == request.password.secret()
                    &&& w.server@ == trim(request.server@)
                    &&& w.auto_reconnect == request.auto_reconnect
                    &&& w.proxy == request.proxy
                    &&& w.connect_strategy == match request.proxy {
                        None => ConnectStrategy::Direct,
                        Some(config) => strategy_for(config.kind),
                    }
                    &&& opt_view(w.proxy_password) == match request.proxy_password {
                        Some(p) => Some(p.secret()),
                        None => None,
                    }
                },
            },
    {
        if !bare_jid_valid(request.jid.as_str()) {
            return Err(
                TransportError::ProtocolViolation(
                    "invalid account JID supplied to XMPP transport".to_owned(),
                ),
            );
        }
        let server = trimmed(request.server.as_str());
        if server.as_str().unicode_len() == 0 {
            return Err(TransportError::ProtocolViolation("XMPP server is empty".to_owned()));
        }
        if let Err(e) = validate_endpoint_syntax(server.as_str()) {
            return Err(e);
        }
        let connect_strategy = match &request.proxy {
            None => ConnectStrategy::Direct,
            Some(config) => ConnectStrategy::from(config.kind),
        };
        let proxy_password = match request.proxy_password {
            Some(p) => Some(p.into_inner()),
            None => None,
        };
        Ok(
            WorkerConnection {
                account_id: request.account_id,
                jid: request.jid,
                password: request.password.into_inner(),
                server,
                auto_reconnect: request.auto_reconnect,
                connect_strategy,
                proxy: request.proxy,
                proxy_password,
            },
        )
    }
}


/// The accounts that own a connection worker, each once, in increasing
/// order.
#[derive(Debug)]
pub struct WorkerSlots {
    ids: Vec<AccountId>,
}

impl View for WorkerSlots {
    type V = Seq<AccountId>;

    closed spec fn view(&self) -> Seq<AccountId> {
        self.ids@
    }
}

/// Whether account ids are strictly increasing.
pub open spec fn strictly_increasing(s: Seq<AccountId>) -> bool {
    forall|i: int, j: int| 0 <= i < j < s.len() ==> s[i] < s[j]
}

impl WorkerSlots {
    /// Well-formed: strictly increasing ids.
    pub open spec fn wf(&self) -> bool {
        strictly_increasing(self@)
    }

    /// No account owns a worker.
    pub fn new() -> (r: Self)
        ensures
            r.wf(),
            r@.len() == 0,
    {
        WorkerSlots { ids: Vec::new() }
    }

    /// Whether an account owns a worker.
    pub fn holds(&self, account_id: AccountId) -> (r: bool)
        ensures
            r == self@.contains(account_id),
    {
        let mut i: usize = 0;
        while i < self.ids.len()
            invariant
                i <= self.ids.len(),
                forall|k: int| 0 <= k < i ==> self.ids@[k] != account_id,
            decreases self.ids.len() - i,
        {
            if self.ids[i] == account_id {
                return true;
            }
            i = i + 1;
        }
        false
    }

    /// A connect may start a worker only for an account that owns none.
    pub fn check_free(&self, account_id: AccountId) -> (r: Result<(), TransportError>)
        ensures
            self@.contains(account_id) ==> (r matches Err(TransportError::Unsupported(d)) && d@
                == "account is already connecting"@),
            !self@.contains(account_id) ==> r is Ok,
    {
        if self.holds(account_id) {
            Err(TransportError::Unsupported("account is already connecting".to_owned()))
        } else {
            Ok(())
        }
    }

    /// Sending and disconnecting need the account's worker.
    pub fn check_owned(&self, account_id: AccountId) -> (r: Result<(), TransportError>)
        ensures
            !self@.contains(account_id) ==> (r matches Err(TransportError::ConnectionFailed(d))
                && d@ == "account has no active XMPP worker"@),
            self@.contains(account_id) ==> r is Ok,
    {
        if self.holds(account_id) {
            Ok(())
        } else {
            Err(TransportError::ConnectionFailed("account has no active XMPP worker".to_owned()))
        }
    }

    /// Records that an account now owns a worker.
    pub fn insert(&mut self, account_id: AccountId)
        requires
            old(self).wf(),
        ensures
            final(self).wf(),
            final(self)@.to_set() == old(self)@.to_set().insert(account_id),
    {
        let mut i: usize = 0;
        while i < self.ids.len() && self.ids[i] < account_id
            invariant
                i <= self.ids.len(),
                strictly_increasing(self.ids@),
                forall|k: int| 0 <= k < i ==> self.ids@[k] < account_id,
            decreases self.ids.len() - i,
        {
            i = i + 1;
        }
        if i < self.ids.len() && self.ids[i] == account_id {
            proof {
                assert(self@.to_set().insert(account_id) =~= self@.to_set());
            }
            return;
        }
        let ghost before = self.ids@;
        self.ids.insert(i, account_id);
        proof {
            assert(self.ids@ == before.insert(i as int, account_id));
            assert forall|a: int, b: int| 0 <= a < b < self.ids@.len() implies self.ids@[a]
                < self.ids@[b] by {
                if b < i {
                } else if a < i && b == i {
                } else if a < i {
                    assert(self.ids@[b] == before[b - 1]);
                } else if a == i {
                    assert(self.ids@[b] == before[b - 1]);
                    assert(before[i as int] > account_id);
                    if b - 1 > i {
                        assert(before[i as int] < before[b - 1]);
                    }
                } else {
                    assert(self.ids@[a] == before[a - 1]);
                    assert(self.ids@[b] == before[b - 1]);
                }
            }
            assert forall|x: AccountId| #[trigger] self.ids@.to_set().contains(x) <==> before.to_set().insert(
                account_id,
            ).contains(x) by {
                if self.ids@.contains(x) {
                    let k = choose|k: int| 0 <= k < self.ids@.len() && self.ids@[k] == x;
                    if k < i {
                        assert(before[k] == x);
                    } else if k > i {
                        assert(before[k - 1] == x);
                    }
                }
                if before.contains(x) {
                    let k = choose|k: int| 0 <= k < before.len() && before[k] == x;
                    if k < i {
                        assert(self.ids@[k] == x);
                    } else {
                        assert(self.ids@[k + 1] == x);
                    }
                }
                if x == account_id {
                    assert(self.ids@[i as int] == x);
                }
            }
            assert(self.ids@.to_set() =~= before.to_set().insert(account_id));
        }
    }

    /// Frees an account's slot; says whether it owned one.
    pub fn release(&mut self, account_id: AccountId) -> (r: bool)
        requires
            old(self).wf(),
        ensures
            final(self).wf(),
            r == old(self)@.contains(account_id),
            final(self)@.to_set() == old(self)@.to_set().remove(account_id),
    {
        let mut i: usize = 0;
        while i < self.ids.len()
            invariant
                i <= self.ids.len(),
                strictly_increasing(self.ids@),
                self.ids@ == old(self)@,
                forall|k: int| 0 <= k < i ==> self.ids@[k] != account_id,
            decreases self.ids.len() - i,
        {
            if self.ids[i] == account_id {
                let ghost before = self.ids@;
                self.ids.remove(i);
                proof {
                    assert(self.ids@ == before.remove(i as int));
                    assert forall|x: AccountId| #[trigger] self.ids@.to_set().contains(x) <==> before.to_set().remove(
                        account_id,
                    ).contains(x) by {
                        if self.ids@.contains(x) {
                            let k = choose|k: int| 0 <= k < self.ids@.len() && self.ids@[k] == x;
                            if k < i {
                                assert(before[k] == x);
                                assert(before[k] < before[i as int]);
                            } else {
                                assert(before[k + 1] == x);
                                assert(before[i as int] < before[k + 1]);
                            }
                        }
                        if before.contains(x) && x != account_id {
                            let k = choose|k: int| 0 <= k < before.len() && before[k] == x;
                            if k < i {
                                assert(self.ids@[k] == x);
                            } else {
                                assert(k != i);
                                assert(self.ids@[k - 1] == x);
                            }
                        }
                    }
                    assert(self.ids@.to_set() =~= before.to_set().remove(account_id));
                    assert(before.contains(account_id)) by {
                        assert(before[i as int] == account_id);
                    }
                }
                return true;
            }
            i = i + 1;
        }
        proof {
            assert(self.ids@.to_set().remove(account_id) =~= self.ids@.to_set());
        }
        false
    }

    /// The accounts that own a worker, in increasing order.
    pub fn connected_accounts(&self) -> (r: Vec<AccountId>)
        ensures
            r@ == self@,
    {
        self.ids.clone()
    }

    /// What an event means for the slots: a terminal disconnect frees the
    /// account's slot, so a later connect can start a new worker.
    pub fn observe(&mut self, event: &TransportEvent)
        requires
            old(self).wf(),
        ensures
            final(self).wf(),
            match event {
                TransportEvent::Disconnected { account_id, .. } => final(self)@.to_set()
                    == old(self)@.to_set().remove(*account_id),
                _ => final(self)@ == old(self)@,
            },
    {
        if let TransportEvent::Disconnected { account_id, .. } = event {
            self.release(*account_id);
        }
    }

    /// When every worker is gone without a terminal event, retires one
    /// tracked account and reports it lost, so no account stays connecting.
    pub fn retire_one(&mut self) -> (r: Option<TransportEvent>)
        requires
            old(self).wf(),
        ensures
            final(self).wf(),
            old(self)@.len() == 0 ==> r is None && final(self)@ == old(self)@,
            old(self)@.len() > 0 ==> (r matches Some(e) && e@ == (EventView::Disconnected {
                account_id: old(self)@[0],
                recoverable: true,
                detail: Some("XMPP worker stopped unexpectedly"@),
                kind: DisconnectKind::Unknown,
            }) && final(self)@ == old(self)@.drop_first()),
    {
        if self.ids.len() == 0 {
            return None;
        }
        let account_id = self.ids.remove(0);
        Some(
            TransportEvent::Disconnected {
                account_id,
                recoverable: true,
                detail: Some("XMPP worker stopped unexpectedly".to_owned()),
                kind: DisconnectKind::Unknown,
            },
        )
    }
}

/// The octets of an IP literal: dotted IPv4, else IPv6.
pub open spec fn ip_literal(s: Seq<char>) -> Option<Seq<u8>> {
    match ipv4_octets(s) {
        Some(o) => Some(o),
        None => ipv6_octets(s),
    }
}

/// Reads an IP literal (surrounding whitespace ignored).
pub fn parse_ip_literal(host: &str) -> (r: Option<Vec<u8>>)
    ensures
        opt_octets(r) == ip_literal(trim(host@)),
{
    let t = trimmed(host);
    let v = chars_of(t.as_str());
    match parse_ipv4(&v) {
        Some(o) => Some(o),
        None => parse_ipv6(&v),
    }
}

/// The octets held by an optional byte vector.
pub open spec fn opt_octets(v: Option<Vec<u8>>) -> Option<Seq<u8>> {
    match v {
        Some(b) => Some(b@),
        None => None,
    }
}

/// How a server field is resolved into candidates.
#[derive(Debug, PartialEq, Eq)]
pub enum EndpointPlan {
    /// An explicit `host:port`: that host's addresses on that port.
    Explicit { host: String, port: u16 },
    /// An IP literal: StartTLS on the default port, then direct TLS.
    Literal(Vec<u8>),
    /// A domain: its addresses on the default ports, then service records.
    Domain(String),
}

/// The candidates of one host on one port: direct TLS exactly on the
/// direct-TLS port.
pub open spec fn port_candidates(addresses: Seq<Seq<u8>>, port: u16) -> Seq<CandidateKey> {
    addresses.map_values(|a: Seq<u8>| (a, port, port == 5223))
}

/// Decides how a server field is resolved. A malformed explicit endpoint
/// is refused with its detail.
pub fn endpoint_plan(server: &str) -> (r: Result<EndpointPlan, TransportError>)
    ensures
        match host_port_of(trim(server@)) {
            Err(d) => r matches Err(TransportError::ProtocolViolation(x)) && x@ == d,
            Ok(Some((h, p))) => r matches Ok(EndpointPlan::Explicit { host, port }) && host@ == h
                && port == p,
            Ok(None) => match ip_literal(trim(server@)) {
                Some(o) => r matches Ok(EndpointPlan::Literal(ip)) && ip@ == o,
                None => r matches Ok(EndpointPlan::Domain(d)) && d@ == trim(server@),
            },
        },
{
    let s = trimmed(server);
    match split_host_and_port(s.as_str()) {
        Err(e) => Err(e),
        Ok(Some((host, port))) => Ok(EndpointPlan::Explicit { host, port }),
        Ok(None) => {
            let v = chars_of(s.as_str());
            match parse_ipv4(&v) {
                Some(o) => Ok(EndpointPlan::Literal(o)),
                None => match parse_ipv6(&v) {
                    Some(o) => Ok(EndpointPlan::Literal(o)),
                    None => Ok(EndpointPlan::Domain(s)),
                },
            }
        },
    }
}

/// The candidates of an IP literal without a port: StartTLS on 5222, then
/// direct TLS on 5223.
pub fn literal_candidates(ip: &Vec<u8>) -> (r: Vec<Candidate>)
    ensures
        keys(r@) == seq![(ip@, 5222u16, false), (ip@, 5223u16, true)],
{
    let mut r: Vec<Candidate> = Vec::new();
    r.push(Candidate { ip: copy_vec(ip), port: 5222, direct_tls: false });
    r.push(Candidate { ip: copy_vec(ip), port: 5223, direct_tls: true });
    proof {
        assert(keys(r@) =~= seq![(ip@, 5222u16, false), (ip@, 5223u16, true)]);
    }
    r
}

/// The candidates of a host's addresses on a port.
pub fn host_candidates(addresses: &Vec<Vec<u8>>, port: u16) -> (r: Vec<Candidate>)
    ensures
        keys(r@) == port_candidates(addresses@.map_values(|a: Vec<u8>| a@), port),
{
    let ghost views = addresses@.map_values(|a: Vec<u8>| a@);
    let mut r: Vec<Candidate> = Vec::new();
    let mut i: usize = 0;
    while i < addresses.len()
        invariant
            i <= addresses.len(),
            views == addresses@.map_values(|a: Vec<u8>| a@),
            keys(r@) == port_candidates(views.take(i as int), port),
        decreases addresses.len() - i,
    {
        let ghost before = r@;
        r.push(Candidate { ip: copy_vec(&addresses[i]), port, direct_tls: port == 5223 });
        proof {
            assert(keys(r@) =~= keys(before).push((views[i as int], port, port == 5223)));
            assert(port_candidates(views.take(i + 1), port) =~= port_candidates(views.take(i as int), port).push(
                (views[i as int], port, port == 5223),
            ));
        }
        i = i + 1;
    }
    proof {
        assert(views.take(i as int) =~= views);
    }
    r
}

/// The candidates of a domain: its addresses on the StartTLS port, then on
/// the direct-TLS port, then the service-record candidates, without
/// repeats; an error when there are none.
pub fn domain_candidates(
    server: &str,
    plain: Vec<Candidate>,
    direct: Vec<Candidate>,
    srv: Vec<Candidate>,
) -> (r: Result<Vec<Candidate>, String>)
    ensures
        (plain@ + direct@ + srv@).len() == 0 ==> (r matches Err(d) && d@
            == "cannot resolve XMPP server "@ + server@),
        (plain@ + direct@ + srv@).len() > 0 ==> (r matches Ok(v) && keys(v@) == first_occurrences(
            keys(plain@ + direct@ + srv@),
        )),
{
    let mut all = plain;
    let mut direct = direct;
    let mut srv = srv;
    let ghost a = all@;
    let ghost b = direct@;
    let ghost c = srv@;
    all.append(&mut direct);
    all.append(&mut srv);
    proof {
        assert(all@ =~= a + b + c);
    }
    if all.len() == 0 {
        return Err("cannot resolve XMPP server ".to_owned().concat(server));
    }
    Ok(dedupe_candidates(all))
}


} // verus!
