//! Coordination of the domain core with a concrete XMPP transport.

use vstd::prelude::*;

use crate::clock::{duration_millis, elapsed, now};
use crate::model::{
    Account, AccountId, ConnectionState, CoreError, CoreEvent, DeliveryState, DisconnectKind,
    Message, MessageId,
};
use crate::proxy::ProxyConfig;
use crate::state::{
    connection_step, event_step, fresh, message_ids, queued_for, queued_messages, CoreState,
    MindChatCore,
};
use crate::transport::{
    transport_error_text, ConnectionRequest, OutgoingMessage, Polled, SecretString, TransportCall,
    TransportError, TransportEvent, XmppTransport,
};

verus! {

/// Milliseconds after which a flush stops starting new sends.
///
/// The transport bounds each send itself, so one send may still run past
/// this budget; the check happens between sends.
pub const FLUSH_SEND_TIMEOUT_MS: u128 = 10_000;

/// Most queued messages sent by one flush.
pub const FLUSH_OUTBOX_MAX_BATCH: usize = 32;

/// Whether a flush starts another send, given how many messages it has
/// sent, how many were queued, and the milliseconds since it started:
/// only while queued messages remain, fewer than a batch have gone out,
/// and the time budget is not spent.
pub fn flush_continues(sent: usize, queued: usize, elapsed_ms: u128) -> (r: bool)
    ensures
        r == (sent < queued && sent < FLUSH_OUTBOX_MAX_BATCH && elapsed_ms < FLUSH_SEND_TIMEOUT_MS),
{
    sent < queued && sent < FLUSH_OUTBOX_MAX_BATCH && elapsed_ms < FLUSH_SEND_TIMEOUT_MS
}

/// Failure while coordinating a domain core with an XMPP transport adapter.
#[derive(Debug, PartialEq, Eq)]
pub enum TransportCoordinatorError {
    Core(CoreError),
    Transport(TransportError),
}

/// The text of a coordination failure.
pub open spec fn coordinator_error_text(e: TransportCoordinatorError) -> Seq<char> {
    match e {
        TransportCoordinatorError::Core(inner) => "core error: "@
            + crate::model::core_error_text(inner),
        TransportCoordinatorError::Transport(inner) => "transport error: "@
            + transport_error_text(inner),
    }
}

impl TransportCoordinatorError {
    /// The message for this error (what the error displays as).
    pub fn message(&self) -> (r: String)
        ensures
            r@ == coordinator_error_text(*self),
    {
        match self {
            TransportCoordinatorError::Core(inner) => "core error: ".to_owned().concat(
                inner.message().as_str(),
            ),
            TransportCoordinatorError::Transport(inner) => "transport error: ".to_owned().concat(
                inner.message().as_str(),
            ),
        }
    }
}

impl From<CoreError> for TransportCoordinatorError {
    fn from(value: CoreError) -> (r: Self)
        ensures
            r == TransportCoordinatorError::Core(value),
    {
        TransportCoordinatorError::Core(value)
    }
}

impl vstd::std_specs::convert::FromSpecImpl<CoreError> for TransportCoordinatorError {
    open spec fn obeys_from_spec() -> bool {
        true
    }

    open spec fn from_spec(value: CoreError) -> Self {
        TransportCoordinatorError::Core(value)
    }
}

impl From<TransportError> for TransportCoordinatorError {
    fn from(value: TransportError) -> (r: Self)
        ensures
            r == TransportCoordinatorError::Transport(value),
    {
        TransportCoordinatorError::Transport(value)
    }
}

impl vstd::std_specs::convert::FromSpecImpl<TransportError> for TransportCoordinatorError {
    open spec fn obeys_from_spec() -> bool {
        true
    }

    open spec fn from_spec(value: TransportError) -> Self {
        TransportCoordinatorError::Transport(value)
    }
}

/// The state with message `message_id` moved to `state`.
pub open spec fn mark(s: CoreState, message_id: MessageId, state: DeliveryState) -> CoreState {
    CoreState {
        messages: s.messages.update(
            s.message_index(message_id),
            Message { delivery_state: state, ..s.message(message_id) },
        ),
        events: s.events.push(CoreEvent::MessageChanged(message_id)),
        ..s
    }
}

/// The state with the first `k` queued messages marked sent, in order.
pub open spec fn marked_sent(s: CoreState, queue: Seq<crate::transport::OutgoingMessage>, k: nat) -> CoreState
    decreases k,
{
    if k == 0 {
        s
    } else {
        mark(
            marked_sent(s, queue, (k - 1) as nat),
            queue[k - 1].message_id,
            DeliveryState::Sent,
        )
    }
}

/// One poll: the answer `r` and the state `s1` that follow from `s0` and what
/// the transport handed back. An event is applied (`Ok(true)`, or
/// `Err(Core(_))` when its application failed); an empty queue answers
/// `Ok(false)` and a channel failure `Err(Transport(_))`, both leaving the
/// state as it was.
pub open spec fn poll_step(
    s0: CoreState,
    s1: CoreState,
    polled: Polled,
    r: Result<bool, TransportCoordinatorError>,
) -> bool {
    match polled {
        Err(e) => r == Err::<bool, TransportCoordinatorError>(TransportCoordinatorError::Transport(e))
            && s1 == s0,
        Ok(None) => r == Ok::<bool, TransportCoordinatorError>(false) && s1 == s0,
        Ok(Some(event)) => exists|x: Result<Option<MessageId>, CoreError>|
            #[trigger] event_step(s0, s1, event, x) && match x {
                Ok(_) => r == Ok::<bool, TransportCoordinatorError>(true),
                Err(e) => r == Err::<bool, TransportCoordinatorError>(
                    TransportCoordinatorError::Core(e),
                ),
            },
    }
}

/// States reached from `s0` by polls that got `polls` from the transport,
/// one after another.
pub open spec fn polled_run(s0: CoreState, s1: CoreState, polls: Seq<Polled>) -> bool
    decreases polls.len(),
{
    if polls.len() == 0 {
        s1 == s0
    } else {
        exists|mid: CoreState, r: Result<bool, TransportCoordinatorError>|
            polled_run(s0, mid, polls.drop_last()) && #[trigger] poll_step(mid, s1, polls.last(), r)
    }
}

/// Whether a poll got an event, which counts as consumed whether or not it applied.
pub open spec fn consumed(polled: Polled) -> bool {
    polled matches Ok(Some(_))
}

/// The answer of a batch of at most `max` events whose polls got `polls`:
/// `max` consumed events answer `Ok(max)`; otherwise every poll but the
/// last consumed an event, and the last found the queue empty (`Ok` of the
/// count before it) or the channel failed (that transport error).
pub open spec fn batch_answer(polls: Seq<Polled>, max: nat, r: Result<usize, TransportCoordinatorError>) -> bool {
    ||| polls.len() == max && (forall|i: int| 0 <= i < polls.len() ==> #[trigger] consumed(polls[i]))
        && (r matches Ok(n) && n == max)
    ||| 0 < polls.len() <= max && (forall|i: int| 0 <= i < polls.len() - 1 ==> #[trigger] consumed(polls[i]))
        && match polls.last() {
            Ok(None) => r matches Ok(n) && n == polls.len() - 1,
            Err(e) => r == Err::<usize, TransportCoordinatorError>(TransportCoordinatorError::Transport(e)),
            Ok(Some(_)) => false,
        }
}

/// An accepted request's answer is `Ok(())`.
proof fn lemma_accepted(answer: Result<(), TransportError>)
    requires
        answer is Ok,
    ensures
        answer == Ok::<(), TransportError>(()),
{
    let u: () = answer->Ok_0;
    assert(u == ());
}

/// Moving an account through the connection lifecycle keeps the account ids.
proof fn lemma_connection_step_keeps(s: CoreState, account_id: AccountId, state: ConnectionState)
    requires
        s.has_account(account_id),
    ensures
        crate::state::account_ids(connection_step(s, account_id, state).accounts)
            == crate::state::account_ids(s.accounts),
        connection_step(s, account_id, state).has_account(account_id),
{
    crate::state::lemma_has_index(crate::state::account_ids(s.accounts), account_id);
    assert(crate::state::account_ids(connection_step(s, account_id, state).accounts)
        =~= crate::state::account_ids(s.accounts));
}

/// Marking an existing message keeps the message ids.
proof fn lemma_mark_ids(s: CoreState, message_id: MessageId, state: DeliveryState)
    requires
        s.has_message(message_id),
    ensures
        message_ids(mark(s, message_id, state).messages) == message_ids(s.messages),
{
    crate::state::lemma_has_index(message_ids(s.messages), message_id);
    assert(message_ids(mark(s, message_id, state).messages) =~= message_ids(s.messages));
}

/// The queued messages of an account are messages of the state.
proof fn lemma_queued_exist(s: CoreState, account_id: AccountId)
    ensures
        forall|k: int|
            0 <= k < queued_messages(s, account_id).len() ==> s.has_message(
                #[trigger] queued_messages(s, account_id)[k].message_id,
            ),
{
    let f = s.messages.filter(queued_for(s, account_id));
    assert forall|k: int| 0 <= k < queued_messages(s, account_id).len() implies s.has_message(
        #[trigger] queued_messages(s, account_id)[k].message_id,
    ) by {
        let m = f[k];
        assert(f.contains(m));
        s.messages.lemma_filter_contains_rev(queued_for(s, account_id), m);
        let i = choose|i: int| 0 <= i < s.messages.len() && s.messages[i] == m;
        assert(message_ids(s.messages)[i] == m.id);
    }
}

/// One transport event allocates at most one conversation id and one message id.
proof fn lemma_event_step_ids(
    s0: CoreState,
    s1: CoreState,
    event: TransportEvent,
    x: Result<Option<MessageId>, CoreError>,
)
    requires
        event_step(s0, s1, event, x),
        s0.conversation_headroom(),
        s0.message_headroom(),
    ensures
        s1.next_conversation_id <= fresh(s0.next_conversation_id) + 1,
        s1.next_message_id <= fresh(s0.next_message_id) + 1,
        s0.next_conversation_id <= s1.next_conversation_id,
        s0.next_message_id <= s1.next_message_id,
{
    match event {
        TransportEvent::RosterContactUpsert { account_id, jid, display_name, subscription } => {
            if s0.has_account(account_id) && crate::rules::jid_ok(jid@) {
                let c = choose|c: crate::model::Contact|
                    #[trigger] crate::state::contact_with(
                        c,
                        account_id,
                        jid@,
                        display_name@,
                        s0.kept_presence(account_id, jid@),
                        s0.kept_status(account_id, jid@),
                        subscription,
                    ) && s1 == (CoreState {
                        contacts: crate::state::upserted(s0.contacts, c),
                        events: s0.events.push(CoreEvent::RosterChanged(account_id)),
                        ..s0
                    });
            }
        },
        _ => {},
    }
}

/// A core coordinated with a concrete XMPP transport. Credentials are kept
/// only for the duration of a connect call.
pub struct TransportCoordinator<T> {
    core: MindChatCore,
    transport: T,
    /// The elapsed milliseconds that the last flush read off the clock, one
    /// per decision whether to send the next message.
    flush_clock: Ghost<Seq<u128>>,
}

impl<T> TransportCoordinator<T> {
    /// The coordinated core.
    pub closed spec fn core_value(self) -> MindChatCore {
        self.core
    }

    /// The abstract state of the coordinated core.
    pub closed spec fn core_state(self) -> CoreState {
        self.core@
    }

    /// The coordinated transport.
    pub closed spec fn transport_value(self) -> T {
        self.transport
    }

    /// The elapsed times (milliseconds) that the last flush read before
    /// each decision whether to send the next message, in order.
    pub closed spec fn flush_readings(self) -> Seq<u128> {
        self.flush_clock@
    }

    /// Creates a coordinator from independently configured core and transport values.
    pub fn new(core: MindChatCore, transport: T) -> (r: Self)
        ensures
            r.core_value() == core,
            r.core_state() == core@,
            r.transport_value() == transport,
    {
        TransportCoordinator { core, transport, flush_clock: Ghost(Seq::empty()) }
    }

    /// Returns the domain state projection.
    pub fn core_ref(&self) -> (r: &MindChatCore)
        ensures
            *r == self.core_value(),
            r@ == self.core_state(),
    {
        &self.core
    }

    /// Returns mutable domain state for controlled setup and restoration.
    pub fn core_mut(&mut self) -> (r: &mut MindChatCore)
        ensures
            *r == old(self).core_value(),
            final(self).core_value() == *final(r),
            final(self).core_state() == final(r)@,
            final(self).transport_value() == old(self).transport_value(),
    {
        &mut self.core
    }

    /// Returns the owned XMPP transport adapter.
    pub fn transport(&self) -> (r: &T)
        ensures
            *r == self.transport_value(),
    {
        &self.transport
    }

    /// Returns mutable transport access for adapter configuration and tests.
    pub fn transport_mut(&mut self) -> (r: &mut T)
        ensures
            *r == old(self).transport_value(),
            final(self).transport_value() == *final(r),
            final(self).core_value() == old(self).core_value(),
            final(self).core_state() == old(self).core_state(),
    {
        &mut self.transport
    }

    /// Splits the coordinator back into its state and transport values.
    pub fn into_parts(self) -> (r: (MindChatCore, T))
        ensures
            r.0 == self.core_value(),
            r.0@ == self.core_state(),
            r.1 == self.transport_value(),
    {
        (self.core, self.transport)
    }
}

impl<T: XmppTransport> TransportCoordinator<T> {
    /// Starts an account connection without storing the password in the core.
    pub fn connect(&mut self, account_id: AccountId, password: SecretString) -> (r: Result<
        (),
        TransportCoordinatorError,
    >)
        requires
            old(self).core_state().wf(),
        ensures
            final(self).core_state().wf(),
            connect_outcome(old(self).core_state(), final(self).core_state(), account_id, r),
            old(self).core_state().has_account(account_id) && T::keeps_record() ==> final(self).transport_value().requests() == old(self).transport_value().requests().push(
                TransportCall::Connect(
                    request_for(old(self).core_state(), account_id, password, None, None),
                    transport_answer(r),
                ),
            ),
            !old(self).core_state().has_account(account_id) ==> final(self).transport_value()
                == old(self).transport_value(),
    {
        self.connect_with_proxy(account_id, password, None, None)
    }

    /// Starts an account connection, optionally through a proxy tunnel. The
    /// account password and the proxy password go to the transport only.
    pub fn connect_with_proxy(
        &mut self,
        account_id: AccountId,
        password: SecretString,
        proxy: Option<ProxyConfig>,
        proxy_password: Option<SecretString>,
    ) -> (r: Result<(), TransportCoordinatorError>)
        requires
            old(self).core_state().wf(),
        ensures
            final(self).core_state().wf(),
            connect_outcome(old(self).core_state(), final(self).core_state(), account_id, r),
            old(self).core_state().has_account(account_id) && T::keeps_record() ==> final(self).transport_value().requests() == old(self).transport_value().requests().push(
                TransportCall::Connect(
                    request_for(old(self).core_state(), account_id, password, proxy, proxy_password),
                    transport_answer(r),
                ),
            ),
            !old(self).core_state().has_account(account_id) ==> final(self).transport_value()
                == old(self).transport_value(),
    {
        let request = match self.core.connection_request(
            account_id,
            password,
            proxy,
            proxy_password,
        ) {
            Ok(request) => request,
            Err(e) => return Err(TransportCoordinatorError::Core(e)),
        };
        let _ = self.core.set_connection_state(account_id, ConnectionState::Connecting);
        proof {
            lemma_connection_step_keeps(old(self).core_state(), account_id, ConnectionState::Connecting);
        }
        let answer = self.transport.connect(request);
        match answer {
            Ok(()) => {
                proof {
                    lemma_accepted(answer);
                }
                Ok(())
            },
            Err(error) => {
                let _ = self.core.set_connection_state(account_id, ConnectionState::Failed);
                Err(TransportCoordinatorError::Transport(error))
            },
        }
    }

    /// Disconnects an account and projects a local offline state.
    pub fn disconnect(&mut self, account_id: AccountId) -> (r: Result<(), TransportCoordinatorError>)
        requires
            old(self).core_state().wf(),
        ensures
            final(self).core_state().wf(),
            r is Err ==> (r matches Err(TransportCoordinatorError::Transport(_)))
                && final(self).core_state() == old(self).core_state(),
            r is Ok ==> final(self).core_state() == cancelled(old(self).core_state(), account_id),
            T::keeps_record() ==> final(self).transport_value().requests() == old(self).transport_value().requests().push(
                TransportCall::Disconnect(account_id, transport_answer(r)),
            ),
    {
        let answer = self.transport.disconnect(account_id);
        proof {
            assert(T::keeps_record() ==> self.transport.requests() == old(self).transport_value().requests().push(
                TransportCall::Disconnect(account_id, answer)));
        }
        if let Err(error) = answer {
            assert(transport_answer(Err(TransportCoordinatorError::Transport(error))) == answer);
            return Err(TransportCoordinatorError::Transport(error));
        }
        proof {
            lemma_accepted(answer);
        }
        let _ = self.core.apply_transport_event(
            TransportEvent::Disconnected {
                account_id,
                recoverable: true,
                detail: None,
                kind: DisconnectKind::Cancelled,
            },
        );
        Ok(())
    }

    /// Sends pending or retryable text of an account in message-id order.
    ///
    /// At most [`FLUSH_OUTBOX_MAX_BATCH`] messages go out per call, and no
    /// new send starts once [`FLUSH_SEND_TIMEOUT_MS`] have passed. Each sent
    /// message is marked `Sent`; a send failure marks that message `Failed`
    /// and ends the call. Messages left behind stay queued for the next call.
    /// Before each send, `flush_continues` decides from the time read off
    /// the clock whether the flush goes on.
    pub fn flush_outbox(&mut self, account_id: AccountId) -> (r: Result<
        usize,
        TransportCoordinatorError,
    >)
        requires
            old(self).core_state().wf(),
        ensures
            final(self).core_state().wf(),
            !old(self).core_state().has_account(account_id) ==> r == Err::<
                usize,
                TransportCoordinatorError,
            >(TransportCoordinatorError::Core(CoreError::UnknownAccount(account_id)))
                && final(self).core_state() == old(self).core_state(),
            !old(self).core_state().has_account(account_id) ==> final(self).transport_value()
                == old(self).transport_value(),
            old(self).core_state().has_account(account_id) ==> {
                let q = queued_messages(old(self).core_state(), account_id);
                let before = old(self).transport_value().requests();
                let after = final(self).transport_value().requests();
                let clock = final(self).flush_readings();
                match r {
                    Ok(n) => n <= FLUSH_OUTBOX_MAX_BATCH && n <= q.len() && final(self).core_state()
                        == marked_sent(old(self).core_state(), q, n as nat) && (T::keeps_record()
                        ==> after == before + send_calls(q.take(n as int)))
                        && n <= clock.len() && (forall|i: int|
                        0 <= i < n ==> #[trigger] clock[i] < FLUSH_SEND_TIMEOUT_MS) && ((n < q.len()
                        && n < FLUSH_OUTBOX_MAX_BATCH) ==> clock.len() == n + 1 && clock[n as int]
                        >= FLUSH_SEND_TIMEOUT_MS) && ((forall|i: int|
                        0 <= i < clock.len() ==> #[trigger] clock[i] < FLUSH_SEND_TIMEOUT_MS) ==> n == (
                    if q.len() < FLUSH_OUTBOX_MAX_BATCH {
                        q.len()
                    } else {
                        FLUSH_OUTBOX_MAX_BATCH as nat
                    })),
                    Err(TransportCoordinatorError::Transport(e)) => exists|k: nat|
                        k < FLUSH_OUTBOX_MAX_BATCH && k < q.len() && final(self).core_state()
                            == mark(
                            #[trigger] marked_sent(old(self).core_state(), q, k),
                            q[k as int].message_id,
                            DeliveryState::Failed,
                        ) && (T::keeps_record() ==> after == (before + send_calls(q.take(k as int))).push(
                            TransportCall::Send(q[k as int], Err(e)),
                        )) && clock.len() == k + 1 && (forall|i: int|
                            0 <= i <= k ==> #[trigger] clock[i] < FLUSH_SEND_TIMEOUT_MS),
                    Err(TransportCoordinatorError::Core(_)) => false,
                }
            },
    {
        let pending = match self.core.pending_outgoing_messages(account_id) {
            Ok(v) => v,
            Err(e) => return Err(TransportCoordinatorError::Core(e)),
        };
        let ghost s0 = self.core@;
        let ghost q = queued_messages(s0, account_id);
        proof {
            lemma_queued_exist(s0, account_id);
        }
        let started = now();
        proof {
            self.flush_clock@ = Seq::empty();
        }
        let mut sent_count: usize = 0;
        while sent_count < pending.len() && sent_count < FLUSH_OUTBOX_MAX_BATCH
            invariant
                self.core@.wf(),
                s0 == old(self).core_state(),
                s0.has_account(account_id),
                pending@ == q,
                q == queued_messages(s0, account_id),
                sent_count <= q.len(),
                sent_count <= FLUSH_OUTBOX_MAX_BATCH,
                self.core@ == marked_sent(s0, q, sent_count as nat),
                message_ids(self.core@.messages) == message_ids(s0.messages),
                forall|k: int| 0 <= k < q.len() ==> s0.has_message(#[trigger] q[k].message_id),
                T::keeps_record() ==> self.transport.requests() == old(self).transport_value().requests()
                    + send_calls(q.take(sent_count as int)),
                self.flush_clock@.len() == sent_count,
                forall|i: int| 0 <= i < sent_count ==> #[trigger] self.flush_clock@[i] < FLUSH_SEND_TIMEOUT_MS,
            decreases pending.len() - sent_count,
        {
            let elapsed_ms = duration_millis(&elapsed(&started));
            proof {
                self.flush_clock@ = self.flush_clock@.push(elapsed_ms);
            }
            if !flush_continues(sent_count, pending.len(), elapsed_ms) {
                return Ok(sent_count);
            }
            let message = pending[sent_count].clone();
            let message_id = message.message_id;
            proof {
                assert(self.core@.has_message(message_id));
            }
            proof {
                assert(q.take(sent_count + 1) =~= q.take(sent_count as int).push(message));
                assert(send_calls(q.take(sent_count + 1)) =~= send_calls(q.take(sent_count as int)).push(
                    TransportCall::Send(message, Ok(())),
                ));
            }
            let answer = self.transport.send(message);
            match answer {
                Err(error) => {
                    let _ = self.core.set_delivery_state(message_id, DeliveryState::Failed);
                    return Err(TransportCoordinatorError::Transport(error));
                },
                Ok(()) => {
                    proof {
                        lemma_accepted(answer);
                    }
                    let ghost before = self.core@;
                    let _ = self.core.set_delivery_state(message_id, DeliveryState::Sent);
                    proof {
                        lemma_mark_ids(before, message_id, DeliveryState::Sent);
                    }
                },
            }
            sent_count = sent_count + 1;
        }
        Ok(sent_count)
    }

    /// Applies what one poll of the transport handed back: an event is
    /// applied to the domain state, an empty queue or a channel failure
    /// leaves it as it was.
    ///
    /// `Ok(true)`: the event was applied; `Ok(false)`: the queue was empty;
    /// `Err(Core(_))`: the event's application failed;
    /// `Err(Transport(_))`: the transport channel failed.
    #[verifier::spinoff_prover]
    pub fn apply_polled(&mut self, polled: Polled) -> (r: Result<bool, TransportCoordinatorError>)
        requires
            old(self).core_state().wf(),
            old(self).core_state().conversation_headroom(),
            old(self).core_state().message_headroom(),
        ensures
            final(self).core_state().wf(),
            poll_step(old(self).core_state(), final(self).core_state(), polled, r),
            final(self).transport_value() == old(self).transport_value(),
    {
        let event = match polled {
            Ok(Some(event)) => event,
            Ok(None) => return Ok(false),
            Err(error) => return Err(TransportCoordinatorError::Transport(error)),
        };
        match self.core.apply_transport_event(event) {
            Ok(_) => Ok(true),
            Err(e) => Err(TransportCoordinatorError::Core(e)),
        }
    }

    /// Polls one transport event and applies it to the domain state.
    ///
    /// What the transport hands back decides the answer, as `apply_polled`
    /// states for each value of it: `Ok(true)`: an event was applied;
    /// `Ok(false)`: the queue is empty; `Err(Core(_))`: the event was taken
    /// but its application failed; `Err(Transport(_))`: the transport
    /// channel failed.
    #[verifier::spinoff_prover]
    #[verifier::rlimit(30)]
    pub fn poll_next_event(&mut self) -> (r: Result<bool, TransportCoordinatorError>)
        requires
            old(self).core_state().wf(),
            old(self).core_state().conversation_headroom(),
            old(self).core_state().message_headroom(),
        ensures
            final(self).core_state().wf(),
            exists|polled: Polled|
                #[trigger] poll_step(old(self).core_state(), final(self).core_state(), polled, r)
                    && (T::keeps_record() ==> final(self).transport_value().requests() == old(self).transport_value().requests().push(TransportCall::NextEvent(polled))),
    {
        let polled = self.transport.next_event();
        let ghost got = polled;
        let r = self.apply_polled(polled);
        proof {
            assert(poll_step(old(self).core_state(), self.core@, got, r));
        }
        r
    }

    /// Applies up to `max_events` queued transport events.
    ///
    /// A failing event is consumed and skipped, so events queued behind a
    /// malformed stanza still apply in the same cycle. Only a transport
    /// channel failure ends the loop early with an error. Returns the number
    /// of events consumed.
    pub fn poll_transport_events(&mut self, max_events: usize) -> (r: Result<
        usize,
        TransportCoordinatorError,
    >)
        requires
            old(self).core_state().wf(),
            fresh(old(self).core_state().next_conversation_id) + max_events < u64::MAX,
            fresh(old(self).core_state().next_message_id) + max_events < u64::MAX,
        ensures
            final(self).core_state().wf(),
            exists|polls: Seq<Polled>|
                #[trigger] polled_run(old(self).core_state(), final(self).core_state(), polls)
                    && batch_answer(polls, max_events as nat, r)
                    && (T::keeps_record() ==> final(self).transport_value().requests() == old(self).transport_value().requests() + poll_calls(polls)),
    {
        let ghost s0 = self.core@;
        let ghost mut polls: Seq<Polled> = Seq::empty();
        let mut processed: usize = 0;
        while processed < max_events
            invariant
                self.core@.wf(),
                s0 == old(self).core_state(),
                processed <= max_events,
                fresh(s0.next_conversation_id) + max_events < u64::MAX,
                fresh(s0.next_message_id) + max_events < u64::MAX,
                fresh(self.core@.next_conversation_id) <= fresh(s0.next_conversation_id)
                    + processed,
                fresh(self.core@.next_message_id) <= fresh(s0.next_message_id) + processed,
                polls.len() == processed,
                forall|i: int| 0 <= i < polls.len() ==> #[trigger] consumed(polls[i]),
                polled_run(s0, self.core@, polls),
                T::keeps_record() ==> self.transport.requests() == old(self).transport_value().requests()
                    + poll_calls(polls),
            decreases max_events - processed,
        {
            let ghost before = self.core@;
            let ghost asked = self.transport.requests();
            let step = self.poll_next_event();
            let ghost polled = choose|polled: Polled|
                #[trigger] poll_step(before, self.core@, polled, step) && (T::keeps_record()
                    ==> self.transport.requests() == asked.push(TransportCall::NextEvent(polled)));
            proof {
                let next = polls.push(polled);
                assert(poll_calls(next) =~= poll_calls(polls).push(TransportCall::NextEvent(polled)));
                assert(next.drop_last() =~= polls);
                assert(poll_step(before, self.core@, next.last(), step));
                assert(polled_run(s0, self.core@, next));
            }
            match step {
                Ok(false) => {
                    proof {
                        polls = polls.push(polled);
                        assert(batch_answer(polls, max_events as nat, Ok::<usize, TransportCoordinatorError>(processed)));
                    }
                    return Ok(processed);
                },
                Err(TransportCoordinatorError::Transport(error)) => {
                    proof {
                        polls = polls.push(polled);
                        assert(batch_answer(polls, max_events as nat, Err::<usize, TransportCoordinatorError>(TransportCoordinatorError::Transport(error))));
                    }
                    return Err(TransportCoordinatorError::Transport(error));
                },
                _ => {
                    proof {
                        let event = polled->Ok_0->Some_0;
                        let x = choose|x: Result<Option<MessageId>, CoreError>|
                            #[trigger] event_step(before, self.core@, event, x);
                        lemma_event_step_ids(before, self.core@, event, x);
                        polls = polls.push(polled);
                    }
                    processed = processed + 1;
                },
            }
        }
        proof {
            assert(batch_answer(polls, max_events as nat, Ok::<usize, TransportCoordinatorError>(processed)));
            assert(polled_run(old(self).core_state(), self.core_state(), polls));
            assert(T::keeps_record() ==> self.transport_value().requests() == old(self).transport_value().requests()
                + poll_calls(polls));
        }
        Ok(processed)
    }
}

/// The request a connect of the known account `account_id` hands the
/// transport: the account's address, server and reconnect setting, with
/// the passwords and the proxy as given.
pub open spec fn request_for(
    s: CoreState,
    account_id: AccountId,
    password: SecretString,
    proxy: Option<ProxyConfig>,
    proxy_password: Option<SecretString>,
) -> ConnectionRequest {
    ConnectionRequest {
        account_id,
        jid: s.account(account_id).jid,
        server: s.account(account_id).server,
        password,
        auto_reconnect: s.account(account_id).auto_reconnect,
        proxy,
        proxy_password,
    }
}

/// Send requests for the messages of `q`, in order, each accepted.
pub open spec fn send_calls(q: Seq<OutgoingMessage>) -> Seq<TransportCall> {
    q.map_values(|m: OutgoingMessage| TransportCall::Send(m, Ok(())))
}

/// Requests for the next event that were answered with `polls`, in order.
pub open spec fn poll_calls(polls: Seq<Polled>) -> Seq<TransportCall> {
    polls.map_values(|p: Polled| TransportCall::NextEvent(p))
}

/// The transport's answer behind a coordinator result that only passes a
/// transport error on: success, or that error.
pub open spec fn transport_answer(r: Result<(), TransportCoordinatorError>) -> Result<(), TransportError> {
    match r {
        Err(TransportCoordinatorError::Transport(e)) => Err(e),
        _ => Ok(()),
    }
}

/// What a connect answers, and the state it leaves behind, for every
/// outcome of the transport's connect.
pub open spec fn connect_outcome(
    s0: CoreState,
    s1: CoreState,
    account_id: AccountId,
    r: Result<(), TransportCoordinatorError>,
) -> bool {
    if !s0.has_account(account_id) {
        r == Err::<(), TransportCoordinatorError>(
            TransportCoordinatorError::Core(CoreError::UnknownAccount(account_id)),
        ) && s1 == s0
    } else {
        match r {
            Ok(()) => s1 == connection_step(s0, account_id, ConnectionState::Connecting),
            Err(TransportCoordinatorError::Transport(_)) => s1 == connection_step(
                connection_step(s0, account_id, ConnectionState::Connecting),
                account_id,
                ConnectionState::Failed,
            ),
            Err(TransportCoordinatorError::Core(_)) => false,
        }
    }
}

/// The state after a user-requested disconnect of `account_id`.
pub open spec fn cancelled(s: CoreState, account_id: AccountId) -> CoreState {
    if s.has_account(account_id) {
        s.with_account(
            account_id,
            Account {
                connection_state: ConnectionState::Offline,
                connection_error: None,
                disconnect_kind: Some(DisconnectKind::Cancelled),
                ..s.account(account_id)
            },
            CoreEvent::AccountChanged(account_id),
        )
    } else {
        s
    }
}

} // verus!
