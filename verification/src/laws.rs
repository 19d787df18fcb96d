//! Properties of the domain core that span its operations.

use vstd::prelude::*;

use crate::addr::{ipv4_octets, ipv6_octets};
use crate::proxy::{
    connect_request_bytes, strategy_name, strategy_named, ConnectStrategy, SOCKS5_ATYP_DOMAIN,
    SOCKS5_CMD_CONNECT, SOCKS5_VERSION,
};
use vstd::utf8::encode_utf8;
use crate::keyed::{
    at_least, key_pos, keys_increasing, lemma_first_where, lemma_first_where_unique, restored,
    upsert_keyed, Keyed,
};
use crate::model::{
    AccountId, ConversationId, ConversationKind, DeliveryState, MessageId, rank_of,
};
use crate::state::{
    account_ids, contact_lt, contact_pos, contacts_restored, contacts_sorted, conversation_for,
    conversation_ids, conversation_lookup, fresh, lemma_index_of, message_ids, new_conversation,
    not_below, open_conversation_outcome, owned_by, queued_for, queued_messages, reaction_ids,
    receipt_step, upserted, with_new_conversation, without_conversations, CoreState,
};

verus! {

/// Restoring records that are already in increasing key order gives them back unchanged.
pub proof fn lemma_restore_sorted_keyed<T: Keyed>(s: Seq<T>)
    requires
        keys_increasing(s),
    ensures
        restored(s) == s,
    decreases s.len(),
{
    if s.len() > 0 {
        let t = s.drop_last();
        assert(keys_increasing(t));
        lemma_restore_sorted_keyed(t);
        let x = s.last();
        lemma_first_where_unique(t, at_least::<T>(x.key_of()), t.len() as int);
        assert(key_pos(t, x.key_of()) == t.len());
        assert(upsert_keyed(t, x) =~= s);
    }
}

/// Restoring contacts that are already sorted gives them back unchanged.
pub proof fn lemma_restore_sorted_contacts(s: Seq<crate::model::Contact>)
    requires
        contacts_sorted(s),
    ensures
        contacts_restored(s) == s,
    decreases s.len(),
{
    if s.len() > 0 {
        let t = s.drop_last();
        assert(contacts_sorted(t));
        lemma_restore_sorted_contacts(t);
        let x = s.last();
        assert forall|k: int| 0 <= k < t.len() implies !not_below(x.account_id, x.jid@)(
            #[trigger] t[k],
        ) by {
            assert(contact_lt(s[k], s[s.len() - 1]));
        }
        lemma_first_where_unique(t, not_below(x.account_id, x.jid@), t.len() as int);
        assert(contact_pos(t, x.account_id, x.jid@) == t.len());
        assert(upserted(t, x) =~= s);
    }
}

/// A snapshot of a well-formed core restores to the same records: every
/// list of a well-formed state is its own restoration.
pub proof fn lemma_snapshot_round_trip(s: CoreState)
    requires
        s.wf(),
    ensures
        restored(s.accounts) == s.accounts,
        contacts_restored(s.contacts) == s.contacts,
        restored(s.conversations) == s.conversations,
        restored(s.messages) == s.messages,
        restored(s.reactions) == s.reactions,
{
    assert(keys_increasing(s.accounts)) by {
        assert forall|i: int, j: int| 0 <= i < j < s.accounts.len() implies s.accounts[i].key_of()
            < s.accounts[j].key_of() by {
            assert(account_ids(s.accounts)[i] < account_ids(s.accounts)[j]);
        }
    }
    assert(keys_increasing(s.conversations)) by {
        assert forall|i: int, j: int|
            0 <= i < j < s.conversations.len() implies s.conversations[i].key_of()
            < s.conversations[j].key_of() by {
            assert(conversation_ids(s.conversations)[i] < conversation_ids(s.conversations)[j]);
        }
    }
    assert(keys_increasing(s.messages)) by {
        assert forall|i: int, j: int| 0 <= i < j < s.messages.len() implies s.messages[i].key_of()
            < s.messages[j].key_of() by {
            assert(message_ids(s.messages)[i] < message_ids(s.messages)[j]);
        }
    }
    assert(keys_increasing(s.reactions)) by {
        assert forall|i: int, j: int|
            0 <= i < j < s.reactions.len() implies s.reactions[i].key_of()
            < s.reactions[j].key_of() by {
            assert(reaction_ids(s.reactions)[i] < reaction_ids(s.reactions)[j]);
        }
    }
    lemma_restore_sorted_keyed(s.accounts);
    lemma_restore_sorted_contacts(s.contacts);
    lemma_restore_sorted_keyed(s.conversations);
    lemma_restore_sorted_keyed(s.messages);
    lemma_restore_sorted_keyed(s.reactions);
}

/// The next id of each kind is free: no stored record carries it.
pub proof fn lemma_fresh_ids_are_unused(s: CoreState)
    requires
        s.wf(),
    ensures
        !s.has_account(fresh(s.next_account_id)),
        !s.has_conversation(fresh(s.next_conversation_id)),
        !s.has_message(fresh(s.next_message_id)),
        !reaction_ids(s.reactions).contains(fresh(s.next_reaction_id)),
{
    if s.has_account(fresh(s.next_account_id)) {
        let i = choose|i: int|
            0 <= i < account_ids(s.accounts).len() && account_ids(s.accounts)[i] == fresh(
                s.next_account_id,
            );
        assert(account_ids(s.accounts)[i] < s.next_account_id);
    }
    if s.has_conversation(fresh(s.next_conversation_id)) {
        let i = choose|i: int|
            0 <= i < conversation_ids(s.conversations).len() && conversation_ids(
                s.conversations,
            )[i] == fresh(s.next_conversation_id);
        assert(conversation_ids(s.conversations)[i] < s.next_conversation_id);
    }
    if s.has_message(fresh(s.next_message_id)) {
        let i = choose|i: int|
            0 <= i < message_ids(s.messages).len() && message_ids(s.messages)[i] == fresh(
                s.next_message_id,
            );
        assert(message_ids(s.messages)[i] < s.next_message_id);
    }
    if reaction_ids(s.reactions).contains(fresh(s.next_reaction_id)) {
        let i = choose|i: int|
            0 <= i < reaction_ids(s.reactions).len() && reaction_ids(s.reactions)[i] == fresh(
                s.next_reaction_id,
            );
        assert(reaction_ids(s.reactions)[i] < s.next_reaction_id);
    }
}

/// Deleting an account leaves no conversation of it, no message in one of
/// its conversations, and no reaction to such a message.
pub proof fn lemma_delete_account_cascades(s: CoreState, account_id: AccountId)
    requires
        s.wf(),
    ensures
        ({
            let t = without_conversations(s, owned_by(s, account_id));
            &&& forall|i: int|
                0 <= i < t.conversations.len() ==> (#[trigger] t.conversations[i]).account_id
                    != account_id
            &&& forall|i: int|
                0 <= i < t.messages.len() ==> !owned_by(s, account_id)(
                    (#[trigger] t.messages[i]).conversation_id,
                )
            &&& forall|i: int|
                0 <= i < t.reactions.len() ==> !(s.has_message(
                    (#[trigger] t.reactions[i]).message_id,
                ) && owned_by(s, account_id)(s.message(t.reactions[i].message_id).conversation_id))
        }),
{
    let d = owned_by(s, account_id);
    let t = without_conversations(s, d);
    let cp = |c: crate::model::Conversation| !d(c.id);
    assert forall|i: int|
        0 <= i < t.conversations.len() implies (#[trigger] t.conversations[i]).account_id
        != account_id by {
        let c = t.conversations[i];
        s.conversations.lemma_filter_pred(cp, i);
        assert(s.conversations.filter(cp).contains(c));
        s.conversations.lemma_filter_contains_rev(cp, c);
        let k = choose|k: int| 0 <= k < s.conversations.len() && s.conversations[k] == c;
        assert(conversation_ids(s.conversations)[k] == c.id);
        lemma_index_of(conversation_ids(s.conversations), k);
    }
    let mp = |m: crate::model::Message| !d(m.conversation_id);
    assert forall|i: int|
        0 <= i < t.messages.len() implies !d((#[trigger] t.messages[i]).conversation_id) by {
        s.messages.lemma_filter_pred(mp, i);
    }
    let rp = |r: crate::model::Reaction| !crate::state::reaction_doomed(s, d)(r);
    assert forall|i: int|
        0 <= i < t.reactions.len() implies !(s.has_message(
            (#[trigger] t.reactions[i]).message_id,
        ) && d(s.message(t.reactions[i].message_id).conversation_id)) by {
        s.reactions.lemma_filter_pred(rp, i);
    }
}

/// A delivery receipt never lowers the state of any message, and applying
/// the same receipt twice has the effect of applying it once.
pub proof fn lemma_receipts_monotone_and_idempotent(
    s0: CoreState,
    s1: CoreState,
    s2: CoreState,
    account_id: AccountId,
    sender: Seq<char>,
    message_id: MessageId,
    state: DeliveryState,
)
    requires
        s0.wf(),
        receipt_step(s0, s1, account_id, sender, message_id, state),
        receipt_step(s1, s2, account_id, sender, message_id, state),
    ensures
        s1.messages.len() == s0.messages.len(),
        forall|i: int|
            0 <= i < s0.messages.len() ==> rank_of(s0.messages[i].delivery_state) <= rank_of(
                (#[trigger] s1.messages[i]).delivery_state,
            ),
        s2 == s1,
{
    if crate::state::receipt_applies(s0, account_id, sender, message_id, state) {
        crate::state::lemma_has_index(message_ids(s0.messages), message_id);
        let k = s0.message_index(message_id);
        assert(message_ids(s1.messages) =~= message_ids(s0.messages));
        assert(s1.message_index(message_id) == k);
        assert(s1.message(message_id).delivery_state == state);
    }
}

/// Opening the same conversation again answers the same id and changes nothing.
pub proof fn lemma_open_conversation_idempotent(
    s0: CoreState,
    s1: CoreState,
    c: crate::model::Conversation,
    account_id: AccountId,
    kind: ConversationKind,
    address: Seq<char>,
    title: Seq<char>,
    now_epoch_ms: u64,
)
    requires
        s0.wf(),
        open_conversation_outcome(s0, account_id, kind, address) is Ok,
        conversation_lookup(s0.conversations, account_id, kind, address) == s0.conversations.len(),
        new_conversation(
            c,
            fresh(s0.next_conversation_id),
            account_id,
            kind,
            address,
            title,
            now_epoch_ms,
        ),
        s1 == with_new_conversation(s0, c, fresh(s0.next_conversation_id)),
    ensures
        open_conversation_outcome(s1, account_id, kind, address) == open_conversation_outcome(
            s0,
            account_id,
            kind,
            address,
        ),
        conversation_lookup(s1.conversations, account_id, kind, address)
            < s1.conversations.len(),
{
    let p = conversation_for(account_id, kind, address);
    lemma_first_where(s0.conversations, p);
    assert forall|k: int| 0 <= k < s0.conversations.len() implies !p(
        #[trigger] s1.conversations[k],
    ) by {
        assert(s1.conversations[k] == s0.conversations[k]);
    }
    lemma_first_where_unique(s1.conversations, p, s0.conversations.len() as int);
    assert(account_ids(s1.accounts) == account_ids(s0.accounts));
}

/// The queued messages of an account are in increasing message-id order,
/// and each is an outgoing pending or failed message of that account.
pub proof fn lemma_queue_ordered(s: CoreState, account_id: AccountId)
    requires
        s.wf(),
    ensures
        forall|i: int, j: int|
            0 <= i < j < queued_messages(s, account_id).len() ==> queued_messages(s, account_id)[i].message_id
                < queued_messages(s, account_id)[j].message_id,
        forall|i: int|
            0 <= i < queued_messages(s, account_id).len() ==> (#[trigger] queued_messages(
                s,
                account_id,
            )[i]).account_id == account_id,
{
    let p = queued_for(s, account_id);
    let f = s.messages.filter(p);
    lemma_filter_increasing(s.messages, p);
    assert forall|i: int, j: int|
        0 <= i < j < queued_messages(s, account_id).len() implies queued_messages(s, account_id)[i].message_id
        < queued_messages(s, account_id)[j].message_id by {
        assert(f[i].id < f[j].id);
    }
}

/// Filtering keeps message ids increasing.
proof fn lemma_filter_increasing(s: Seq<crate::model::Message>, p: spec_fn(crate::model::Message) -> bool)
    requires
        crate::state::increasing(message_ids(s)),
    ensures
        forall|i: int, j: int|
            0 <= i < j < s.filter(p).len() ==> s.filter(p)[i].id < s.filter(p)[j].id,
    decreases s.len(),
{
    if s.len() > 0 {
        let t = s.drop_last();
        assert(message_ids(t) =~= message_ids(s).drop_last());
        lemma_filter_increasing(t, p);
        reveal_with_fuel(Seq::filter, 1);
        if p(s.last()) {
            assert forall|i: int, j: int|
                0 <= i < j < s.filter(p).len() implies s.filter(p)[i].id < s.filter(p)[j].id by {
                if j == s.filter(p).len() - 1 {
                    let m = t.filter(p)[i];
                    assert(t.filter(p).contains(m));
                    t.lemma_filter_contains_rev(p, m);
                    let k = choose|k: int| 0 <= k < t.len() && t[k] == m;
                    assert(message_ids(s)[k] < message_ids(s)[s.len() - 1]);
                }
            }
        }
    }
}

/// Every strategy's stable name parses back to that strategy, so the names
/// are distinct and stable across storage.
pub proof fn lemma_strategy_names_round_trip(strategy: ConnectStrategy)
    ensures
        strategy_named(strategy_name(strategy)) == Some(strategy),
{
    reveal_strlit("direct");
    reveal_strlit("http_connect");
    reveal_strlit("socks5");
    assert("direct"@ != "http_connect"@) by {
        assert("direct"@.len() != "http_connect"@.len());
    }
    assert("direct"@ != "socks5"@) by {
        assert("direct"@[0] != "socks5"@[0]);
    }
    assert("http_connect"@ != "socks5"@) by {
        assert("http_connect"@.len() != "socks5"@.len());
    }
}

/// Through a SOCKS5 tunnel a hostname that is no IP literal is sent to the
/// proxy verbatim, as its UTF-8 bytes: it is never resolved locally.
pub proof fn lemma_hostname_sent_verbatim(host: Seq<char>, port: u16)
    requires
        ipv4_octets(host) is None,
        ipv6_octets(host) is None,
        1 <= encode_utf8(host).len() <= 255,
    ensures
        connect_request_bytes(host, port) == Some(
            seq![SOCKS5_VERSION, SOCKS5_CMD_CONNECT, 0u8, SOCKS5_ATYP_DOMAIN, encode_utf8(host).len() as u8]
                + encode_utf8(host) + seq![(port / 256) as u8, (port % 256) as u8],
        ),
{
    assert(seq![SOCKS5_VERSION, SOCKS5_CMD_CONNECT, 0u8] + (seq![SOCKS5_ATYP_DOMAIN, encode_utf8(host).len() as u8]
        + encode_utf8(host)) =~= seq![SOCKS5_VERSION, SOCKS5_CMD_CONNECT, 0u8, SOCKS5_ATYP_DOMAIN, encode_utf8(host).len() as u8]
        + encode_utf8(host));
}

/// A transport event is refused only when it is an incoming text for a known
/// account at a valid address whose body, once trimmed, is empty or longer
/// than the message limit; a refused event leaves the state unchanged.
pub proof fn lemma_only_bad_bodies_refused(
    s0: CoreState,
    s1: CoreState,
    event: crate::transport::TransportEvent,
    x: Result<Option<MessageId>, crate::model::CoreError>,
)
    requires
        crate::state::event_step(s0, s1, event, x),
        x is Err,
    ensures
        s1 == s0,
        event matches crate::transport::TransportEvent::IncomingText { account_id, address, body, .. }
            && s0.has_account(account_id) && crate::rules::jid_ok(address@) && ((x == Err::<
            Option<MessageId>,
            crate::model::CoreError,
        >(crate::model::CoreError::EmptyMessage) && crate::text::trim(body@).len() == 0) || (x
            == Err::<Option<MessageId>, crate::model::CoreError>(
            crate::model::CoreError::MessageTooLong,
        ) && crate::text::trim(body@).len() > crate::model::MAX_MESSAGE_CHARS)),
{
}

/// What a presence stanza reports. Without a sender, or for a presence of
/// another type (a subscription request, a probe, an error), nothing. Else
/// an update of the sender's presence with the chosen status text: offline
/// when the contact is unavailable; when it is available, online with no
/// `show` or `show` chat, away with `show` away or xa, and do-not-disturb
/// with `show` dnd.
pub proof fn lemma_presence_reports(account_id: AccountId, p: crate::session::IncomingPresence)
    ensures
        p.from is None ==> crate::session::presence_event(account_id, p) is None,
        p.presence_type == crate::session::PresenceType::Other ==> crate::session::presence_event(
            account_id,
            p,
        ) is None,
        p.from matches Some(f) ==> (p.presence_type != crate::session::PresenceType::Other ==> (
        crate::session::presence_event(account_id, p) matches Some(
            crate::transport::EventView::ContactPresenceUpdated { account_id: a, jid, presence, status },
        ) && a == account_id && jid == f@ && status == crate::session::status_choice(p.statuses@)
            && (p.presence_type == crate::session::PresenceType::Unavailable ==> presence
            == crate::model::ContactPresence::Offline) && (p.presence_type
            == crate::session::PresenceType::Available && (p.show is None || p.show == Some(
            crate::session::PresenceShow::Chat,
        )) ==> presence == crate::model::ContactPresence::Online) && (p.presence_type
            == crate::session::PresenceType::Available && (p.show == Some(
            crate::session::PresenceShow::Away,
        ) || p.show == Some(crate::session::PresenceShow::Xa)) ==> presence
            == crate::model::ContactPresence::Away) && (p.presence_type
            == crate::session::PresenceType::Available && p.show == Some(
            crate::session::PresenceShow::Dnd,
        ) ==> presence == crate::model::ContactPresence::DoNotDisturb))),
{
}

/// The permission that lets an extension observe a core event.
pub open spec fn observing_permission(e: crate::model::CoreEvent) -> crate::extension::ExtensionPermission {
    match e {
        crate::model::CoreEvent::AccountChanged(_) => crate::extension::ExtensionPermission::ObserveAccountChanges,
        crate::model::CoreEvent::RosterChanged(_) => crate::extension::ExtensionPermission::ObserveRosterChanges,
        crate::model::CoreEvent::ConversationChanged(_) => crate::extension::ExtensionPermission::ObserveConversationChanges,
        crate::model::CoreEvent::MessageAdded(_) => crate::extension::ExtensionPermission::ObserveMessageChanges,
        crate::model::CoreEvent::MessageChanged(_) => crate::extension::ExtensionPermission::ObserveMessageChanges,
    }
}

/// How a core event shows to an extension: the same change, by id.
pub open spec fn shown_as(e: crate::model::CoreEvent) -> crate::extension::ExtensionEvent {
    match e {
        crate::model::CoreEvent::AccountChanged(id) => crate::extension::ExtensionEvent::AccountChanged { account_id: id },
        crate::model::CoreEvent::RosterChanged(id) => crate::extension::ExtensionEvent::RosterChanged { account_id: id },
        crate::model::CoreEvent::ConversationChanged(id) => crate::extension::ExtensionEvent::ConversationChanged { conversation_id: id },
        crate::model::CoreEvent::MessageAdded(id) => crate::extension::ExtensionEvent::MessageAdded { message_id: id },
        crate::model::CoreEvent::MessageChanged(id) => crate::extension::ExtensionEvent::MessageChanged { message_id: id },
    }
}

/// An extension sees, in order, exactly the core events whose own
/// observation permission it was granted, and no other permission matters:
/// account changes need `ObserveAccountChanges`, roster changes
/// `ObserveRosterChanges`, conversation changes `ObserveConversationChanges`,
/// and added or changed messages `ObserveMessageChanges`.
pub proof fn lemma_events_seen_by_own_permission(
    granted: Set<crate::extension::ExtensionPermission>,
    events: Seq<crate::model::CoreEvent>,
)
    ensures
        crate::extension::visible_events_of(granted, events) == events.filter(
            |e: crate::model::CoreEvent| granted.contains(observing_permission(e)),
        ).map_values(|e: crate::model::CoreEvent| shown_as(e)),
    decreases events.len(),
{
    reveal(Seq::filter);
    if events.len() > 0 {
        lemma_events_seen_by_own_permission(granted, events.drop_last());
        let pred = |e: crate::model::CoreEvent| granted.contains(observing_permission(e));
        let f = |e: crate::model::CoreEvent| shown_as(e);
        let rest = events.drop_last().filter(pred);
        if pred(events.last()) {
            assert(rest.push(events.last()).map_values(f) =~= rest.map_values(f).push(f(events.last())));
        }
    }
}

/// The status code on the status line of a proxy's response text, if the
/// line has a second word that reads as a number up to 65535.
pub open spec fn status_code(text: Seq<char>) -> Option<nat> {
    let w = crate::proxy::words_of(text.take(crate::proxy::first_crlf(text)));
    if w.len() >= 2 {
        crate::text::parse_unsigned(w[1], 65535)
    } else {
        None
    }
}

/// Whether the status line of a proxy's response text starts with `HTTP/`.
pub open spec fn http_status_line(text: Seq<char>) -> bool {
    let w = crate::proxy::words_of(text.take(crate::proxy::first_crlf(text)));
    w.len() > 0 && w[0].len() >= 5 && w[0].take(5) == "HTTP/"@
}

/// A proxy's response opens the tunnel only with status `200`: any other
/// status code on an HTTP status line is refused with that very code.
pub proof fn lemma_only_status_200_opens(text: Seq<char>)
    ensures
        crate::proxy::http_response_check(text) is Ok ==> status_code(text) == Some(200nat),
        http_status_line(text) && status_code(text) == Some(200nat) ==> crate::proxy::http_response_check(text) is Ok,
        status_code(text) matches Some(c) ==> (http_status_line(text) && c != 200 ==> (
        crate::proxy::http_response_check(text) matches Err(crate::proxy::ProxyFailure::HttpStatus { status, .. })
            && status == c)),
{
}

/// The decimal rendering of a number reads back as that number.
pub proof fn lemma_decimal_reads_back(n: nat)
    ensures
        crate::text::decimal(n).len() > 0,
        crate::text::all_digits(crate::text::decimal(n)),
        crate::text::digits_value(crate::text::decimal(n)) == n,
    decreases n,
{
    let d = crate::text::decimal(n);
    if n < 10 {
        assert(d.drop_last() =~= Seq::<char>::empty());
        assert(crate::text::digit_value(crate::text::digit_char(n as int)) == n);
        assert(d.last() == crate::text::digit_char(n as int));
        assert(crate::text::digits_value(d) == (crate::text::digits_value(d.drop_last()) * 10
            + crate::text::digit_value(d.last())) as nat);
    } else {
        lemma_decimal_reads_back(n / 10);
        let head = crate::text::decimal(n / 10);
        assert(d.drop_last() =~= head);
        assert(crate::text::digit_value(crate::text::digit_char((n % 10) as int)) == n % 10);
        assert(crate::text::digits_value(head) * 10 + (n % 10) == n) by (nonlinear_arith)
            requires
                crate::text::digits_value(head) == n / 10,
        ;
        assert(d.last() == crate::text::digit_char((n % 10) as int));
        assert(crate::text::digits_value(d) == (crate::text::digits_value(d.drop_last()) * 10
            + crate::text::digit_value(d.last())) as nat);
        assert forall|i: int| 0 <= i < d.len() implies crate::text::is_digit(#[trigger] d[i]) by {
            if i < head.len() {
                assert(d[i] == head[i]);
            }
        }
    }
}

/// The receipt id this client gives message `n` (`mindchat-` and `n` in
/// decimal) reads back as `n`.
pub proof fn lemma_receipt_id_round_trip(n: u64)
    requires
        n > 0,
    ensures
        crate::xmpp::receipt_id_value("mindchat-"@ + crate::text::decimal(n as nat)) == Some(n),
{
    reveal_strlit("mindchat-");
    lemma_decimal_reads_back(n as nat);
    let prefix = "mindchat-"@;
    let id = prefix + crate::text::decimal(n as nat);
    assert(id.take(prefix.len() as int) =~= prefix);
    assert(id.skip(prefix.len() as int) =~= crate::text::decimal(n as nat));
}

/// The delivery events read from receipt ids: one `Delivered` update from
/// the sender for every id that names a message this client sent, and no
/// other event.
pub proof fn lemma_receipt_events_cover_ids(
    account_id: AccountId,
    sender: Seq<char>,
    ids: Seq<Seq<char>>,
)
    ensures
        forall|i: int|
            0 <= i < ids.len() && crate::xmpp::receipt_id_value(#[trigger] ids[i]) is Some
                ==> crate::session::receipt_events(account_id, sender, ids).contains(
                crate::transport::EventView::DeliveryUpdated {
                    account_id,
                    sender,
                    message_id: crate::xmpp::receipt_id_value(ids[i])->Some_0,
                    state: DeliveryState::Delivered,
                },
            ),
        forall|k: int|
            0 <= k < crate::session::receipt_events(account_id, sender, ids).len() ==> exists|i: int|
                0 <= i < ids.len() && #[trigger] crate::session::receipt_events(account_id, sender, ids)[k]
                    == (crate::transport::EventView::DeliveryUpdated {
                    account_id,
                    sender,
                    message_id: crate::xmpp::receipt_id_value(ids[i])->Some_0,
                    state: DeliveryState::Delivered,
                }) && crate::xmpp::receipt_id_value(ids[i]) is Some,
    decreases ids.len(),
{
    if ids.len() > 0 {
        let rest_ids = ids.drop_last();
        lemma_receipt_events_cover_ids(account_id, sender, rest_ids);
        let rest = crate::session::receipt_events(account_id, sender, rest_ids);
        let all = crate::session::receipt_events(account_id, sender, ids);
        assert forall|i: int|
            0 <= i < ids.len() && crate::xmpp::receipt_id_value(#[trigger] ids[i]) is Some
                implies all.contains(
                crate::transport::EventView::DeliveryUpdated {
                    account_id,
                    sender,
                    message_id: crate::xmpp::receipt_id_value(ids[i])->Some_0,
                    state: DeliveryState::Delivered,
                },
            ) by {
            let ev = crate::transport::EventView::DeliveryUpdated {
                account_id,
                sender,
                message_id: crate::xmpp::receipt_id_value(ids[i])->Some_0,
                state: DeliveryState::Delivered,
            };
            if i < ids.len() - 1 {
                assert(rest_ids[i] == ids[i]);
                let j = choose|j: int| 0 <= j < rest.len() && rest[j] == ev;
                assert(all[j] == ev);
            } else {
                assert(all[all.len() - 1] == ev);
            }
        }
        assert forall|k: int| 0 <= k < all.len() implies exists|i: int|
            0 <= i < ids.len() && #[trigger] all[k] == (crate::transport::EventView::DeliveryUpdated {
                account_id,
                sender,
                message_id: crate::xmpp::receipt_id_value(ids[i])->Some_0,
                state: DeliveryState::Delivered,
            }) && crate::xmpp::receipt_id_value(ids[i]) is Some by {
            if k < rest.len() {
                assert(all[k] == rest[k]);
                let i = choose|i: int|
                    0 <= i < rest_ids.len() && #[trigger] rest[k] == (crate::transport::EventView::DeliveryUpdated {
                        account_id,
                        sender,
                        message_id: crate::xmpp::receipt_id_value(rest_ids[i])->Some_0,
                        state: DeliveryState::Delivered,
                    }) && crate::xmpp::receipt_id_value(rest_ids[i]) is Some;
                assert(rest_ids[i] == ids[i]);
            } else {
                assert(crate::xmpp::receipt_id_value(ids[ids.len() - 1]) is Some);
            }
        }
    }
}

/// Receipts are read from direct messages only: a chat or normal message
/// from a sender turns every receipt for a message this client sent
/// (`mindchat-` and its id) into a `Delivered` update from that sender,
/// and gives no other event; a message without a sender, or a group chat,
/// headline or error message, gives none.
pub proof fn lemma_receipts_of_direct_messages(
    account_id: AccountId,
    m: crate::session::IncomingMessage,
)
    ensures
        m.from is None ==> crate::session::message_receipts(account_id, m).len() == 0,
        (m.message_type == crate::session::IncomingMessageType::Groupchat || m.message_type
            == crate::session::IncomingMessageType::Headline || m.message_type
            == crate::session::IncomingMessageType::Error) ==> crate::session::message_receipts(
            account_id,
            m,
        ).len() == 0,
        m.from matches Some(f) ==> ((m.message_type == crate::session::IncomingMessageType::Chat
            || m.message_type == crate::session::IncomingMessageType::Normal) ==> {
            let r = crate::session::message_receipts(account_id, m);
            &&& forall|i: int, n: nat|
                #![trigger m.receipts@[i], crate::text::decimal(n)]
                0 <= i < m.receipts@.len() && 0 < n <= u64::MAX && m.receipts@[i]@ == "mindchat-"@
                    + crate::text::decimal(n) ==> r.contains(
                    crate::transport::EventView::DeliveryUpdated {
                        account_id,
                        sender: f@,
                        message_id: n as u64,
                        state: DeliveryState::Delivered,
                    },
                )
            &&& forall|k: int|
                0 <= k < r.len() ==> (#[trigger] r[k] matches crate::transport::EventView::DeliveryUpdated {
                    account_id: a,
                    sender,
                    message_id,
                    state,
                } && a == account_id && sender == f@ && state == DeliveryState::Delivered)
        }),
{
    if let Some(f) = m.from {
        if m.message_type == crate::session::IncomingMessageType::Chat || m.message_type
            == crate::session::IncomingMessageType::Normal {
            let ids = crate::session::texts(m.receipts@);
            lemma_receipt_events_cover_ids(account_id, f@, ids);
            assert forall|i: int, n: nat|
                #![trigger m.receipts@[i], crate::text::decimal(n)]
                0 <= i < m.receipts@.len() && 0 < n <= u64::MAX && m.receipts@[i]@ == "mindchat-"@
                    + crate::text::decimal(n) implies crate::session::message_receipts(
                    account_id,
                    m,
                ).contains(
                    crate::transport::EventView::DeliveryUpdated {
                        account_id,
                        sender: f@,
                        message_id: n as u64,
                        state: DeliveryState::Delivered,
                    },
                ) by {
                lemma_receipt_id_round_trip(n as u64);
                assert(ids[i] == m.receipts@[i]@);
                assert(crate::xmpp::receipt_id_value(ids[i]) == Some(n as u64));
            }
        }
    }
}

} // verus!
