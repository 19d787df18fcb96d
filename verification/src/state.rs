//! The in-memory state machine behind the UI and the transport adapters.

use vstd::prelude::*;

use crate::caps::{CapabilitySet, ProtocolCapability};
use crate::model::{
    Account, AccountId, AccountSetup, ConnectionState, ContactPresence, CoreError, CoreEvent,
    Contact, Conversation, CoreCommand, CoreSnapshot, RosterSubscription,
    ConversationId, ConversationKind, DeliveryState, Message, MessageDirection, MessageId,
    MessageKind, Reaction, ReactionId, Attachment, delivery_rank, rank_of,
};
use crate::extension::{permission_for, ExtensionCommandError, ExtensionPolicy};
use crate::transport::{ConnectionRequest, OutgoingMessage, SecretString, TransportEvent};
use crate::keyed::{
    first_where, insert_keyed, keys_increasing, largest_key, lemma_first_where,
    lemma_first_where_unique, lemma_restored, max_key, restore_keyed, restored, Keyed,
};
use crate::proxy::ProxyConfig;
use crate::rules::{
    body_check, contact_name, jid_ok, normalize_contact_name, normalize_status, opt_view,
    server_ok, status_of, validate_body, validate_jid, validate_server,
};
use crate::text::{
    blank, is_blank, lemma_text_lt_irreflexive, lemma_text_lt_total, lemma_text_lt_transitive,
    text_less, text_lt, trim,
};

verus! {

/// The abstract state of a [`MindChatCore`].
#[verifier::ext_equal]
pub struct CoreState {
    pub next_account_id: u64,
    pub next_conversation_id: u64,
    pub next_message_id: u64,
    pub next_reaction_id: u64,
    /// Accounts in increasing id order.
    pub accounts: Seq<Account>,
    /// Contacts in increasing (account, JID) order.
    pub contacts: Seq<Contact>,
    /// Conversations in increasing id order.
    pub conversations: Seq<Conversation>,
    /// Messages in increasing id order.
    pub messages: Seq<Message>,
    /// Reactions in increasing id order.
    pub reactions: Seq<Reaction>,
    /// Events not yet drained, oldest first.
    pub events: Seq<CoreEvent>,
}

/// Whether the identifiers strictly increase.
pub open spec fn increasing(ids: Seq<u64>) -> bool {
    forall|i: int, j: int| 0 <= i < j < ids.len() ==> ids[i] < ids[j]
}

/// Whether every identifier is below `bound`.
pub open spec fn all_below(ids: Seq<u64>, bound: u64) -> bool {
    forall|i: int| 0 <= i < ids.len() ==> #[trigger] ids[i] < bound
}

/// The position of `id` in `ids`, when it occurs.
pub open spec fn index_of(ids: Seq<u64>, id: u64) -> int {
    choose|i: int| 0 <= i < ids.len() && ids[i] == id
}

/// The identifiers of the accounts.
pub open spec fn account_ids(s: Seq<Account>) -> Seq<u64> {
    s.map_values(|a: Account| a.id)
}

/// The identifiers of the conversations.
pub open spec fn conversation_ids(s: Seq<Conversation>) -> Seq<u64> {
    s.map_values(|c: Conversation| c.id)
}

/// The identifiers of the messages.
pub open spec fn message_ids(s: Seq<Message>) -> Seq<u64> {
    s.map_values(|m: Message| m.id)
}

/// The identifiers of the reactions.
pub open spec fn reaction_ids(s: Seq<Reaction>) -> Seq<u64> {
    s.map_values(|r: Reaction| r.id)
}

/// In strictly increasing ids, an id occurs at exactly one position.
pub proof fn lemma_index_of(ids: Seq<u64>, i: int)
    requires
        increasing(ids),
        0 <= i < ids.len(),
    ensures
        index_of(ids, ids[i]) == i,
        ids.contains(ids[i]),
{
    assert(ids[i] == ids[i]);
    let j = index_of(ids, ids[i]);
    if j < i {
        assert(ids[j] < ids[i]);
    }
    if i < j {
        assert(ids[i] < ids[j]);
    }
}

/// The position chosen for a contained id holds that id.
pub proof fn lemma_has_index(ids: Seq<u64>, id: u64)
    requires
        ids.contains(id),
    ensures
        0 <= index_of(ids, id) < ids.len(),
        ids[index_of(ids, id)] == id,
{
}

/// The first free id at or above `next`, as allocation hands it out.
pub open spec fn fresh(next: u64) -> u64 {
    if next == 0 {
        1
    } else {
        next
    }
}

impl CoreState {
    /// Whether the state is well formed: each list is in increasing key order
    /// and every id lies below the next one to be allocated.
    pub open spec fn wf(self) -> bool {
        &&& increasing(account_ids(self.accounts))
        &&& all_below(account_ids(self.accounts), self.next_account_id)
        &&& contacts_sorted(self.contacts)
        &&& increasing(conversation_ids(self.conversations))
        &&& all_below(conversation_ids(self.conversations), self.next_conversation_id)
        &&& increasing(message_ids(self.messages))
        &&& all_below(message_ids(self.messages), self.next_message_id)
        &&& increasing(reaction_ids(self.reactions))
        &&& all_below(reaction_ids(self.reactions), self.next_reaction_id)
    }

    /// Whether another account id can be allocated without overflow.
    pub open spec fn account_headroom(self) -> bool {
        self.next_account_id < u64::MAX
    }

    /// Whether another conversation id can be allocated without overflow.
    pub open spec fn conversation_headroom(self) -> bool {
        self.next_conversation_id < u64::MAX
    }

    /// Whether another message id can be allocated without overflow.
    pub open spec fn message_headroom(self) -> bool {
        self.next_message_id < u64::MAX
    }

    /// Whether another reaction id can be allocated without overflow.
    pub open spec fn reaction_headroom(self) -> bool {
        self.next_reaction_id < u64::MAX
    }

    /// Whether an account with `id` exists.
    pub open spec fn has_account(self, id: AccountId) -> bool {
        account_ids(self.accounts).contains(id)
    }

    /// The position of the account with `id`.
    pub open spec fn account_index(self, id: AccountId) -> int {
        index_of(account_ids(self.accounts), id)
    }

    /// The account with `id`.
    pub open spec fn account(self, id: AccountId) -> Account {
        self.accounts[self.account_index(id)]
    }

    /// Whether a conversation with `id` exists.
    pub open spec fn has_conversation(self, id: ConversationId) -> bool {
        conversation_ids(self.conversations).contains(id)
    }

    /// The position of the conversation with `id`.
    pub open spec fn conversation_index(self, id: ConversationId) -> int {
        index_of(conversation_ids(self.conversations), id)
    }

    /// The conversation with `id`.
    pub open spec fn conversation(self, id: ConversationId) -> Conversation {
        self.conversations[self.conversation_index(id)]
    }

    /// Whether a message with `id` exists.
    pub open spec fn has_message(self, id: MessageId) -> bool {
        message_ids(self.messages).contains(id)
    }

    /// The position of the message with `id`.
    pub open spec fn message_index(self, id: MessageId) -> int {
        index_of(message_ids(self.messages), id)
    }

    /// The message with `id`.
    pub open spec fn message(self, id: MessageId) -> Message {
        self.messages[self.message_index(id)]
    }

    /// The state with the account with `id` replaced by `account` and `event` recorded.
    pub open spec fn with_account(self, id: AccountId, account: Account, event: CoreEvent) -> Self {
        CoreState {
            accounts: self.accounts.update(self.account_index(id), account),
            events: self.events.push(event),
            ..self
        }
    }
}

/// In-memory state machine that the XMPP transport and generated bindings use.
pub struct MindChatCore {
    next_account_id: AccountId,
    next_conversation_id: ConversationId,
    next_message_id: MessageId,
    next_reaction_id: ReactionId,
    accounts: Vec<Account>,
    contacts: Vec<Contact>,
    conversations: Vec<Conversation>,
    messages: Vec<Message>,
    reactions: Vec<Reaction>,
    events: Vec<CoreEvent>,
}

impl View for MindChatCore {
    type V = CoreState;

    closed spec fn view(&self) -> CoreState {
        CoreState {
            next_account_id: self.next_account_id,
            next_conversation_id: self.next_conversation_id,
            next_message_id: self.next_message_id,
            next_reaction_id: self.next_reaction_id,
            accounts: self.accounts@,
            contacts: self.contacts@,
            conversations: self.conversations@,
            messages: self.messages@,
            reactions: self.reactions@,
            events: self.events@,
        }
    }
}

impl Default for MindChatCore {
    fn default() -> (r: Self)
        ensures
            r@.wf(),
            r@.accounts.len() == 0,
            r@.contacts.len() == 0,
            r@.conversations.len() == 0,
            r@.messages.len() == 0,
            r@.reactions.len() == 0,
            r@.events.len() == 0,
            r@.next_account_id == 0,
            r@.next_conversation_id == 0,
            r@.next_message_id == 0,
            r@.next_reaction_id == 0,
    {
        MindChatCore::new()
    }
}

impl MindChatCore {
    /// An empty core.
    pub fn new() -> (r: Self)
        ensures
            r@.wf(),
            r@.accounts.len() == 0,
            r@.contacts.len() == 0,
            r@.conversations.len() == 0,
            r@.messages.len() == 0,
            r@.reactions.len() == 0,
            r@.events.len() == 0,
            r@.next_account_id == 0,
            r@.next_conversation_id == 0,
            r@.next_message_id == 0,
            r@.next_reaction_id == 0,
    {
        MindChatCore {
            next_account_id: 0,
            next_conversation_id: 0,
            next_message_id: 0,
            next_reaction_id: 0,
            accounts: Vec::new(),
            contacts: Vec::new(),
            conversations: Vec::new(),
            messages: Vec::new(),
            reactions: Vec::new(),
            events: Vec::new(),
        }
    }

    /// Whether every id counter can hand out another id (what the
    /// allocating operations require).
    pub fn has_id_headroom(&self) -> (r: bool)
        ensures
            r == (self@.account_headroom() && self@.conversation_headroom()
                && self@.message_headroom() && self@.reaction_headroom()),
    {
        self.next_account_id < u64::MAX && self.next_conversation_id < u64::MAX
            && self.next_message_id < u64::MAX && self.next_reaction_id < u64::MAX
    }

    /// Whether `count` more conversations and messages can still get ids,
    /// as applying that many transport events may need.
    pub fn has_event_headroom(&self, count: usize) -> (r: bool)
        ensures
            r == (fresh(self@.next_conversation_id) + count < u64::MAX && fresh(
                self@.next_message_id,
            ) + count < u64::MAX),
    {
        let conversation: u64 = if self.next_conversation_id == 0 {
            1
        } else {
            self.next_conversation_id
        };
        let message: u64 = if self.next_message_id == 0 {
            1
        } else {
            self.next_message_id
        };
        (count as u128) + (conversation as u128) < (u64::MAX as u128) && (count as u128)
            + (message as u128) < (u64::MAX as u128)
    }

    /// Position of the account with `id`.
    fn find_account(&self, id: AccountId) -> (r: Option<usize>)
        requires
            self@.wf(),
        ensures
            match r {
                Some(i) => self@.has_account(id) && i == self@.account_index(id) && i
                    < self@.accounts.len() && self@.accounts[i as int].id == id,
                None => !self@.has_account(id),
            },
    {
        let mut i: usize = 0;
        while i < self.accounts.len()
            invariant
                self@.wf(),
                i <= self.accounts.len(),
                forall|k: int| 0 <= k < i ==> #[trigger] self.accounts@[k].id != id,
            decreases self.accounts.len() - i,
        {
            if self.accounts[i].id == id {
                proof {
                    assert(account_ids(self@.accounts)[i as int] == id);
                    lemma_index_of(account_ids(self@.accounts), i as int);
                }
                return Some(i);
            }
            i = i + 1;
        }
        proof {
            if self@.has_account(id) {
                let k = choose|k: int|
                    0 <= k < account_ids(self@.accounts).len() && account_ids(self@.accounts)[k]
                        == id;
                assert(self.accounts@[k].id == id);
            }
        }
        None
    }

    /// Position of the conversation with `id`.
    fn find_conversation(&self, id: ConversationId) -> (r: Option<usize>)
        requires
            self@.wf(),
        ensures
            match r {
                Some(i) => self@.has_conversation(id) && i == self@.conversation_index(id) && i
                    < self@.conversations.len() && self@.conversations[i as int].id == id,
                None => !self@.has_conversation(id),
            },
    {
        let mut i: usize = 0;
        while i < self.conversations.len()
            invariant
                self@.wf(),
                i <= self.conversations.len(),
                forall|k: int| 0 <= k < i ==> #[trigger] self.conversations@[k].id != id,
            decreases self.conversations.len() - i,
        {
            if self.conversations[i].id == id {
                proof {
                    assert(conversation_ids(self@.conversations)[i as int] == id);
                    lemma_index_of(conversation_ids(self@.conversations), i as int);
                }
                return Some(i);
            }
            i = i + 1;
        }
        proof {
            if self@.has_conversation(id) {
                let k = choose|k: int|
                    0 <= k < conversation_ids(self@.conversations).len() && conversation_ids(
                        self@.conversations,
                    )[k] == id;
                assert(self.conversations@[k].id == id);
            }
        }
        None
    }

    /// Position of the message with `id`.
    fn find_message(&self, id: MessageId) -> (r: Option<usize>)
        requires
            self@.wf(),
        ensures
            match r {
                Some(i) => self@.has_message(id) && i == self@.message_index(id) && i
                    < self@.messages.len() && self@.messages[i as int].id == id,
                None => !self@.has_message(id),
            },
    {
        let mut i: usize = 0;
        while i < self.messages.len()
            invariant
                self@.wf(),
                i <= self.messages.len(),
                forall|k: int| 0 <= k < i ==> #[trigger] self.messages@[k].id != id,
            decreases self.messages.len() - i,
        {
            if self.messages[i].id == id {
                proof {
                    assert(message_ids(self@.messages)[i as int] == id);
                    lemma_index_of(message_ids(self@.messages), i as int);
                }
                return Some(i);
            }
            i = i + 1;
        }
        proof {
            if self@.has_message(id) {
                let k = choose|k: int|
                    0 <= k < message_ids(self@.messages).len() && message_ids(self@.messages)[k]
                        == id;
                assert(self.messages@[k].id == id);
            }
        }
        None
    }

    /// Hands out the next account id.
    fn allocate_account_id(&mut self) -> (id: AccountId)
        requires
            old(self)@.wf(),
            old(self)@.account_headroom(),
        ensures
            id == fresh(old(self)@.next_account_id),
            final(self)@ == (CoreState { next_account_id: (id + 1) as u64, ..old(self)@ }),
    {
        let id = if self.next_account_id == 0 {
            1
        } else {
            self.next_account_id
        };
        self.next_account_id = id + 1;
        id
    }

    /// Hands out the next conversation id.
    fn allocate_conversation_id(&mut self) -> (id: ConversationId)
        requires
            old(self)@.wf(),
            old(self)@.conversation_headroom(),
        ensures
            id == fresh(old(self)@.next_conversation_id),
            final(self)@ == (CoreState { next_conversation_id: (id + 1) as u64, ..old(self)@ }),
    {
        let id = if self.next_conversation_id == 0 {
            1
        } else {
            self.next_conversation_id
        };
        self.next_conversation_id = id + 1;
        id
    }

    /// Hands out the next message id.
    fn allocate_message_id(&mut self) -> (id: MessageId)
        requires
            old(self)@.wf(),
            old(self)@.message_headroom(),
        ensures
            id == fresh(old(self)@.next_message_id),
            final(self)@ == (CoreState { next_message_id: (id + 1) as u64, ..old(self)@ }),
    {
        let id = if self.next_message_id == 0 {
            1
        } else {
            self.next_message_id
        };
        self.next_message_id = id + 1;
        id
    }

    /// Hands out the next reaction id.
    fn allocate_reaction_id(&mut self) -> (id: ReactionId)
        requires
            old(self)@.wf(),
            old(self)@.reaction_headroom(),
        ensures
            id == fresh(old(self)@.next_reaction_id),
            final(self)@ == (CoreState { next_reaction_id: (id + 1) as u64, ..old(self)@ }),
    {
        let id = if self.next_reaction_id == 0 {
            1
        } else {
            self.next_reaction_id
        };
        self.next_reaction_id = id + 1;
        id
    }

    /// Fails with `UnknownAccount` unless the account exists.
    fn ensure_account(&self, account_id: AccountId) -> (r: Result<(), CoreError>)
        requires
            self@.wf(),
        ensures
            r is Ok <==> self@.has_account(account_id),
            r is Err ==> r == Err::<(), CoreError>(CoreError::UnknownAccount(account_id)),
    {
        match self.find_account(account_id) {
            Some(_) => Ok(()),
            None => Err(CoreError::UnknownAccount(account_id)),
        }
    }

    /// Fails with `UnknownConversation` unless the conversation exists.
    fn ensure_conversation(&self, conversation_id: ConversationId) -> (r: Result<(), CoreError>)
        requires
            self@.wf(),
        ensures
            r is Ok <==> self@.has_conversation(conversation_id),
            r is Err ==> r == Err::<(), CoreError>(
                CoreError::UnknownConversation(conversation_id),
            ),
    {
        match self.find_conversation(conversation_id) {
            Some(_) => Ok(()),
            None => Err(CoreError::UnknownConversation(conversation_id)),
        }
    }

    /// Replaces the account at position `i`, keeping the list order.
    fn replace_account(&mut self, i: usize, account: Account)
        requires
            i < old(self)@.accounts.len(),
            account.id == old(self)@.accounts[i as int].id,
        ensures
            final(self)@ == (CoreState {
                accounts: old(self)@.accounts.update(i as int, account),
                ..old(self)@
            }),
    {
        let _ = self.accounts.remove(i);
        self.accounts.insert(i, account);
        proof {
            assert(self@.accounts =~= old(self)@.accounts.update(i as int, account));
            assert(self@ =~= (CoreState {
                accounts: old(self)@.accounts.update(i as int, account),
                ..old(self)@
            }));
        }
    }
}


/// Pushing an id above all others keeps the ids increasing.
pub proof fn lemma_push_increasing(ids: Seq<u64>, id: u64)
    requires
        increasing(ids),
        all_below(ids, id),
    ensures
        increasing(ids.push(id)),
{
    assert forall|i: int, j: int| 0 <= i < j < ids.push(id).len() implies ids.push(id)[i] < ids.push(
        id,
    )[j] by {
        if j == ids.len() {
            assert(ids[i] < id);
        }
    }
}

/// Whether `account` is what `add_account` stores for `setup` under `id`.
pub open spec fn new_account(account: Account, id: AccountId, setup: AccountSetup) -> bool {
    &&& account.id == id
    &&& account.jid == setup.jid
    &&& account.server == setup.server
    &&& account.display_name == setup.display_name
    &&& account.connection_state == ConnectionState::Offline
    &&& account.capabilities@ == Set::<ProtocolCapability>::empty()
    &&& account.connection_error is None
    &&& account.disconnect_kind is None
    &&& account.auto_reconnect
    &&& account.proxies@.len() == 0
}

/// Whether moving into `state` clears the last failure.
pub open spec fn clears_failure(state: ConnectionState) -> bool {
    state == ConnectionState::Connecting || state == ConnectionState::Online
}

impl MindChatCore {
    /// Configures an account in the local core.
    pub fn add_account(&mut self, setup: AccountSetup) -> (r: Result<AccountId, CoreError>)
        requires
            old(self)@.wf(),
            old(self)@.account_headroom(),
        ensures
            final(self)@.wf(),
            !jid_ok(setup.jid@) ==> r == Err::<AccountId, CoreError>(CoreError::InvalidJid)
                && final(self)@ == old(self)@,
            jid_ok(setup.jid@) && !server_ok(setup.server@) ==> r == Err::<AccountId, CoreError>(
                CoreError::InvalidServer,
            ) && final(self)@ == old(self)@,
            jid_ok(setup.jid@) && server_ok(setup.server@) ==> {
                let id = fresh(old(self)@.next_account_id);
                &&& r == Ok::<AccountId, CoreError>(id)
                &&& new_account(final(self)@.accounts.last(), id, setup)
                &&& final(self)@ == (CoreState {
                    next_account_id: (id + 1) as u64,
                    accounts: old(self)@.accounts.push(final(self)@.accounts.last()),
                    events: old(self)@.events.push(CoreEvent::AccountChanged(id)),
                    ..old(self)@
                })
            },
    {
        if let Err(e) = validate_jid(setup.jid.as_str()) {
            return Err(e);
        }
        if let Err(e) = validate_server(setup.server.as_str()) {
            return Err(e);
        }
        let ghost before = self@;
        let id = self.allocate_account_id();
        let AccountSetup { jid, server, display_name } = setup;
        let account = Account {
            id,
            jid,
            server,
            display_name,
            connection_state: ConnectionState::Offline,
            capabilities: CapabilitySet::new(),
            connection_error: None,
            disconnect_kind: None,
            auto_reconnect: true,
            proxies: Vec::new(),
        };
        self.accounts.push(account);
        self.events.push(CoreEvent::AccountChanged(id));
        proof {
            assert(account_ids(self@.accounts) =~= account_ids(before.accounts).push(id));
            lemma_push_increasing(account_ids(before.accounts), id);
        }
        Ok(id)
    }

    /// Moves an account into the connection lifecycle; entering `Connecting`
    /// or `Online` clears the last failure.
    pub fn set_connection_state(&mut self, account_id: AccountId, state: ConnectionState) -> (r:
        Result<(), CoreError>)
        requires
            old(self)@.wf(),
        ensures
            final(self)@.wf(),
            !old(self)@.has_account(account_id) ==> r == Err::<(), CoreError>(
                CoreError::UnknownAccount(account_id),
            ) && final(self)@ == old(self)@,
            old(self)@.has_account(account_id) ==> r is Ok && final(self)@ == connection_step(
                old(self)@,
                account_id,
                state,
            ),
    {
        let i = match self.find_account(account_id) {
            Some(i) => i,
            None => return Err(CoreError::UnknownAccount(account_id)),
        };
        let mut account = self.accounts.remove(i);
        account.connection_state = state;
        if matches!(state, ConnectionState::Connecting | ConnectionState::Online) {
            account.connection_error = None;
            account.disconnect_kind = None;
        }
        self.accounts.insert(i, account);
        self.events.push(CoreEvent::AccountChanged(account_id));
        proof {
            assert(self@.accounts =~= old(self)@.accounts.update(i as int, account));
            assert(account_ids(self@.accounts) =~= account_ids(old(self)@.accounts));
        }
        Ok(())
    }
}

impl MindChatCore {
    /// Replaces capabilities after service discovery completes.
    pub fn set_capabilities(&mut self, account_id: AccountId, capabilities: &[ProtocolCapability]) -> (r:
        Result<(), CoreError>)
        requires
            old(self)@.wf(),
        ensures
            final(self)@.wf(),
            !old(self)@.has_account(account_id) ==> r == Err::<(), CoreError>(
                CoreError::UnknownAccount(account_id),
            ) && final(self)@ == old(self)@,
            old(self)@.has_account(account_id) ==> r is Ok && (forall|c: ProtocolCapability|
                #[trigger] final(self)@.account(account_id).capabilities@.contains(c)
                    <==> capabilities@.contains(c)) && final(self)@ == old(self)@.with_account(
                account_id,
                Account {
                    capabilities: final(self)@.account(account_id).capabilities,
                    ..old(self)@.account(account_id)
                },
                CoreEvent::AccountChanged(account_id),
            ),
    {
        let set = CapabilitySet::from_slice(capabilities);
        let r = self.set_capability_set(account_id, set);
        proof {
            if old(self)@.has_account(account_id) {
                lemma_has_index(account_ids(old(self)@.accounts), account_id);
                let i = old(self)@.account_index(account_id);
                assert(account_ids(self@.accounts) =~= account_ids(old(self)@.accounts));
                assert(self@.account_index(account_id) == i);
            }
        }
        r
    }

    /// Replaces the capability set of an account.
    fn set_capability_set(&mut self, account_id: AccountId, capabilities: CapabilitySet) -> (r:
        Result<(), CoreError>)
        requires
            old(self)@.wf(),
        ensures
            final(self)@.wf(),
            !old(self)@.has_account(account_id) ==> r == Err::<(), CoreError>(
                CoreError::UnknownAccount(account_id),
            ) && final(self)@ == old(self)@,
            old(self)@.has_account(account_id) ==> r is Ok && final(self)@ == old(self)@.with_account(
                account_id,
                Account { capabilities, ..old(self)@.account(account_id) },
                CoreEvent::AccountChanged(account_id),
            ),
    {
        let i = match self.find_account(account_id) {
            Some(i) => i,
            None => return Err(CoreError::UnknownAccount(account_id)),
        };
        let mut account = self.accounts.remove(i);
        account.capabilities = capabilities;
        self.accounts.insert(i, account);
        self.events.push(CoreEvent::AccountChanged(account_id));
        proof {
            assert(self@.accounts =~= old(self)@.accounts.update(i as int, account));
            assert(account_ids(self@.accounts) =~= account_ids(old(self)@.accounts));
        }
        Ok(())
    }

    /// Replaces the display name shown for an account.
    pub fn update_account_display_name(&mut self, account_id: AccountId, display_name: &str) -> (r:
        Result<(), CoreError>)
        requires
            old(self)@.wf(),
        ensures
            final(self)@.wf(),
            is_blank(display_name@) ==> r == Err::<(), CoreError>(CoreError::EmptyDisplayName)
                && final(self)@ == old(self)@,
            !is_blank(display_name@) && !old(self)@.has_account(account_id) ==> r == Err::<
                (),
                CoreError,
            >(CoreError::UnknownAccount(account_id)) && final(self)@ == old(self)@,
            !is_blank(display_name@) && old(self)@.has_account(account_id) ==> r is Ok
                && final(self)@.account(account_id).display_name@ == display_name@ && final(self)@ == old(self)@.with_account(
                account_id,
                Account {
                    display_name: final(self)@.account(account_id).display_name,
                    ..old(self)@.account(account_id)
                },
                CoreEvent::AccountChanged(account_id),
            ),
    {
        if blank(display_name) {
            return Err(CoreError::EmptyDisplayName);
        }
        let i = match self.find_account(account_id) {
            Some(i) => i,
            None => return Err(CoreError::UnknownAccount(account_id)),
        };
        let mut account = self.accounts.remove(i);
        account.display_name = display_name.to_owned();
        self.accounts.insert(i, account);
        self.events.push(CoreEvent::AccountChanged(account_id));
        proof {
            assert(self@.accounts =~= old(self)@.accounts.update(i as int, account));
            assert(account_ids(self@.accounts) =~= account_ids(old(self)@.accounts));
            lemma_index_of(account_ids(self@.accounts), i as int);
        }
        Ok(())
    }

    /// Replaces the proxy library assigned to an account.
    pub fn set_account_proxies(&mut self, account_id: AccountId, proxies: Vec<ProxyConfig>) -> (r:
        Result<(), CoreError>)
        requires
            old(self)@.wf(),
        ensures
            final(self)@.wf(),
            !old(self)@.has_account(account_id) ==> r == Err::<(), CoreError>(
                CoreError::UnknownAccount(account_id),
            ) && final(self)@ == old(self)@,
            old(self)@.has_account(account_id) ==> r is Ok && final(self)@ == old(self)@.with_account(
                account_id,
                Account { proxies, ..old(self)@.account(account_id) },
                CoreEvent::AccountChanged(account_id),
            ),
    {
        let i = match self.find_account(account_id) {
            Some(i) => i,
            None => return Err(CoreError::UnknownAccount(account_id)),
        };
        let mut account = self.accounts.remove(i);
        account.proxies = proxies;
        self.accounts.insert(i, account);
        self.events.push(CoreEvent::AccountChanged(account_id));
        proof {
            assert(self@.accounts =~= old(self)@.accounts.update(i as int, account));
            assert(account_ids(self@.accounts) =~= account_ids(old(self)@.accounts));
        }
        Ok(())
    }

    /// Returns the proxy library assigned to an account.
    pub fn account_proxies(&self, account_id: AccountId) -> (r: Result<Vec<ProxyConfig>, CoreError>)
        requires
            self@.wf(),
        ensures
            !self@.has_account(account_id) ==> r == Err::<Vec<ProxyConfig>, CoreError>(
                CoreError::UnknownAccount(account_id),
            ),
            self@.has_account(account_id) ==> (r matches Ok(v) && v@ == self@.account(
                account_id,
            ).proxies@),
    {
        match self.find_account(account_id) {
            Some(i) => Ok(crate::proxy::copy_proxies(&self.accounts[i].proxies)),
            None => Err(CoreError::UnknownAccount(account_id)),
        }
    }

    /// Drains events in mutation order for a UI event loop.
    pub fn drain_events(&mut self) -> (r: Vec<CoreEvent>)
        ensures
            r@ == old(self)@.events,
            final(self)@ == (CoreState { events: Seq::empty(), ..old(self)@ }),
    {
        let mut out: Vec<CoreEvent> = Vec::new();
        std::mem::swap(&mut out, &mut self.events);
        proof {
            assert(self@ =~= (CoreState { events: Seq::empty(), ..old(self)@ }));
        }
        out
    }

    /// Returns all accounts ordered by their stable id.
    pub fn accounts(&self) -> (r: Vec<Account>)
        ensures
            crate::model::same_accounts(r@, self@.accounts),
    {
        crate::model::copy_accounts(&self.accounts)
    }

    /// Returns all conversations of an account ordered by stable id.
    pub fn conversations(&self, account_id: AccountId) -> (r: Vec<Conversation>)
        ensures
            r@ == self@.conversations.filter(|c: Conversation| c.account_id == account_id),
    {
        let mut r: Vec<Conversation> = Vec::new();
        let mut i: usize = 0;
        while i < self.conversations.len()
            invariant
                i <= self.conversations.len(),
                r@ == self@.conversations.subrange(0, i as int).filter(
                    |c: Conversation| c.account_id == account_id,
                ),
            decreases self.conversations.len() - i,
        {
            if self.conversations[i].account_id == account_id {
                r.push(self.conversations[i].clone());
            }
            proof {
                assert(self@.conversations.subrange(0, i + 1).drop_last()
                    =~= self@.conversations.subrange(0, i as int));
                reveal_with_fuel(Seq::filter, 1);
            }
            i = i + 1;
        }
        proof {
            assert(self@.conversations.subrange(0, i as int) =~= self@.conversations);
        }
        r
    }

    /// Returns the roster contacts of an account ordered by JID.
    pub fn contacts(&self, account_id: AccountId) -> (r: Vec<Contact>)
        ensures
            r@ == self@.contacts.filter(|c: Contact| c.account_id == account_id),
    {
        let mut r: Vec<Contact> = Vec::new();
        let mut i: usize = 0;
        while i < self.contacts.len()
            invariant
                i <= self.contacts.len(),
                r@ == self@.contacts.subrange(0, i as int).filter(
                    |c: Contact| c.account_id == account_id,
                ),
            decreases self.contacts.len() - i,
        {
            if self.contacts[i].account_id == account_id {
                r.push(self.contacts[i].clone());
            }
            proof {
                assert(self@.contacts.subrange(0, i + 1).drop_last() =~= self@.contacts.subrange(
                    0,
                    i as int,
                ));
                reveal_with_fuel(Seq::filter, 1);
            }
            i = i + 1;
        }
        proof {
            assert(self@.contacts.subrange(0, i as int) =~= self@.contacts);
        }
        r
    }

    /// Returns the messages of a conversation ordered by stable id.
    pub fn messages(&self, conversation_id: ConversationId) -> (r: Vec<Message>)
        ensures
            r@ == self@.messages.filter(|m: Message| m.conversation_id == conversation_id),
    {
        let mut r: Vec<Message> = Vec::new();
        let mut i: usize = 0;
        while i < self.messages.len()
            invariant
                i <= self.messages.len(),
                r@ == self@.messages.subrange(0, i as int).filter(
                    |m: Message| m.conversation_id == conversation_id,
                ),
            decreases self.messages.len() - i,
        {
            if self.messages[i].conversation_id == conversation_id {
                r.push(self.messages[i].clone());
            }
            proof {
                assert(self@.messages.subrange(0, i + 1).drop_last() =~= self@.messages.subrange(
                    0,
                    i as int,
                ));
                reveal_with_fuel(Seq::filter, 1);
            }
            i = i + 1;
        }
        proof {
            assert(self@.messages.subrange(0, i as int) =~= self@.messages);
        }
        r
    }

    /// Returns the reactions of a message ordered by stable id.
    pub fn reactions(&self, message_id: MessageId) -> (r: Vec<Reaction>)
        ensures
            r@ == self@.reactions.filter(|x: Reaction| x.message_id == message_id),
    {
        let mut r: Vec<Reaction> = Vec::new();
        let mut i: usize = 0;
        while i < self.reactions.len()
            invariant
                i <= self.reactions.len(),
                r@ == self@.reactions.subrange(0, i as int).filter(
                    |x: Reaction| x.message_id == message_id,
                ),
            decreases self.reactions.len() - i,
        {
            if self.reactions[i].message_id == message_id {
                r.push(self.reactions[i].clone());
            }
            proof {
                assert(self@.reactions.subrange(0, i + 1).drop_last() =~= self@.reactions.subrange(
                    0,
                    i as int,
                ));
                reveal_with_fuel(Seq::filter, 1);
            }
            i = i + 1;
        }
        proof {
            assert(self@.reactions.subrange(0, i as int) =~= self@.reactions);
        }
        r
    }
}

/// Whether a conversation is the one `(account, kind, address)` names.
pub open spec fn conversation_for(
    account_id: AccountId,
    kind: ConversationKind,
    address: Seq<char>,
) -> spec_fn(Conversation) -> bool {
    |c: Conversation| c.account_id == account_id && c.kind == kind && c.address@ == address
}

/// Position of the first conversation `(account, kind, address)` names.
pub open spec fn conversation_lookup(
    s: Seq<Conversation>,
    account_id: AccountId,
    kind: ConversationKind,
    address: Seq<char>,
) -> int {
    first_where(s, conversation_for(account_id, kind, address))
}

/// Whether `c` is the conversation stored fresh under `id`.
pub open spec fn new_conversation(
    c: Conversation,
    id: ConversationId,
    account_id: AccountId,
    kind: ConversationKind,
    address: Seq<char>,
    title: Seq<char>,
    now_epoch_ms: u64,
) -> bool {
    &&& c.id == id
    &&& c.account_id == account_id
    &&& c.kind == kind
    &&& c.address@ == address
    &&& c.title@ == title
    &&& c.unread_count == 0
    &&& c.last_activity_epoch_ms == now_epoch_ms
}

impl CoreState {
    /// The state with the conversation with `id` replaced by `conversation`.
    pub open spec fn with_conversation(self, id: ConversationId, conversation: Conversation) -> Self {
        CoreState {
            conversations: self.conversations.update(self.conversation_index(id), conversation),
            ..self
        }
    }

    /// The state with the message with `id` replaced by `message`.
    pub open spec fn with_message(self, id: MessageId, message: Message) -> Self {
        CoreState { messages: self.messages.update(self.message_index(id), message), ..self }
    }
}

impl MindChatCore {
    /// Finds the first conversation that `(account, kind, address)` names.
    fn lookup_conversation(&self, account_id: AccountId, kind: ConversationKind, address: &str) -> (r:
        Option<usize>)
        ensures
            match r {
                Some(i) => i == conversation_lookup(self@.conversations, account_id, kind, address@)
                    && i < self@.conversations.len(),
                None => conversation_lookup(self@.conversations, account_id, kind, address@)
                    == self@.conversations.len(),
            },
    {
        let ghost p = conversation_for(account_id, kind, address@);
        let mut i: usize = 0;
        while i < self.conversations.len()
            invariant
                i <= self.conversations.len(),
                p == conversation_for(account_id, kind, address@),
                forall|k: int| 0 <= k < i ==> !p(#[trigger] self@.conversations[k]),
            decreases self.conversations.len() - i,
        {
            let c = &self.conversations[i];
            if c.account_id == account_id && c.kind == kind && crate::proxy::str_equal(
                c.address.as_str(),
                address,
            ) {
                proof {
                    lemma_first_where_unique(self@.conversations, p, i as int);
                }
                return Some(i);
            }
            i = i + 1;
        }
        proof {
            lemma_first_where_unique(self@.conversations, p, i as int);
        }
        None
    }
}

/// `n + 1`, saturating at `u32::MAX`.
pub open spec fn saturating_inc(n: u32) -> u32 {
    if n < u32::MAX {
        (n + 1) as u32
    } else {
        u32::MAX
    }
}

/// The conversation after activity at `now`, with the unread badge raised when `increment`.
pub open spec fn touched(c: Conversation, now_epoch_ms: u64, increment: bool) -> Conversation {
    Conversation {
        last_activity_epoch_ms: now_epoch_ms,
        unread_count: if increment {
            saturating_inc(c.unread_count)
        } else {
            c.unread_count
        },
        ..c
    }
}

/// Whether `m` is the text message stored under `id`.
pub open spec fn text_message(
    m: Message,
    id: MessageId,
    conversation_id: ConversationId,
    sender: Seq<char>,
    body: Seq<char>,
    direction: MessageDirection,
    now_epoch_ms: u64,
    delivery_state: DeliveryState,
    in_reply_to: Option<MessageId>,
) -> bool {
    &&& m.id == id
    &&& m.conversation_id == conversation_id
    &&& m.sender@ == sender
    &&& m.body@ == body
    &&& m.direction == direction
    &&& m.kind == MessageKind::Text
    &&& m.sent_at_epoch_ms == now_epoch_ms
    &&& m.delivery_state == delivery_state
    &&& m.in_reply_to == in_reply_to
    &&& m.attachment is None
}

impl CoreState {
    /// The state after a new text message `m` with id `id` lands in conversation `c`.
    pub open spec fn with_new_message(
        self,
        c: ConversationId,
        m: Message,
        id: MessageId,
        now_epoch_ms: u64,
        incoming: bool,
    ) -> Self {
        CoreState {
            next_message_id: (id + 1) as u64,
            messages: self.messages.push(m),
            conversations: self.conversations.update(
                self.conversation_index(c),
                touched(self.conversation(c), now_epoch_ms, incoming),
            ),
            events: self.events.push(CoreEvent::ConversationChanged(c)).push(
                CoreEvent::MessageAdded(id),
            ),
            ..self
        }
    }
}

impl MindChatCore {
    /// Records activity on a conversation.
    fn touch_conversation(
        &mut self,
        conversation_id: ConversationId,
        now_epoch_ms: u64,
        increment_unread: bool,
    ) -> (r: Result<(), CoreError>)
        requires
            old(self)@.wf(),
        ensures
            final(self)@.wf(),
            !old(self)@.has_conversation(conversation_id) ==> r == Err::<(), CoreError>(
                CoreError::UnknownConversation(conversation_id),
            ) && final(self)@ == old(self)@,
            old(self)@.has_conversation(conversation_id) ==> r is Ok && final(self)@ == (CoreState {
                conversations: old(self)@.conversations.update(
                    old(self)@.conversation_index(conversation_id),
                    touched(
                        old(self)@.conversation(conversation_id),
                        now_epoch_ms,
                        increment_unread,
                    ),
                ),
                events: old(self)@.events.push(CoreEvent::ConversationChanged(conversation_id)),
                ..old(self)@
            }),
    {
        let i = match self.find_conversation(conversation_id) {
            Some(i) => i,
            None => return Err(CoreError::UnknownConversation(conversation_id)),
        };
        let mut c = self.conversations.remove(i);
        c.last_activity_epoch_ms = now_epoch_ms;
        if increment_unread {
            c.unread_count = if c.unread_count < u32::MAX {
                c.unread_count + 1
            } else {
                u32::MAX
            };
        }
        self.conversations.insert(i, c);
        self.events.push(CoreEvent::ConversationChanged(conversation_id));
        proof {
            assert(self@.conversations =~= old(self)@.conversations.update(i as int, c));
            assert(conversation_ids(self@.conversations) =~= conversation_ids(
                old(self)@.conversations,
            ));
        }
        Ok(())
    }

    /// Clears the unread badge after the active chat becomes visible.
    pub fn mark_conversation_read(&mut self, conversation_id: ConversationId) -> (r: Result<
        (),
        CoreError,
    >)
        requires
            old(self)@.wf(),
        ensures
            final(self)@.wf(),
            read_step(old(self)@, final(self)@, r, conversation_id),
    {
        let i = match self.find_conversation(conversation_id) {
            Some(i) => i,
            None => return Err(CoreError::UnknownConversation(conversation_id)),
        };
        let mut c = self.conversations.remove(i);
        c.unread_count = 0;
        self.conversations.insert(i, c);
        self.events.push(CoreEvent::ConversationChanged(conversation_id));
        proof {
            assert(self@.conversations =~= old(self)@.conversations.update(i as int, c));
            assert(conversation_ids(self@.conversations) =~= conversation_ids(
                old(self)@.conversations,
            ));
        }
        Ok(())
    }

    /// Appends a text message with a fresh id; the conversation must exist.
    fn push_text_message(
        &mut self,
        conversation_id: ConversationId,
        sender: &str,
        body: String,
        direction: MessageDirection,
        delivery_state: DeliveryState,
        in_reply_to: Option<MessageId>,
        now_epoch_ms: u64,
    ) -> (id: MessageId)
        requires
            old(self)@.wf(),
            old(self)@.message_headroom(),
            old(self)@.has_conversation(conversation_id),
        ensures
            final(self)@.wf(),
            id == fresh(old(self)@.next_message_id),
            text_message(
                final(self)@.messages.last(),
                id,
                conversation_id,
                sender@,
                body@,
                direction,
                now_epoch_ms,
                delivery_state,
                in_reply_to,
            ),
            final(self)@ == old(self)@.with_new_message(
                conversation_id,
                final(self)@.messages.last(),
                id,
                now_epoch_ms,
                direction == MessageDirection::Incoming,
            ),
    {
        let ghost before = self@;
        let id = self.allocate_message_id();
        let message = Message {
            id,
            conversation_id,
            sender: sender.to_owned(),
            body,
            direction,
            kind: MessageKind::Text,
            sent_at_epoch_ms: now_epoch_ms,
            delivery_state,
            in_reply_to,
            attachment: None,
        };
        self.messages.push(message);
        proof {
            assert(message_ids(self@.messages) =~= message_ids(before.messages).push(id));
            lemma_push_increasing(message_ids(before.messages), id);
        }
        let incoming = match direction {
            MessageDirection::Incoming => true,
            MessageDirection::Outgoing => false,
        };
        let _ = self.touch_conversation(conversation_id, now_epoch_ms, incoming);
        self.events.push(CoreEvent::MessageAdded(id));
        id
    }

    /// Inserts an incoming text message after the transport has validated it.
    pub fn receive_text(
        &mut self,
        conversation_id: ConversationId,
        sender: &str,
        body: &str,
        now_epoch_ms: u64,
    ) -> (r: Result<MessageId, CoreError>)
        requires
            old(self)@.wf(),
            old(self)@.message_headroom(),
        ensures
            final(self)@.wf(),
            !old(self)@.has_conversation(conversation_id) ==> r == Err::<MessageId, CoreError>(
                CoreError::UnknownConversation(conversation_id),
            ) && final(self)@ == old(self)@,
            old(self)@.has_conversation(conversation_id) ==> match body_check(body@) {
                Err(e) => r == Err::<MessageId, CoreError>(e) && final(self)@ == old(self)@,
                Ok(text) => {
                    let id = fresh(old(self)@.next_message_id);
                    &&& r == Ok::<MessageId, CoreError>(id)
                    &&& text_message(
                        final(self)@.messages.last(),
                        id,
                        conversation_id,
                        sender@,
                        text,
                        MessageDirection::Incoming,
                        now_epoch_ms,
                        DeliveryState::Delivered,
                        None,
                    )
                    &&& final(self)@ == old(self)@.with_new_message(
                        conversation_id,
                        final(self)@.messages.last(),
                        id,
                        now_epoch_ms,
                        true,
                    )
                },
            },
    {
        if let Err(e) = self.ensure_conversation(conversation_id) {
            return Err(e);
        }
        let text = match validate_body(body) {
            Ok(text) => text,
            Err(e) => return Err(e),
        };
        let id = self.push_text_message(
            conversation_id,
            sender,
            text,
            MessageDirection::Incoming,
            DeliveryState::Delivered,
            None,
            now_epoch_ms,
        );
        Ok(id)
    }

    /// Adds an outgoing text message to the pending queue projection.
    pub fn send_text(
        &mut self,
        conversation_id: ConversationId,
        sender: &str,
        body: &str,
        in_reply_to: Option<MessageId>,
        now_epoch_ms: u64,
    ) -> (r: Result<MessageId, CoreError>)
        requires
            old(self)@.wf(),
            old(self)@.message_headroom(),
        ensures
            final(self)@.wf(),
            send_step(
                old(self)@,
                final(self)@,
                r,
                conversation_id,
                sender@,
                body@,
                in_reply_to,
                now_epoch_ms,
            ),
    {
        if let Err(e) = self.ensure_conversation(conversation_id) {
            return Err(e);
        }
        if let Some(reply_id) = in_reply_to {
            match self.find_message(reply_id) {
                Some(i) => {
                    if self.messages[i].conversation_id != conversation_id {
                        return Err(CoreError::InvalidReplyTarget);
                    }
                },
                None => return Err(CoreError::UnknownMessage(reply_id)),
            }
        }
        let text = match validate_body(body) {
            Ok(text) => text,
            Err(e) => return Err(e),
        };
        let id = self.push_text_message(
            conversation_id,
            sender,
            text,
            MessageDirection::Outgoing,
            DeliveryState::Pending,
            in_reply_to,
            now_epoch_ms,
        );
        Ok(id)
    }
}

/// What `send_text` answers: the first failing check, else the fresh message id.
pub open spec fn send_text_outcome(
    state: CoreState,
    conversation_id: ConversationId,
    body: Seq<char>,
    in_reply_to: Option<MessageId>,
) -> Result<MessageId, CoreError> {
    if !state.has_conversation(conversation_id) {
        Err(CoreError::UnknownConversation(conversation_id))
    } else if in_reply_to is Some && !state.has_message(in_reply_to->Some_0) {
        Err(CoreError::UnknownMessage(in_reply_to->Some_0))
    } else if in_reply_to is Some && state.message(in_reply_to->Some_0).conversation_id
        != conversation_id {
        Err(CoreError::InvalidReplyTarget)
    } else {
        match body_check(body) {
            Err(e) => Err(e),
            Ok(_) => Ok(fresh(state.next_message_id)),
        }
    }
}

/// What `open_conversation` answers.
pub open spec fn open_conversation_outcome(
    state: CoreState,
    account_id: AccountId,
    kind: ConversationKind,
    address: Seq<char>,
) -> Result<ConversationId, CoreError> {
    let found = conversation_lookup(state.conversations, account_id, kind, address);
    if !jid_ok(address) {
        Err(CoreError::InvalidConversationAddress)
    } else if !state.has_account(account_id) {
        Err(CoreError::UnknownAccount(account_id))
    } else if kind == ConversationKind::MultiUserChat && !state.account(
        account_id,
    ).capabilities@.contains(ProtocolCapability::MultiUserChat) {
        Err(CoreError::CapabilityUnavailable(ProtocolCapability::MultiUserChat))
    } else if found < state.conversations.len() {
        Ok(state.conversations[found].id)
    } else {
        Ok(fresh(state.next_conversation_id))
    }
}

/// The state after a fresh conversation `c` with id `id` is stored.
pub open spec fn with_new_conversation(state: CoreState, c: Conversation, id: ConversationId) -> CoreState {
    CoreState {
        next_conversation_id: (id + 1) as u64,
        conversations: state.conversations.push(c),
        events: state.events.push(CoreEvent::ConversationChanged(id)),
        ..state
    }
}

impl MindChatCore {
    /// Stores a fresh conversation.
    fn push_conversation(
        &mut self,
        account_id: AccountId,
        kind: ConversationKind,
        address: String,
        title: String,
        now_epoch_ms: u64,
    ) -> (id: ConversationId)
        requires
            old(self)@.wf(),
            old(self)@.conversation_headroom(),
        ensures
            final(self)@.wf(),
            id == fresh(old(self)@.next_conversation_id),
            new_conversation(
                final(self)@.conversations.last(),
                id,
                account_id,
                kind,
                address@,
                title@,
                now_epoch_ms,
            ),
            final(self)@ == with_new_conversation(
                old(self)@,
                final(self)@.conversations.last(),
                id,
            ),
    {
        let ghost before = self@;
        let id = self.allocate_conversation_id();
        let c = Conversation {
            id,
            account_id,
            kind,
            address,
            title,
            unread_count: 0,
            last_activity_epoch_ms: now_epoch_ms,
        };
        self.conversations.push(c);
        self.events.push(CoreEvent::ConversationChanged(id));
        proof {
            assert(conversation_ids(self@.conversations) =~= conversation_ids(
                before.conversations,
            ).push(id));
            lemma_push_increasing(conversation_ids(before.conversations), id);
        }
        id
    }

    /// Opens or creates a conversation projection.
    pub fn open_conversation(
        &mut self,
        account_id: AccountId,
        kind: ConversationKind,
        address: &str,
        title: &str,
        now_epoch_ms: u64,
    ) -> (r: Result<ConversationId, CoreError>)
        requires
            old(self)@.wf(),
            old(self)@.conversation_headroom(),
        ensures
            final(self)@.wf(),
            r == open_conversation_outcome(old(self)@, account_id, kind, address@),
            r is Err || conversation_lookup(
                old(self)@.conversations,
                account_id,
                kind,
                address@,
            ) < old(self)@.conversations.len() ==> final(self)@ == old(self)@,
            r is Ok && conversation_lookup(old(self)@.conversations, account_id, kind, address@)
                == old(self)@.conversations.len() ==> new_conversation(
                final(self)@.conversations.last(),
                r->Ok_0,
                account_id,
                kind,
                address@,
                title@,
                now_epoch_ms,
            ) && final(self)@ == with_new_conversation(
                old(self)@,
                final(self)@.conversations.last(),
                r->Ok_0,
            ),
    {
        if let Err(e) = crate::rules::validate_conversation_address(address) {
            return Err(e);
        }
        let ai = match self.find_account(account_id) {
            Some(i) => i,
            None => return Err(CoreError::UnknownAccount(account_id)),
        };
        if matches!(kind, ConversationKind::MultiUserChat) && !self.accounts[ai].capabilities.contains(
            ProtocolCapability::MultiUserChat,
        ) {
            return Err(CoreError::CapabilityUnavailable(ProtocolCapability::MultiUserChat));
        }
        if let Some(ci) = self.lookup_conversation(account_id, kind, address) {
            return Ok(self.conversations[ci].id);
        }
        let id = self.push_conversation(
            account_id,
            kind,
            address.to_owned(),
            title.to_owned(),
            now_epoch_ms,
        );
        Ok(id)
    }

    /// Applies an incoming message addressed to a conversation, creating the
    /// conversation on first contact. Data for an unknown account or with an
    /// invalid address is skipped (`Ok(None)`).
    fn receive_transport_text(
        &mut self,
        account_id: AccountId,
        kind: ConversationKind,
        address: String,
        sender: String,
        body: String,
        received_at_epoch_ms: u64,
    ) -> (r: Result<Option<MessageId>, CoreError>)
        requires
            old(self)@.wf(),
            old(self)@.conversation_headroom(),
            old(self)@.message_headroom(),
        ensures
            final(self)@.wf(),
            incoming_step(
                old(self)@,
                final(self)@,
                r,
                account_id,
                kind,
                address@,
                sender@,
                body@,
                received_at_epoch_ms,
            ),
    {
        if self.find_account(account_id).is_none() {
            return Ok(None);
        }
        if crate::rules::validate_conversation_address(address.as_str()).is_err() {
            return Ok(None);
        }
        if let Err(e) = validate_body(body.as_str()) {
            return Err(e);
        }
        let ghost s0 = self@;
        let conversation_id = match self.lookup_conversation(account_id, kind, address.as_str()) {
            Some(ci) => self.conversations[ci].id,
            None => {
                let title = crate::rules::prefix_before(address.as_str(), '@');
                self.push_conversation(account_id, kind, address, title, received_at_epoch_ms)
            },
        };
        let ghost s1 = self@;
        proof {
            let found = conversation_lookup(s0.conversations, account_id, kind, address@);
            if found < s0.conversations.len() {
                lemma_index_of(conversation_ids(s0.conversations), found);
            } else {
                let n = s1.conversations.len() - 1;
                assert(conversation_ids(s1.conversations)[n] == conversation_id);
                lemma_index_of(conversation_ids(s1.conversations), n);
            }
        }
        let id = self.push_text_message(
            conversation_id,
            sender.as_str(),
            match validate_body(body.as_str()) {
                Ok(text) => text,
                Err(_) => body,
            },
            MessageDirection::Incoming,
            DeliveryState::Delivered,
            None,
            received_at_epoch_ms,
        );
        Ok(Some(id))
    }
}

/// What applying an incoming text answers.
pub open spec fn received_outcome(
    state: CoreState,
    account_id: AccountId,
    address: Seq<char>,
    body: Seq<char>,
) -> Result<Option<MessageId>, CoreError> {
    if !state.has_account(account_id) || !jid_ok(address) {
        Ok(None)
    } else {
        match body_check(body) {
            Err(e) => Err(e),
            Ok(_) => Ok(Some(fresh(state.next_message_id))),
        }
    }
}

/// The state after applying an incoming text: unchanged when it is skipped or
/// refused, else the message (and, on first contact, its conversation) added.
pub open spec fn received_state(
    state: CoreState,
    account_id: AccountId,
    kind: ConversationKind,
    address: Seq<char>,
    sender: Seq<char>,
    body: Seq<char>,
    received_at_epoch_ms: u64,
    new_conv: Conversation,
    new_msg: Message,
) -> CoreState {
    let found = conversation_lookup(state.conversations, account_id, kind, address);
    if !state.has_account(account_id) || !jid_ok(address) || body_check(body) is Err {
        state
    } else if found < state.conversations.len() {
        state.with_new_message(
            state.conversations[found].id,
            new_msg,
            fresh(state.next_message_id),
            received_at_epoch_ms,
            true,
        )
    } else {
        let id = fresh(state.next_conversation_id);
        with_new_conversation(state, new_conv, id).with_new_message(
            id,
            new_msg,
            fresh(state.next_message_id),
            received_at_epoch_ms,
            true,
        )
    }
}

/// What the capability gate of a conversation answers.
pub open spec fn capability_gate(
    state: CoreState,
    conversation_id: ConversationId,
    capability: ProtocolCapability,
) -> Result<(), CoreError> {
    if !state.has_conversation(conversation_id) {
        Err(CoreError::UnknownConversation(conversation_id))
    } else if !state.has_account(state.conversation(conversation_id).account_id) {
        Err(CoreError::UnknownAccount(state.conversation(conversation_id).account_id))
    } else if !state.account(state.conversation(conversation_id).account_id).capabilities@.contains(
        capability,
    ) {
        Err(CoreError::CapabilityUnavailable(capability))
    } else {
        Ok(())
    }
}

/// Whether a delivery update from `sender` on `account_id` may raise message `message_id` to `state`.
pub open spec fn receipt_applies(
    core: CoreState,
    account_id: AccountId,
    sender: Seq<char>,
    message_id: MessageId,
    state: DeliveryState,
) -> bool {
    &&& core.has_account(account_id)
    &&& jid_ok(sender)
    &&& core.has_message(message_id)
    &&& core.message(message_id).direction == MessageDirection::Outgoing
    &&& core.has_conversation(core.message(message_id).conversation_id)
    &&& core.conversation(core.message(message_id).conversation_id).account_id == account_id
    &&& core.conversation(core.message(message_id).conversation_id).kind
        == ConversationKind::Direct
    &&& core.conversation(core.message(message_id).conversation_id).address@ == sender
    &&& rank_of(core.message(message_id).delivery_state) < rank_of(state)
}

/// Whether a message is queued for sending: outgoing and pending or failed.
pub open spec fn is_queued(m: Message) -> bool {
    m.direction == MessageDirection::Outgoing && (m.delivery_state == DeliveryState::Pending
        || m.delivery_state == DeliveryState::Failed)
}

/// Whether a message is queued for sending on `account_id`.
pub open spec fn queued_for(state: CoreState, account_id: AccountId) -> spec_fn(Message) -> bool {
    |m: Message|
        is_queued(m) && state.has_conversation(m.conversation_id) && state.conversation(
            m.conversation_id,
        ).account_id == account_id
}

/// The transport request for a queued message.
pub open spec fn outgoing_of(state: CoreState, account_id: AccountId, m: Message) -> OutgoingMessage {
    let c = state.conversation(m.conversation_id);
    OutgoingMessage {
        account_id,
        conversation_id: c.id,
        message_id: m.id,
        kind: c.kind,
        recipient: c.address,
        body: m.body,
        in_reply_to: m.in_reply_to,
    }
}

/// The queued messages of an account in message-id order, as transport requests.
pub open spec fn queued_messages(state: CoreState, account_id: AccountId) -> Seq<OutgoingMessage> {
    state.messages.filter(queued_for(state, account_id)).map_values(
        |m: Message| outgoing_of(state, account_id, m),
    )
}

impl MindChatCore {
    /// Updates the delivery projection received from Stream Management or a receipt.
    pub fn set_delivery_state(&mut self, message_id: MessageId, delivery_state: DeliveryState) -> (r:
        Result<(), CoreError>)
        requires
            old(self)@.wf(),
        ensures
            final(self)@.wf(),
            !old(self)@.has_message(message_id) ==> r == Err::<(), CoreError>(
                CoreError::UnknownMessage(message_id),
            ) && final(self)@ == old(self)@,
            old(self)@.has_message(message_id) ==> r is Ok && final(self)@ == (CoreState {
                messages: old(self)@.messages.update(
                    old(self)@.message_index(message_id),
                    Message { delivery_state, ..old(self)@.message(message_id) },
                ),
                events: old(self)@.events.push(CoreEvent::MessageChanged(message_id)),
                ..old(self)@
            }),
    {
        let i = match self.find_message(message_id) {
            Some(i) => i,
            None => return Err(CoreError::UnknownMessage(message_id)),
        };
        let mut m = self.messages.remove(i);
        m.delivery_state = delivery_state;
        self.messages.insert(i, m);
        self.events.push(CoreEvent::MessageChanged(message_id));
        proof {
            assert(self@.messages =~= old(self)@.messages.update(i as int, m));
            assert(message_ids(self@.messages) =~= message_ids(old(self)@.messages));
        }
        Ok(())
    }

    /// Applies a scoped delivery update from the transport. Receipts for
    /// unknown, unrelated, foreign or non-direct messages, and receipts that
    /// would lower a stronger state, are ignored (`Ok(false)`).
    fn apply_delivery_update(
        &mut self,
        account_id: AccountId,
        sender: &str,
        message_id: MessageId,
        delivery_state: DeliveryState,
    ) -> (r: Result<bool, CoreError>)
        requires
            old(self)@.wf(),
        ensures
            final(self)@.wf(),
            r == Ok::<bool, CoreError>(
                receipt_applies(old(self)@, account_id, sender@, message_id, delivery_state),
            ),
            receipt_step(old(self)@, final(self)@, account_id, sender@, message_id, delivery_state),
    {
        if self.find_account(account_id).is_none() || validate_jid(sender).is_err() {
            return Ok(false);
        }
        let mi = match self.find_message(message_id) {
            Some(i) => i,
            None => return Ok(false),
        };
        if !matches!(self.messages[mi].direction, MessageDirection::Outgoing) {
            return Ok(false);
        }
        let ci = match self.find_conversation(self.messages[mi].conversation_id) {
            Some(i) => i,
            None => return Ok(false),
        };
        let c = &self.conversations[ci];
        if c.account_id != account_id || !matches!(c.kind, ConversationKind::Direct)
            || !crate::proxy::str_equal(c.address.as_str(), sender) {
            return Ok(false);
        }
        if delivery_rank(delivery_state) <= delivery_rank(self.messages[mi].delivery_state) {
            return Ok(false);
        }
        let _ = self.set_delivery_state(message_id, delivery_state);
        Ok(true)
    }

    /// The capability gate of a conversation's owning account.
    fn ensure_conversation_capability(
        &self,
        conversation_id: ConversationId,
        capability: ProtocolCapability,
    ) -> (r: Result<(), CoreError>)
        requires
            self@.wf(),
        ensures
            r == capability_gate(self@, conversation_id, capability),
    {
        let ci = match self.find_conversation(conversation_id) {
            Some(i) => i,
            None => return Err(CoreError::UnknownConversation(conversation_id)),
        };
        let owner = self.conversations[ci].account_id;
        let ai = match self.find_account(owner) {
            Some(i) => i,
            None => return Err(CoreError::UnknownAccount(owner)),
        };
        if self.accounts[ai].capabilities.contains(capability) {
            Ok(())
        } else {
            Err(CoreError::CapabilityUnavailable(capability))
        }
    }

    /// The JID of the account that owns a conversation.
    fn local_sender_for_conversation(&self, conversation_id: ConversationId) -> (r: Result<
        String,
        CoreError,
    >)
        requires
            self@.wf(),
        ensures
            !self@.has_conversation(conversation_id) ==> r == Err::<String, CoreError>(
                CoreError::UnknownConversation(conversation_id),
            ),
            self@.has_conversation(conversation_id) && !self@.has_account(
                self@.conversation(conversation_id).account_id,
            ) ==> r == Err::<String, CoreError>(
                CoreError::UnknownAccount(self@.conversation(conversation_id).account_id),
            ),
            self@.has_conversation(conversation_id) && self@.has_account(
                self@.conversation(conversation_id).account_id,
            ) ==> r == Ok::<String, CoreError>(
                self@.account(self@.conversation(conversation_id).account_id).jid,
            ),
    {
        let ci = match self.find_conversation(conversation_id) {
            Some(i) => i,
            None => return Err(CoreError::UnknownConversation(conversation_id)),
        };
        let owner = self.conversations[ci].account_id;
        match self.find_account(owner) {
            Some(ai) => Ok(self.accounts[ai].jid.clone()),
            None => Err(CoreError::UnknownAccount(owner)),
        }
    }

    /// Adds a reaction while preserving all existing participants' reactions.
    pub fn add_reaction(&mut self, message_id: MessageId, actor: &str, emoji: &str) -> (r: Result<
        ReactionId,
        CoreError,
    >)
        requires
            old(self)@.wf(),
            old(self)@.reaction_headroom(),
        ensures
            final(self)@.wf(),
            reaction_step(old(self)@, final(self)@, r, message_id, actor@, emoji@),
    {
        let mi = match self.find_message(message_id) {
            Some(i) => i,
            None => return Err(CoreError::UnknownMessage(message_id)),
        };
        let conversation_id = self.messages[mi].conversation_id;
        if let Err(e) = self.ensure_conversation_capability(
            conversation_id,
            ProtocolCapability::MessageReactions,
        ) {
            return Err(e);
        }
        if blank(emoji) {
            return Err(CoreError::EmptyReaction);
        }
        let ghost before = self@;
        let id = self.allocate_reaction_id();
        self.reactions.push(
            Reaction { id, message_id, emoji: emoji.to_owned(), actor: actor.to_owned() },
        );
        self.events.push(CoreEvent::MessageChanged(message_id));
        proof {
            assert(reaction_ids(self@.reactions) =~= reaction_ids(before.reactions).push(id));
            lemma_push_increasing(reaction_ids(before.reactions), id);
        }
        Ok(id)
    }

    /// Adds attachment metadata after a successful or queued upload.
    pub fn attach(&mut self, message_id: MessageId, kind: MessageKind, attachment: Attachment) -> (r:
        Result<(), CoreError>)
        requires
            old(self)@.wf(),
        ensures
            final(self)@.wf(),
            r == attach_outcome(old(self)@, message_id, kind),
            r is Err ==> final(self)@ == old(self)@,
            r is Ok ==> final(self)@ == (CoreState {
                messages: old(self)@.messages.update(
                    old(self)@.message_index(message_id),
                    Message {
                        kind,
                        attachment: Some(attachment),
                        ..old(self)@.message(message_id)
                    },
                ),
                events: old(self)@.events.push(CoreEvent::MessageChanged(message_id)),
                ..old(self)@
            }),
    {
        if matches!(kind, MessageKind::Text) {
            return Err(CoreError::CapabilityUnavailable(ProtocolCapability::HttpFileUpload));
        }
        let mi = match self.find_message(message_id) {
            Some(i) => i,
            None => return Err(CoreError::UnknownMessage(message_id)),
        };
        let conversation_id = self.messages[mi].conversation_id;
        if let Err(e) = self.ensure_conversation_capability(
            conversation_id,
            ProtocolCapability::HttpFileUpload,
        ) {
            return Err(e);
        }
        let mut m = self.messages.remove(mi);
        m.kind = kind;
        m.attachment = Some(attachment);
        self.messages.insert(mi, m);
        self.events.push(CoreEvent::MessageChanged(message_id));
        proof {
            assert(self@.messages =~= old(self)@.messages.update(mi as int, m));
            assert(message_ids(self@.messages) =~= message_ids(old(self)@.messages));
        }
        Ok(())
    }

    /// Returns the locally queued outgoing text of one account in message-id
    /// order. Pending and failed messages are retained, so a reconnecting
    /// transport can retry them after a restore.
    pub fn pending_outgoing_messages(&self, account_id: AccountId) -> (r: Result<
        Vec<OutgoingMessage>,
        CoreError,
    >)
        requires
            self@.wf(),
        ensures
            !self@.has_account(account_id) ==> r == Err::<Vec<OutgoingMessage>, CoreError>(
                CoreError::UnknownAccount(account_id),
            ),
            self@.has_account(account_id) ==> (r matches Ok(v) && v@ == queued_messages(
                self@,
                account_id,
            )),
    {
        if self.find_account(account_id).is_none() {
            return Err(CoreError::UnknownAccount(account_id));
        }
        let ghost p = queued_for(self@, account_id);
        let ghost f = |m: Message| outgoing_of(self@, account_id, m);
        let mut out: Vec<OutgoingMessage> = Vec::new();
        let mut i: usize = 0;
        while i < self.messages.len()
            invariant
                self@.wf(),
                i <= self.messages.len(),
                p == queued_for(self@, account_id),
                f == (|m: Message| outgoing_of(self@, account_id, m)),
                out@ == self@.messages.subrange(0, i as int).filter(p).map_values(f),
            decreases self.messages.len() - i,
        {
            let m = &self.messages[i];
            let queued = matches!(m.direction, MessageDirection::Outgoing) && matches!(
                m.delivery_state,
                DeliveryState::Pending | DeliveryState::Failed
            );
            proof {
                assert(self@.messages.subrange(0, i + 1).drop_last() =~= self@.messages.subrange(
                    0,
                    i as int,
                ));
                reveal_with_fuel(Seq::filter, 1);
            }
            if queued {
                if let Some(ci) = self.find_conversation(m.conversation_id) {
                    let c = &self.conversations[ci];
                    if c.account_id == account_id {
                        out.push(
                            OutgoingMessage {
                                account_id,
                                conversation_id: c.id,
                                message_id: m.id,
                                kind: c.kind,
                                recipient: c.address.clone(),
                                body: m.body.clone(),
                                in_reply_to: m.in_reply_to,
                            },
                        );
                        proof {
                            let sub = self@.messages.subrange(0, i + 1);
                            assert(sub.filter(p) == sub.drop_last().filter(p).push(*m));
                            assert(sub.filter(p).map_values(f) =~= sub.drop_last().filter(
                                p,
                            ).map_values(f).push(f(*m)));
                        }
                    }
                }
            }
            i = i + 1;
        }
        proof {
            assert(self@.messages.subrange(0, i as int) =~= self@.messages);
        }
        Ok(out)
    }
}

/// What `add_reaction` answers.
pub open spec fn add_reaction_outcome(state: CoreState, message_id: MessageId, emoji: Seq<char>) -> Result<
    ReactionId,
    CoreError,
> {
    if !state.has_message(message_id) {
        Err(CoreError::UnknownMessage(message_id))
    } else if capability_gate(
        state,
        state.message(message_id).conversation_id,
        ProtocolCapability::MessageReactions,
    ) is Err {
        Err(
            capability_gate(
                state,
                state.message(message_id).conversation_id,
                ProtocolCapability::MessageReactions,
            )->Err_0,
        )
    } else if is_blank(emoji) {
        Err(CoreError::EmptyReaction)
    } else {
        Ok(fresh(state.next_reaction_id))
    }
}

/// What `attach` answers.
pub open spec fn attach_outcome(state: CoreState, message_id: MessageId, kind: MessageKind) -> Result<
    (),
    CoreError,
> {
    if kind == MessageKind::Text {
        Err(CoreError::CapabilityUnavailable(ProtocolCapability::HttpFileUpload))
    } else if !state.has_message(message_id) {
        Err(CoreError::UnknownMessage(message_id))
    } else {
        capability_gate(
            state,
            state.message(message_id).conversation_id,
            ProtocolCapability::HttpFileUpload,
        )
    }
}

/// Order on contact keys: by account, then by JID.
pub open spec fn key_lt(a1: AccountId, j1: Seq<char>, a2: AccountId, j2: Seq<char>) -> bool {
    a1 < a2 || (a1 == a2 && text_lt(j1, j2))
}

/// Whether contact `x` sorts before contact `y`.
pub open spec fn contact_lt(x: Contact, y: Contact) -> bool {
    key_lt(x.account_id, x.jid@, y.account_id, y.jid@)
}

/// Whether the contacts are in strictly increasing key order.
pub open spec fn contacts_sorted(s: Seq<Contact>) -> bool {
    forall|i: int, j: int| 0 <= i < j < s.len() ==> contact_lt(s[i], s[j])
}

/// Whether a contact sorts at or after the key `(a, j)`.
pub open spec fn not_below(a: AccountId, j: Seq<char>) -> spec_fn(Contact) -> bool {
    |x: Contact| !key_lt(x.account_id, x.jid@, a, j)
}

/// Where the key `(a, j)` belongs in sorted contacts.
pub open spec fn contact_pos(s: Seq<Contact>, a: AccountId, j: Seq<char>) -> int {
    first_where(s, not_below(a, j))
}

/// Whether the contact at `pos` has the key `(a, j)`.
pub open spec fn contact_at(s: Seq<Contact>, pos: int, a: AccountId, j: Seq<char>) -> bool {
    0 <= pos < s.len() && s[pos].account_id == a && s[pos].jid@ == j
}

/// `s` with `c` stored under its key: replacing the contact with that key, or
/// inserted in key order.
pub open spec fn upserted(s: Seq<Contact>, c: Contact) -> Seq<Contact> {
    let pos = contact_pos(s, c.account_id, c.jid@);
    if contact_at(s, pos, c.account_id, c.jid@) {
        s.update(pos, c)
    } else {
        s.insert(pos, c)
    }
}

/// The key order is transitive.
pub proof fn lemma_key_lt_transitive(
    a1: AccountId,
    j1: Seq<char>,
    a2: AccountId,
    j2: Seq<char>,
    a3: AccountId,
    j3: Seq<char>,
)
    requires
        key_lt(a1, j1, a2, j2),
        key_lt(a2, j2, a3, j3),
    ensures
        key_lt(a1, j1, a3, j3),
{
    if a1 == a2 && a2 == a3 {
        lemma_text_lt_transitive(j1, j2, j3);
    }
}

/// Distinct keys are ordered one way or the other, and never both.
pub proof fn lemma_key_lt_total(a1: AccountId, j1: Seq<char>, a2: AccountId, j2: Seq<char>)
    ensures
        (a1 == a2 && j1 == j2) || key_lt(a1, j1, a2, j2) || key_lt(a2, j2, a1, j1),
        !(key_lt(a1, j1, a2, j2) && key_lt(a2, j2, a1, j1)),
        !key_lt(a1, j1, a1, j1),
{
    lemma_text_lt_total(j1, j2);
    lemma_text_lt_irreflexive(j1);
}

/// Storing a contact under its key keeps the contacts sorted.
pub proof fn lemma_upserted_sorted(s: Seq<Contact>, c: Contact)
    requires
        contacts_sorted(s),
    ensures
        contacts_sorted(upserted(s, c)),
{
    let a = c.account_id;
    let j = c.jid@;
    let pos = contact_pos(s, a, j);
    lemma_first_where(s, not_below(a, j));
    let t = upserted(s, c);
    // Everything before `pos` is below the key.
    assert forall|k: int| 0 <= k < pos implies key_lt(s[k].account_id, s[k].jid@, a, j) by {
        assert(!not_below(a, j)(s[k]));
    }
    if contact_at(s, pos, a, j) {
        assert forall|x: int, y: int| 0 <= x < y < t.len() implies contact_lt(t[x], t[y]) by {
            if y == pos {
                assert(key_lt(s[x].account_id, s[x].jid@, a, j));
            } else if x == pos {
                assert(contact_lt(s[pos], s[y]));
            } else {
                assert(contact_lt(s[x], s[y]));
            }
        }
    } else {
        if pos < s.len() {
            assert(not_below(a, j)(s[pos]));
            lemma_key_lt_total(a, j, s[pos].account_id, s[pos].jid@);
        }
        assert forall|x: int, y: int| 0 <= x < y < t.len() implies contact_lt(t[x], t[y]) by {
            if x < pos && y < pos {
                assert(contact_lt(s[x], s[y]));
            } else if x < pos && y == pos {
                assert(key_lt(s[x].account_id, s[x].jid@, a, j));
            } else if x < pos && y > pos {
                assert(t[y] == s[y - 1]);
                assert(contact_lt(s[x], s[y - 1]));
            } else if x == pos {
                assert(t[y] == s[y - 1]);
                if y - 1 > pos {
                    assert(contact_lt(s[pos], s[y - 1]));
                    lemma_key_lt_transitive(
                        a,
                        j,
                        s[pos].account_id,
                        s[pos].jid@,
                        s[y - 1].account_id,
                        s[y - 1].jid@,
                    );
                }
            } else {
                assert(t[x] == s[x - 1]);
                assert(t[y] == s[y - 1]);
                assert(contact_lt(s[x - 1], s[y - 1]));
            }
        }
    }
}

impl CoreState {
    /// Whether the contact `(account, jid)` exists.
    pub open spec fn has_contact(self, account_id: AccountId, jid: Seq<char>) -> bool {
        contact_at(self.contacts, contact_pos(self.contacts, account_id, jid), account_id, jid)
    }

    /// The contact `(account, jid)`.
    pub open spec fn contact(self, account_id: AccountId, jid: Seq<char>) -> Contact {
        self.contacts[contact_pos(self.contacts, account_id, jid)]
    }

    /// The presence a roster sync keeps for `(account, jid)`: the known one, else offline.
    pub open spec fn kept_presence(self, account_id: AccountId, jid: Seq<char>) -> ContactPresence {
        if self.has_contact(account_id, jid) {
            self.contact(account_id, jid).presence
        } else {
            ContactPresence::Offline
        }
    }

    /// The status a roster sync keeps for `(account, jid)`: the known one, else none.
    pub open spec fn kept_status(self, account_id: AccountId, jid: Seq<char>) -> Option<Seq<char>> {
        if self.has_contact(account_id, jid) {
            opt_view(self.contact(account_id, jid).status)
        } else {
            None
        }
    }
}

/// Whether `c` is the contact stored for the given values.
pub open spec fn contact_with(
    c: Contact,
    account_id: AccountId,
    jid: Seq<char>,
    display_name: Seq<char>,
    presence: ContactPresence,
    status: Option<Seq<char>>,
    subscription: RosterSubscription,
) -> bool {
    &&& c.account_id == account_id
    &&& c.jid@ == jid
    &&& c.display_name@ == contact_name(display_name, jid)
    &&& c.presence == presence
    &&& opt_view(c.status) == status
    &&& c.subscription == subscription
}

impl MindChatCore {
    /// Stores `c` under its key.
    fn store_contact(&mut self, c: Contact)
        requires
            old(self)@.wf(),
        ensures
            final(self)@.wf(),
            final(self)@ == (CoreState { contacts: upserted(old(self)@.contacts, c), ..old(self)@ }),
    {
        proof {
            lemma_upserted_sorted(self@.contacts, c);
        }
        upsert_contact_in(&mut self.contacts, c);
        proof {
            assert(self@ =~= (CoreState { contacts: upserted(old(self)@.contacts, c), ..old(self)@ }));
        }
    }

    /// Creates or updates one local roster projection for an existing account.
    pub fn upsert_contact(
        &mut self,
        account_id: AccountId,
        jid: &str,
        display_name: &str,
        presence: ContactPresence,
        status: Option<String>,
    ) -> (r: Result<(), CoreError>)
        requires
            old(self)@.wf(),
        ensures
            final(self)@.wf(),
            !old(self)@.has_account(account_id) ==> r == Err::<(), CoreError>(
                CoreError::UnknownAccount(account_id),
            ) && final(self)@ == old(self)@,
            old(self)@.has_account(account_id) && !jid_ok(jid@) ==> r == Err::<(), CoreError>(
                CoreError::InvalidJid,
            ) && final(self)@ == old(self)@,
            old(self)@.has_account(account_id) && jid_ok(jid@) ==> r is Ok && exists|c: Contact|
                #[trigger] contact_with(
                    c,
                    account_id,
                    jid@,
                    display_name@,
                    presence,
                    status_of(opt_view(status)),
                    RosterSubscription::Neither,
                ) && final(self)@ == (CoreState {
                    contacts: upserted(old(self)@.contacts, c),
                    events: old(self)@.events.push(CoreEvent::RosterChanged(account_id)),
                    ..old(self)@
                }),
    {
        if let Err(e) = self.ensure_account(account_id) {
            return Err(e);
        }
        if let Err(e) = validate_jid(jid) {
            return Err(e);
        }
        let c = Contact {
            account_id,
            jid: jid.to_owned(),
            display_name: normalize_contact_name(display_name, jid),
            presence,
            status: normalize_status(status),
            subscription: RosterSubscription::Neither,
        };
        let ghost cc = c;
        self.store_contact(c);
        self.events.push(CoreEvent::RosterChanged(account_id));
        proof {
            assert(contact_with(
                cc,
                account_id,
                jid@,
                display_name@,
                presence,
                status_of(opt_view(status)),
                RosterSubscription::Neither,
            ));
        }
        Ok(())
    }

    /// Applies server-confirmed roster metadata, keeping the last presence of
    /// a known contact. Malformed data (an unknown account or an invalid JID)
    /// is ignored (`Ok(false)`).
    pub fn sync_roster_contact(
        &mut self,
        account_id: AccountId,
        jid: &str,
        display_name: &str,
        subscription: RosterSubscription,
    ) -> (r: Result<bool, CoreError>)
        requires
            old(self)@.wf(),
        ensures
            final(self)@.wf(),
            r == Ok::<bool, CoreError>(old(self)@.has_account(account_id) && jid_ok(jid@)),
            roster_upsert_step(old(self)@, final(self)@, account_id, jid@, display_name@, subscription),
    {
        if self.find_account(account_id).is_none() {
            return Ok(false);
        }
        if validate_jid(jid).is_err() {
            return Ok(false);
        }
        let pos = contact_position_in(&self.contacts, account_id, jid);
        let (presence, status) = if contact_key_at_in(&self.contacts, pos, account_id, jid) {
            (self.contacts[pos].presence, crate::model::copy_opt_string(&self.contacts[pos].status))
        } else {
            (ContactPresence::Offline, None)
        };
        let c = Contact {
            account_id,
            jid: jid.to_owned(),
            display_name: normalize_contact_name(display_name, jid),
            presence,
            status,
            subscription,
        };
        let ghost cc = c;
        self.store_contact(c);
        self.events.push(CoreEvent::RosterChanged(account_id));
        proof {
            assert(contact_with(
                cc,
                account_id,
                jid@,
                display_name@,
                old(self)@.kept_presence(account_id, jid@),
                old(self)@.kept_status(account_id, jid@),
                subscription,
            ));
        }
        Ok(true)
    }

    /// Removes a contact after a server roster removal. Removing an absent
    /// contact, or malformed data, changes nothing (`Ok(false)`).
    pub fn remove_contact(&mut self, account_id: AccountId, jid: &str) -> (r: Result<bool, CoreError>)
        requires
            old(self)@.wf(),
        ensures
            final(self)@.wf(),
            r == Ok::<bool, CoreError>(roster_removes(old(self)@, account_id, jid@)),
            roster_remove_step(old(self)@, final(self)@, account_id, jid@),
    {
        if self.find_account(account_id).is_none() {
            return Ok(false);
        }
        if validate_jid(jid).is_err() {
            return Ok(false);
        }
        let pos = contact_position_in(&self.contacts, account_id, jid);
        if !contact_key_at_in(&self.contacts, pos, account_id, jid) {
            return Ok(false);
        }
        let _ = self.contacts.remove(pos);
        self.events.push(CoreEvent::RosterChanged(account_id));
        proof {
            let t = self@.contacts;
            let s0 = old(self)@.contacts;
            assert forall|x: int, y: int| 0 <= x < y < t.len() implies contact_lt(t[x], t[y]) by {
                let xx = if x < pos { x } else { x + 1 };
                let yy = if y < pos { y } else { y + 1 };
                assert(t[x] == s0[xx]);
                assert(t[y] == s0[yy]);
            }
        }
        Ok(true)
    }

    /// Updates presence received for an existing roster contact. Presence
    /// from a non-roster JID, or malformed presence, changes nothing (`Ok(false)`).
    pub fn update_contact_presence(
        &mut self,
        account_id: AccountId,
        jid: &str,
        presence: ContactPresence,
        status: Option<String>,
    ) -> (r: Result<bool, CoreError>)
        requires
            old(self)@.wf(),
        ensures
            final(self)@.wf(),
            r == Ok::<bool, CoreError>(roster_removes(old(self)@, account_id, jid@)),
            presence_step(old(self)@, final(self)@, account_id, jid@, presence, opt_view(status)),
    {
        if self.find_account(account_id).is_none() {
            return Ok(false);
        }
        if validate_jid(jid).is_err() {
            return Ok(false);
        }
        let pos = contact_position_in(&self.contacts, account_id, jid);
        if !contact_key_at_in(&self.contacts, pos, account_id, jid) {
            return Ok(false);
        }
        let mut c = self.contacts.remove(pos);
        c.presence = presence;
        c.status = normalize_status(status);
        self.contacts.insert(pos, c);
        self.events.push(CoreEvent::RosterChanged(account_id));
        proof {
            let s0 = old(self)@.contacts;
            assert(self@.contacts =~= s0.update(pos as int, c));
            assert forall|x: int, y: int|
                0 <= x < y < self@.contacts.len() implies contact_lt(
                self@.contacts[x],
                self@.contacts[y],
            ) by {
                assert(contact_lt(s0[x], s0[y]));
            }
        }
        Ok(true)
    }
}

/// Whether a reaction belongs to a message of a doomed conversation.
pub open spec fn reaction_doomed(state: CoreState, doomed: spec_fn(ConversationId) -> bool) -> spec_fn(
    Reaction,
) -> bool {
    |r: Reaction|
        state.has_message(r.message_id) && doomed(state.message(r.message_id).conversation_id)
}

/// The state without the doomed conversations, their messages, and those
/// messages' reactions.
pub open spec fn without_conversations(state: CoreState, doomed: spec_fn(ConversationId) -> bool) -> CoreState {
    CoreState {
        conversations: state.conversations.filter(|c: Conversation| !doomed(c.id)),
        messages: state.messages.filter(|m: Message| !doomed(m.conversation_id)),
        reactions: state.reactions.filter(|r: Reaction| !reaction_doomed(state, doomed)(r)),
        ..state
    }
}

/// Whether a conversation id belongs to a conversation of `account_id`.
pub open spec fn owned_by(state: CoreState, account_id: AccountId) -> spec_fn(ConversationId) -> bool {
    |cid: ConversationId|
        state.has_conversation(cid) && state.conversation(cid).account_id == account_id
}

/// Which conversations a removal takes.
#[derive(Clone, Copy)]
pub enum Doomed {
    /// The one conversation with this id.
    Conversation(ConversationId),
    /// Every conversation of this account.
    OwnedBy(AccountId),
}

/// The conversation ids a removal takes.
pub open spec fn doomed_spec(state: CoreState, doomed: Doomed) -> spec_fn(ConversationId) -> bool {
    match doomed {
        Doomed::Conversation(c) => |cid: ConversationId| cid == c,
        Doomed::OwnedBy(a) => owned_by(state, a),
    }
}

impl MindChatCore {
    /// Whether conversation `cid` is doomed.
    fn is_doomed(&self, doomed: Doomed, cid: ConversationId) -> (r: bool)
        requires
            self@.wf(),
        ensures
            r == doomed_spec(self@, doomed)(cid),
    {
        match doomed {
            Doomed::Conversation(c) => cid == c,
            Doomed::OwnedBy(a) => match self.find_conversation(cid) {
                Some(ci) => self.conversations[ci].account_id == a,
                None => false,
            },
        }
    }

    /// Removes the doomed conversations, their messages, and the reactions to
    /// those messages, without recording an event.
    fn remove_conversations(&mut self, doomed: Doomed)
        requires
            old(self)@.wf(),
        ensures
            final(self)@.wf(),
            final(self)@ == without_conversations(old(self)@, doomed_spec(old(self)@, doomed)),
    {
        let ghost s0 = self@;
        let ghost dp = doomed_spec(s0, doomed);
        // Reactions first: whether one goes depends on the messages before removal.
        let ghost rp = |r: Reaction| !reaction_doomed(s0, dp)(r);
        let mut reactions: Vec<Reaction> = Vec::new();
        let mut i: usize = 0;
        while i < self.reactions.len()
            invariant
                self@ == s0,
                s0.wf(),
                i <= self.reactions.len(),
                dp == doomed_spec(s0, doomed),
                rp == (|r: Reaction| !reaction_doomed(s0, dp)(r)),
                reactions@ == s0.reactions.subrange(0, i as int).filter(rp),
                increasing(reaction_ids(reactions@)),
                all_below(reaction_ids(reactions@), s0.next_reaction_id),
                i < s0.reactions.len() ==> all_below(
                    reaction_ids(reactions@),
                    s0.reactions[i as int].id,
                ),
            decreases self.reactions.len() - i,
        {
            let r = &self.reactions[i];
            let gone = match self.find_message(r.message_id) {
                Some(mi) => self.is_doomed(doomed, self.messages[mi].conversation_id),
                None => false,
            };
            let ghost before = reactions@;
            proof {
                assert(s0.reactions.subrange(0, i + 1).drop_last() =~= s0.reactions.subrange(
                    0,
                    i as int,
                ));
                reveal_with_fuel(Seq::filter, 1);
                assert(reaction_ids(s0.reactions)[i as int] == r.id);
                assert(r.id < s0.next_reaction_id);
            }
            if !gone {
                reactions.push(r.clone());
                proof {
                    assert(reaction_ids(reactions@) =~= reaction_ids(before).push(r.id));
                    lemma_push_increasing(reaction_ids(before), r.id);
                }
            }
            proof {
                if i + 1 < s0.reactions.len() {
                    assert(reaction_ids(s0.reactions)[i as int] < reaction_ids(s0.reactions)[i
                        + 1]);
                }
            }
            i = i + 1;
        }
        proof {
            assert(s0.reactions.subrange(0, i as int) =~= s0.reactions);
        }
        let ghost mp = |m: Message| !dp(m.conversation_id);
        let mut messages: Vec<Message> = Vec::new();
        let mut i: usize = 0;
        while i < self.messages.len()
            invariant
                self@ == s0,
                s0.wf(),
                i <= self.messages.len(),
                dp == doomed_spec(s0, doomed),
                mp == (|m: Message| !dp(m.conversation_id)),
                messages@ == s0.messages.subrange(0, i as int).filter(mp),
                increasing(message_ids(messages@)),
                all_below(message_ids(messages@), s0.next_message_id),
                i < s0.messages.len() ==> all_below(
                    message_ids(messages@),
                    s0.messages[i as int].id,
                ),
            decreases self.messages.len() - i,
        {
            let m = &self.messages[i];
            let gone = self.is_doomed(doomed, m.conversation_id);
            let ghost before = messages@;
            proof {
                assert(s0.messages.subrange(0, i + 1).drop_last() =~= s0.messages.subrange(
                    0,
                    i as int,
                ));
                reveal_with_fuel(Seq::filter, 1);
                assert(message_ids(s0.messages)[i as int] == m.id);
            }
            if !gone {
                messages.push(m.clone());
                proof {
                    assert(message_ids(messages@) =~= message_ids(before).push(m.id));
                    lemma_push_increasing(message_ids(before), m.id);
                }
            }
            proof {
                if i + 1 < s0.messages.len() {
                    assert(message_ids(s0.messages)[i as int] < message_ids(s0.messages)[i + 1]);
                }
            }
            i = i + 1;
        }
        proof {
            assert(s0.messages.subrange(0, i as int) =~= s0.messages);
        }
        let ghost cp = |c: Conversation| !dp(c.id);
        let mut conversations: Vec<Conversation> = Vec::new();
        let mut i: usize = 0;
        while i < self.conversations.len()
            invariant
                self@ == s0,
                s0.wf(),
                i <= self.conversations.len(),
                dp == doomed_spec(s0, doomed),
                cp == (|c: Conversation| !dp(c.id)),
                conversations@ == s0.conversations.subrange(0, i as int).filter(cp),
                increasing(conversation_ids(conversations@)),
                all_below(conversation_ids(conversations@), s0.next_conversation_id),
                i < s0.conversations.len() ==> all_below(
                    conversation_ids(conversations@),
                    s0.conversations[i as int].id,
                ),
            decreases self.conversations.len() - i,
        {
            let c = &self.conversations[i];
            let gone = self.is_doomed(doomed, c.id);
            let ghost before = conversations@;
            proof {
                assert(s0.conversations.subrange(0, i + 1).drop_last()
                    =~= s0.conversations.subrange(0, i as int));
                reveal_with_fuel(Seq::filter, 1);
                assert(conversation_ids(s0.conversations)[i as int] == c.id);
            }
            if !gone {
                conversations.push(c.clone());
                proof {
                    assert(conversation_ids(conversations@) =~= conversation_ids(before).push(c.id));
                    lemma_push_increasing(conversation_ids(before), c.id);
                }
            }
            proof {
                if i + 1 < s0.conversations.len() {
                    assert(conversation_ids(s0.conversations)[i as int] < conversation_ids(
                        s0.conversations,
                    )[i + 1]);
                }
            }
            i = i + 1;
        }
        proof {
            assert(s0.conversations.subrange(0, i as int) =~= s0.conversations);
        }
        self.reactions = reactions;
        self.messages = messages;
        self.conversations = conversations;
        proof {
            assert(self@ =~= without_conversations(s0, dp));
        }
    }

    /// Removes a conversation and every message and reaction inside it.
    pub fn delete_conversation(&mut self, conversation_id: ConversationId) -> (r: Result<
        (),
        CoreError,
    >)
        requires
            old(self)@.wf(),
        ensures
            final(self)@.wf(),
            !old(self)@.has_conversation(conversation_id) ==> r == Err::<(), CoreError>(
                CoreError::UnknownConversation(conversation_id),
            ) && final(self)@ == old(self)@,
            old(self)@.has_conversation(conversation_id) ==> r is Ok && final(self)@ == (CoreState {
                events: old(self)@.events.push(CoreEvent::ConversationChanged(conversation_id)),
                ..without_conversations(
                    old(self)@,
                    |cid: ConversationId| cid == conversation_id,
                )
            }),
    {
        if self.find_conversation(conversation_id).is_none() {
            return Err(CoreError::UnknownConversation(conversation_id));
        }
        self.remove_conversations(Doomed::Conversation(conversation_id));
        self.events.push(CoreEvent::ConversationChanged(conversation_id));
        proof {
            assert(doomed_spec(old(self)@, Doomed::Conversation(conversation_id)) =~= (
            |cid: ConversationId| cid == conversation_id));
        }
        Ok(())
    }

    /// Removes an account and every projection owned by it: its contacts,
    /// its conversations, and their messages and reactions.
    pub fn delete_account(&mut self, account_id: AccountId) -> (r: Result<(), CoreError>)
        requires
            old(self)@.wf(),
        ensures
            final(self)@.wf(),
            !old(self)@.has_account(account_id) ==> r == Err::<(), CoreError>(
                CoreError::UnknownAccount(account_id),
            ) && final(self)@ == old(self)@,
            old(self)@.has_account(account_id) ==> r is Ok && final(self)@ == (CoreState {
                accounts: old(self)@.accounts.remove(old(self)@.account_index(account_id)),
                contacts: old(self)@.contacts.filter(|c: Contact| c.account_id != account_id),
                events: old(self)@.events.push(CoreEvent::AccountChanged(account_id)),
                ..without_conversations(old(self)@, owned_by(old(self)@, account_id))
            }),
    {
        let ai = match self.find_account(account_id) {
            Some(i) => i,
            None => return Err(CoreError::UnknownAccount(account_id)),
        };
        let ghost s0 = self@;
        self.remove_conversations(Doomed::OwnedBy(account_id));
        proof {
            assert(doomed_spec(s0, Doomed::OwnedBy(account_id)) =~= owned_by(s0, account_id));
        }
        let ghost s1 = self@;
        let cp = |c: Contact| c.account_id != account_id;
        let mut contacts: Vec<Contact> = Vec::new();
        let mut i: usize = 0;
        while i < self.contacts.len()
            invariant
                self@ == s1,
                s1.wf(),
                i <= self.contacts.len(),
                contacts@ == s1.contacts.subrange(0, i as int).filter(
                    |c: Contact| c.account_id != account_id,
                ),
                contacts_sorted(contacts@),
                i < s1.contacts.len() ==> forall|k: int|
                    0 <= k < contacts@.len() ==> contact_lt(
                        #[trigger] contacts@[k],
                        s1.contacts[i as int],
                    ),
            decreases self.contacts.len() - i,
        {
            let ghost before = contacts@;
            proof {
                assert(s1.contacts.subrange(0, i + 1).drop_last() =~= s1.contacts.subrange(
                    0,
                    i as int,
                ));
                reveal_with_fuel(Seq::filter, 1);
            }
            if self.contacts[i].account_id != account_id {
                contacts.push(self.contacts[i].clone());
            }
            proof {
                if i + 1 < s1.contacts.len() {
                    assert(contact_lt(s1.contacts[i as int], s1.contacts[i + 1]));
                    assert forall|k: int| 0 <= k < contacts@.len() implies contact_lt(
                        #[trigger] contacts@[k],
                        s1.contacts[i + 1],
                    ) by {
                        if k < before.len() {
                            lemma_key_lt_transitive(
                                contacts@[k].account_id,
                                contacts@[k].jid@,
                                s1.contacts[i as int].account_id,
                                s1.contacts[i as int].jid@,
                                s1.contacts[i + 1].account_id,
                                s1.contacts[i + 1].jid@,
                            );
                        }
                    }
                }
            }
            i = i + 1;
        }
        proof {
            assert(s1.contacts.subrange(0, i as int) =~= s1.contacts);
        }
        self.contacts = contacts;
        let _ = self.accounts.remove(ai);
        self.events.push(CoreEvent::AccountChanged(account_id));
        proof {
            let ids0 = account_ids(s0.accounts);
            let ids1 = account_ids(self@.accounts);
            assert(ids1 =~= ids0.remove(ai as int));
            assert forall|x: int, y: int| 0 <= x < y < ids1.len() implies ids1[x] < ids1[y] by {
                let xx = if x < ai { x } else { x + 1 };
                let yy = if y < ai { y } else { y + 1 };
                assert(ids1[x] == ids0[xx]);
                assert(ids1[y] == ids0[yy]);
            }
            assert forall|x: int| 0 <= x < ids1.len() implies #[trigger] ids1[x]
                < self@.next_account_id by {
                let xx = if x < ai { x } else { x + 1 };
                assert(ids1[x] == ids0[xx]);
            }
        }
        Ok(())
    }
}



impl Keyed for Account {
    open spec fn key_of(&self) -> u64 {
        self.id
    }

    fn key(&self) -> (r: u64) {
        self.id
    }
}

impl Keyed for Conversation {
    open spec fn key_of(&self) -> u64 {
        self.id
    }

    fn key(&self) -> (r: u64) {
        self.id
    }
}

impl Keyed for Message {
    open spec fn key_of(&self) -> u64 {
        self.id
    }

    fn key(&self) -> (r: u64) {
        self.id
    }
}

impl Keyed for Reaction {
    open spec fn key_of(&self) -> u64 {
        self.id
    }

    fn key(&self) -> (r: u64) {
        self.id
    }
}

/// The contacts stored one after another, a later contact replacing an
/// earlier one with the same (account, JID) key.
pub open spec fn contacts_restored(s: Seq<Contact>) -> Seq<Contact>
    decreases s.len(),
{
    if s.len() == 0 {
        Seq::empty()
    } else {
        upserted(contacts_restored(s.drop_last()), s.last())
    }
}

/// Restored contacts are sorted.
pub proof fn lemma_contacts_restored(s: Seq<Contact>)
    ensures
        contacts_sorted(contacts_restored(s)),
    decreases s.len(),
{
    if s.len() > 0 {
        lemma_contacts_restored(s.drop_last());
        lemma_upserted_sorted(contacts_restored(s.drop_last()), s.last());
    }
}

/// Where the key `(account, jid)` belongs in `v`.
fn contact_position_in(v: &Vec<Contact>, account_id: AccountId, jid: &str) -> (r: usize)
    ensures
        r == contact_pos(v@, account_id, jid@),
        r <= v@.len(),
{
    let ghost p = not_below(account_id, jid@);
    let mut i: usize = 0;
    while i < v.len()
        invariant
            i <= v.len(),
            p == not_below(account_id, jid@),
            forall|k: int| 0 <= k < i ==> !p(#[trigger] v@[k]),
        decreases v.len() - i,
    {
        let c = &v[i];
        let below = c.account_id < account_id || (c.account_id == account_id && text_less(
            c.jid.as_str(),
            jid,
        ));
        if !below {
            proof {
                lemma_first_where_unique(v@, p, i as int);
            }
            return i;
        }
        i = i + 1;
    }
    proof {
        lemma_first_where_unique(v@, p, i as int);
    }
    i
}

/// Whether the contact at `pos` of `v` has the key `(account, jid)`.
fn contact_key_at_in(v: &Vec<Contact>, pos: usize, account_id: AccountId, jid: &str) -> (r: bool)
    ensures
        r == contact_at(v@, pos as int, account_id, jid@),
{
    pos < v.len() && v[pos].account_id == account_id && crate::proxy::str_equal(
        v[pos].jid.as_str(),
        jid,
    )
}

/// Stores `c` under its key in `v`.
fn upsert_contact_in(v: &mut Vec<Contact>, c: Contact)
    ensures
        final(v)@ == upserted(old(v)@, c),
{
    let pos = contact_position_in(v, c.account_id, c.jid.as_str());
    if contact_key_at_in(v, pos, c.account_id, c.jid.as_str()) {
        let _ = v.remove(pos);
        v.insert(pos, c);
        proof {
            assert(v@ =~= upserted(old(v)@, c));
        }
    } else {
        v.insert(pos, c);
    }
}

/// Stores the contacts one after another, in order.
fn restore_contacts(items: Vec<Contact>) -> (r: Vec<Contact>)
    ensures
        r@ == contacts_restored(items@),
{
    let ghost orig = items@;
    let n = items.len();
    let mut items = items;
    let mut stack: Vec<Contact> = Vec::new();
    while items.len() > 0
        invariant
            items@.len() + stack@.len() == n,
            n == orig.len(),
            items@ == orig.take(items@.len() as int),
            forall|j: int| 0 <= j < stack@.len() ==> #[trigger] stack@[j] == orig[n - 1 - j],
        decreases items.len(),
    {
        let x = items.pop().unwrap();
        stack.push(x);
    }
    let mut r: Vec<Contact> = Vec::new();
    while stack.len() > 0
        invariant
            stack@.len() <= n,
            n == orig.len(),
            forall|j: int| 0 <= j < stack@.len() ==> #[trigger] stack@[j] == orig[n - 1 - j],
            r@ == contacts_restored(orig.take(n - stack@.len())),
        decreases stack.len(),
    {
        let ghost p = n - stack@.len();
        let x = stack.pop().unwrap();
        proof {
            assert(orig.take(p + 1).drop_last() =~= orig.take(p));
            assert(orig.take(p + 1).last() == x);
        }
        upsert_contact_in(&mut r, x);
    }
    proof {
        assert(orig.take(n as int) =~= orig);
    }
    r
}

/// Whether a snapshot's ids leave room for the next id of each kind.
pub open spec fn restorable(snapshot: CoreSnapshot) -> bool {
    &&& max_key(snapshot.accounts@) < u64::MAX
    &&& max_key(snapshot.conversations@) < u64::MAX
    &&& max_key(snapshot.messages@) < u64::MAX
    &&& max_key(snapshot.reactions@) < u64::MAX
}

/// The increasing keys of a restored list bound its ids below `max_key + 1`.
proof fn lemma_restored_ids<T: Keyed>(s: Seq<T>)
    requires
        max_key(s) < u64::MAX,
    ensures
        keys_increasing(restored(s)),
        forall|i: int|
            0 <= i < restored(s).len() ==> #[trigger] restored(s)[i].key_of() < max_key(s) + 1,
{
    lemma_restored(s);
    assert forall|i: int| 0 <= i < restored(s).len() implies #[trigger] restored(s)[i].key_of()
        < max_key(s) + 1 by {
        assert(restored(s).contains(restored(s)[i]));
        assert(s.contains(restored(s)[i]));
    }
}

impl MindChatCore {
    /// Whether a snapshot can be restored: every largest id leaves room for
    /// the next one.
    pub fn is_restorable(snapshot: &CoreSnapshot) -> (r: bool)
        ensures
            r == restorable(*snapshot),
    {
        largest_key(&snapshot.accounts) < u64::MAX && largest_key(&snapshot.conversations) < u64::MAX
            && largest_key(&snapshot.messages) < u64::MAX && largest_key(&snapshot.reactions)
            < u64::MAX
    }

    /// Restores the visible state from a storage snapshot. Records with the
    /// same key replace earlier ones; each id counter resumes above the
    /// largest id of its kind.
    pub fn from_snapshot(snapshot: CoreSnapshot) -> (r: Self)
        requires
            restorable(snapshot),
        ensures
            r@.wf(),
            r@.accounts == restored(snapshot.accounts@),
            r@.contacts == contacts_restored(snapshot.contacts@),
            r@.conversations == restored(snapshot.conversations@),
            r@.messages == restored(snapshot.messages@),
            r@.reactions == restored(snapshot.reactions@),
            r@.events.len() == 0,
            r@.next_account_id == max_key(snapshot.accounts@) + 1,
            r@.next_conversation_id == max_key(snapshot.conversations@) + 1,
            r@.next_message_id == max_key(snapshot.messages@) + 1,
            r@.next_reaction_id == max_key(snapshot.reactions@) + 1,
    {
        let next_account_id = largest_key(&snapshot.accounts) + 1;
        let next_conversation_id = largest_key(&snapshot.conversations) + 1;
        let next_message_id = largest_key(&snapshot.messages) + 1;
        let next_reaction_id = largest_key(&snapshot.reactions) + 1;
        let ghost snap = snapshot;
        let CoreSnapshot { accounts, contacts, conversations, messages, reactions } = snapshot;
        let r = MindChatCore {
            next_account_id,
            next_conversation_id,
            next_message_id,
            next_reaction_id,
            accounts: restore_keyed(accounts),
            contacts: restore_contacts(contacts),
            conversations: restore_keyed(conversations),
            messages: restore_keyed(messages),
            reactions: restore_keyed(reactions),
            events: Vec::new(),
        };
        proof {
            lemma_restored_ids(snap.accounts@);
            lemma_restored_ids(snap.conversations@);
            lemma_restored_ids(snap.messages@);
            lemma_restored_ids(snap.reactions@);
            lemma_contacts_restored(snap.contacts@);
            assert forall|i: int| 0 <= i < r@.accounts.len() implies #[trigger] account_ids(
                r@.accounts,
            )[i] < r@.next_account_id by {
                assert(r@.accounts[i].key_of() < max_key(snap.accounts@) + 1);
            }
            assert forall|i: int| 0 <= i < r@.conversations.len() implies #[trigger] conversation_ids(
                r@.conversations,
            )[i] < r@.next_conversation_id by {
                assert(r@.conversations[i].key_of() < max_key(snap.conversations@) + 1);
            }
            assert forall|i: int| 0 <= i < r@.messages.len() implies #[trigger] message_ids(
                r@.messages,
            )[i] < r@.next_message_id by {
                assert(r@.messages[i].key_of() < max_key(snap.messages@) + 1);
            }
            assert forall|i: int| 0 <= i < r@.reactions.len() implies #[trigger] reaction_ids(
                r@.reactions,
            )[i] < r@.next_reaction_id by {
                assert(r@.reactions[i].key_of() < max_key(snap.reactions@) + 1);
            }
            assert forall|i: int, j: int|
                0 <= i < j < r@.accounts.len() implies account_ids(r@.accounts)[i] < account_ids(
                r@.accounts,
            )[j] by {
                assert(r@.accounts[i].key_of() < r@.accounts[j].key_of());
            }
            assert forall|i: int, j: int|
                0 <= i < j < r@.conversations.len() implies conversation_ids(r@.conversations)[i]
                < conversation_ids(r@.conversations)[j] by {
                assert(r@.conversations[i].key_of() < r@.conversations[j].key_of());
            }
            assert forall|i: int, j: int|
                0 <= i < j < r@.messages.len() implies message_ids(r@.messages)[i] < message_ids(
                r@.messages,
            )[j] by {
                assert(r@.messages[i].key_of() < r@.messages[j].key_of());
            }
            assert forall|i: int, j: int|
                0 <= i < j < r@.reactions.len() implies reaction_ids(r@.reactions)[i]
                < reaction_ids(r@.reactions)[j] by {
                assert(r@.reactions[i].key_of() < r@.reactions[j].key_of());
            }
        }
        r
    }

    /// Returns a snapshot for a persistence adapter: every record, in id order
    /// (contacts in account, then JID order).
    pub fn snapshot(&self) -> (r: CoreSnapshot)
        ensures
            crate::model::same_accounts(r.accounts@, self@.accounts),
            r.contacts@ == self@.contacts,
            r.conversations@ == self@.conversations,
            r.messages@ == self@.messages,
            r.reactions@ == self@.reactions,
    {
        CoreSnapshot {
            accounts: crate::model::copy_accounts(&self.accounts),
            contacts: crate::model::copy_vec(&self.contacts),
            conversations: crate::model::copy_vec(&self.conversations),
            messages: crate::model::copy_vec(&self.messages),
            reactions: crate::model::copy_vec(&self.reactions),
        }
    }
}

/// Whether a roster removal or presence update for `(account, jid)` finds its contact.
pub open spec fn roster_removes(s0: CoreState, account_id: AccountId, jid: Seq<char>) -> bool {
    s0.has_account(account_id) && jid_ok(jid) && s0.has_contact(account_id, jid)
}

/// How a roster upsert from the server moves the state from `s0` to `s1`.
pub open spec fn roster_upsert_step(
    s0: CoreState,
    s1: CoreState,
    account_id: AccountId,
    jid: Seq<char>,
    display_name: Seq<char>,
    subscription: RosterSubscription,
) -> bool {
    if s0.has_account(account_id) && jid_ok(jid) {
        exists|c: Contact|
            #[trigger] contact_with(
                c,
                account_id,
                jid,
                display_name,
                s0.kept_presence(account_id, jid),
                s0.kept_status(account_id, jid),
                subscription,
            ) && s1 == (CoreState {
                contacts: upserted(s0.contacts, c),
                events: s0.events.push(CoreEvent::RosterChanged(account_id)),
                ..s0
            })
    } else {
        s1 == s0
    }
}

/// How a roster removal moves the state from `s0` to `s1`.
pub open spec fn roster_remove_step(
    s0: CoreState,
    s1: CoreState,
    account_id: AccountId,
    jid: Seq<char>,
) -> bool {
    if roster_removes(s0, account_id, jid) {
        s1 == (CoreState {
            contacts: s0.contacts.remove(contact_pos(s0.contacts, account_id, jid)),
            events: s0.events.push(CoreEvent::RosterChanged(account_id)),
            ..s0
        })
    } else {
        s1 == s0
    }
}

/// How a presence update moves the state from `s0` to `s1`.
pub open spec fn presence_step(
    s0: CoreState,
    s1: CoreState,
    account_id: AccountId,
    jid: Seq<char>,
    presence: ContactPresence,
    status: Option<Seq<char>>,
) -> bool {
    if roster_removes(s0, account_id, jid) {
        let pos = contact_pos(s0.contacts, account_id, jid);
        &&& opt_view(s1.contacts[pos].status) == status_of(status)
        &&& s1 == (CoreState {
            contacts: s0.contacts.update(
                pos,
                Contact { presence, status: s1.contacts[pos].status, ..s0.contacts[pos] },
            ),
            events: s0.events.push(CoreEvent::RosterChanged(account_id)),
            ..s0
        })
    } else {
        s1 == s0
    }
}

/// How a delivery receipt moves the state from `s0` to `s1`.
pub open spec fn receipt_step(
    s0: CoreState,
    s1: CoreState,
    account_id: AccountId,
    sender: Seq<char>,
    message_id: MessageId,
    state: DeliveryState,
) -> bool {
    if receipt_applies(s0, account_id, sender, message_id, state) {
        s1 == (CoreState {
            messages: s0.messages.update(
                s0.message_index(message_id),
                Message { delivery_state: state, ..s0.message(message_id) },
            ),
            events: s0.events.push(CoreEvent::MessageChanged(message_id)),
            ..s0
        })
    } else {
        s1 == s0
    }
}

impl MindChatCore {
    /// Applies one normalized event emitted by an XMPP transport adapter.
    ///
    /// Malformed or unknown transport data (an invalid JID, an invalid
    /// conversation address, or an unknown account) is skipped rather than
    /// surfaced as an error, so a single bad stanza cannot abort polling.
    pub fn apply_transport_event(&mut self, event: TransportEvent) -> (r: Result<
        Option<MessageId>,
        CoreError,
    >)
        requires
            old(self)@.wf(),
            event is IncomingText ==> old(self)@.conversation_headroom()
                && old(self)@.message_headroom(),
        ensures
            final(self)@.wf(),
            event_step(old(self)@, final(self)@, event, r),
    {
        match event {
            TransportEvent::Connected { account_id, capabilities } => {
                let i = match self.find_account(account_id) {
                    Some(i) => i,
                    None => return Ok(None),
                };
                let mut account = self.accounts.remove(i);
                account.connection_state = ConnectionState::Online;
                account.capabilities = capabilities;
                account.connection_error = None;
                account.disconnect_kind = None;
                self.accounts.insert(i, account);
                self.events.push(CoreEvent::AccountChanged(account_id));
                proof {
                    assert(self@.accounts =~= old(self)@.accounts.update(i as int, account));
                    assert(account_ids(self@.accounts) =~= account_ids(old(self)@.accounts));
                }
                Ok(None)
            },
            TransportEvent::Disconnected { account_id, recoverable, detail, kind } => {
                let i = match self.find_account(account_id) {
                    Some(i) => i,
                    None => return Ok(None),
                };
                let mut account = self.accounts.remove(i);
                account.connection_state = if recoverable {
                    ConnectionState::Offline
                } else {
                    ConnectionState::Failed
                };
                account.connection_error = detail;
                account.disconnect_kind = Some(kind);
                self.accounts.insert(i, account);
                self.events.push(CoreEvent::AccountChanged(account_id));
                proof {
                    assert(self@.accounts =~= old(self)@.accounts.update(i as int, account));
                    assert(account_ids(self@.accounts) =~= account_ids(old(self)@.accounts));
                }
                Ok(None)
            },
            TransportEvent::CapabilitiesDiscovered { account_id, capabilities } => {
                let _ = self.set_capability_set(account_id, capabilities);
                Ok(None)
            },
            TransportEvent::RosterContactUpsert { account_id, jid, display_name, subscription } => {
                let _ = self.sync_roster_contact(
                    account_id,
                    jid.as_str(),
                    display_name.as_str(),
                    subscription,
                );
                Ok(None)
            },
            TransportEvent::RosterContactRemoved { account_id, jid } => {
                let _ = self.remove_contact(account_id, jid.as_str());
                Ok(None)
            },
            TransportEvent::ContactPresenceUpdated { account_id, jid, presence, status } => {
                let _ = self.update_contact_presence(account_id, jid.as_str(), presence, status);
                Ok(None)
            },
            TransportEvent::IncomingText {
                account_id,
                kind,
                address,
                sender,
                body,
                received_at_epoch_ms,
            } => self.receive_transport_text(
                account_id,
                kind,
                address,
                sender,
                body,
                received_at_epoch_ms,
            ),
            TransportEvent::DeliveryUpdated { account_id, sender, message_id, state } => {
                let _ = self.apply_delivery_update(account_id, sender.as_str(), message_id, state);
                Ok(None)
            },
        }
    }
}

/// How an incoming text moves the state from `s0` to `s1` with answer `r`.
pub open spec fn incoming_step(
    s0: CoreState,
    s1: CoreState,
    r: Result<Option<MessageId>, CoreError>,
    account_id: AccountId,
    kind: ConversationKind,
    address: Seq<char>,
    sender: Seq<char>,
    body: Seq<char>,
    received_at_epoch_ms: u64,
) -> bool {
    &&& r == received_outcome(s0, account_id, address, body)
    &&& s1 == received_state(
        s0,
        account_id,
        kind,
        address,
        sender,
        body,
        received_at_epoch_ms,
        Conversation { unread_count: 0, ..s1.conversations.last() },
        s1.messages.last(),
    )
    &&& (r is Ok && r->Ok_0 is Some) ==> text_message(
        s1.messages.last(),
        r->Ok_0->Some_0,
        s1.messages.last().conversation_id,
        sender,
        trim(body),
        MessageDirection::Incoming,
        received_at_epoch_ms,
        DeliveryState::Delivered,
        None,
    )
    &&& (r is Ok && r->Ok_0 is Some && conversation_lookup(s0.conversations, account_id, kind, address)
        == s0.conversations.len()) ==> new_conversation(
        Conversation { unread_count: 0, ..s1.conversations.last() },
        fresh(s0.next_conversation_id),
        account_id,
        kind,
        address,
        crate::rules::before_first(address, '@'),
        received_at_epoch_ms,
    )
}

/// How sending text moves the state from `s0` to `s1` with answer `r`.
pub open spec fn send_step(
    s0: CoreState,
    s1: CoreState,
    r: Result<MessageId, CoreError>,
    conversation_id: ConversationId,
    sender: Seq<char>,
    body: Seq<char>,
    in_reply_to: Option<MessageId>,
    now_epoch_ms: u64,
) -> bool {
    &&& r == send_text_outcome(s0, conversation_id, body, in_reply_to)
    &&& r is Err ==> s1 == s0
    &&& r is Ok ==> text_message(
        s1.messages.last(),
        r->Ok_0,
        conversation_id,
        sender,
        trim(body),
        MessageDirection::Outgoing,
        now_epoch_ms,
        DeliveryState::Pending,
        in_reply_to,
    ) && s1 == s0.with_new_message(conversation_id, s1.messages.last(), r->Ok_0, now_epoch_ms, false)
}

/// How adding a reaction moves the state from `s0` to `s1` with answer `r`.
pub open spec fn reaction_step(
    s0: CoreState,
    s1: CoreState,
    r: Result<ReactionId, CoreError>,
    message_id: MessageId,
    actor: Seq<char>,
    emoji: Seq<char>,
) -> bool {
    &&& r == add_reaction_outcome(s0, message_id, emoji)
    &&& r is Err ==> s1 == s0
    &&& r is Ok ==> ({
        let x = s1.reactions.last();
        &&& x.id == r->Ok_0
        &&& x.message_id == message_id
        &&& x.emoji@ == emoji
        &&& x.actor@ == actor
        &&& s1 == (CoreState {
            next_reaction_id: (r->Ok_0 + 1) as u64,
            reactions: s0.reactions.push(x),
            events: s0.events.push(CoreEvent::MessageChanged(message_id)),
            ..s0
        })
    })
}

/// How marking a conversation read moves the state from `s0` to `s1` with answer `r`.
pub open spec fn read_step(
    s0: CoreState,
    s1: CoreState,
    r: Result<(), CoreError>,
    conversation_id: ConversationId,
) -> bool {
    if s0.has_conversation(conversation_id) {
        r is Ok && s1 == (CoreState {
            conversations: s0.conversations.update(
                s0.conversation_index(conversation_id),
                Conversation { unread_count: 0, ..s0.conversation(conversation_id) },
            ),
            events: s0.events.push(CoreEvent::ConversationChanged(conversation_id)),
            ..s0
        })
    } else {
        r == Err::<(), CoreError>(CoreError::UnknownConversation(conversation_id)) && s1 == s0
    }
}

/// The account JID that owns a conversation, or why there is none.
pub open spec fn owner_jid(s: CoreState, conversation_id: ConversationId) -> Result<
    Seq<char>,
    CoreError,
> {
    if !s.has_conversation(conversation_id) {
        Err(CoreError::UnknownConversation(conversation_id))
    } else if !s.has_account(s.conversation(conversation_id).account_id) {
        Err(CoreError::UnknownAccount(s.conversation(conversation_id).account_id))
    } else {
        Ok(s.account(s.conversation(conversation_id).account_id).jid@)
    }
}

/// The result of a core operation with its value dropped.
pub open spec fn unit_result<T>(r: Result<T, CoreError>) -> Result<Option<MessageId>, CoreError> {
    match r {
        Ok(_) => Ok(None),
        Err(e) => Err(e),
    }
}

/// The result of sending text as a command result.
pub open spec fn sent_result(r: Result<MessageId, CoreError>) -> Result<Option<MessageId>, CoreError> {
    match r {
        Ok(id) => Ok(Some(id)),
        Err(e) => Err(e),
    }
}

/// A core result as an extension command result.
pub open spec fn as_extension_result(r: Result<Option<MessageId>, CoreError>) -> Result<
    Option<MessageId>,
    ExtensionCommandError,
> {
    match r {
        Ok(v) => Ok(v),
        Err(e) => Err(ExtensionCommandError::Core(e)),
    }
}

impl MindChatCore {
    /// Applies a first-party command under the same validation as automation.
    pub fn execute(&mut self, command: CoreCommand, actor: &str, now_epoch_ms: u64) -> (r: Result<
        Option<MessageId>,
        CoreError,
    >)
        requires
            old(self)@.wf(),
            old(self)@.message_headroom(),
            old(self)@.reaction_headroom(),
        ensures
            final(self)@.wf(),
            match command {
                CoreCommand::SendText { conversation_id, body, in_reply_to } => exists|
                    x: Result<MessageId, CoreError>,
                |
                    #[trigger] send_step(
                        old(self)@,
                        final(self)@,
                        x,
                        conversation_id,
                        actor@,
                        body@,
                        in_reply_to,
                        now_epoch_ms,
                    ) && r == sent_result(x),
                CoreCommand::MarkConversationRead { conversation_id } => exists|
                    x: Result<(), CoreError>,
                | #[trigger] read_step(old(self)@, final(self)@, x, conversation_id) && r == unit_result(x),
                CoreCommand::AddReaction { message_id, emoji } => exists|
                    x: Result<ReactionId, CoreError>,
                |
                    #[trigger] reaction_step(old(self)@, final(self)@, x, message_id, actor@, emoji@)
                        && r == unit_result(x),
            },
    {
        match command {
            CoreCommand::SendText { conversation_id, body, in_reply_to } => {
                match self.send_text(conversation_id, actor, body.as_str(), in_reply_to, now_epoch_ms) {
                    Ok(id) => Ok(Some(id)),
                    Err(e) => Err(e),
                }
            },
            CoreCommand::MarkConversationRead { conversation_id } => {
                match self.mark_conversation_read(conversation_id) {
                    Ok(()) => Ok(None),
                    Err(e) => Err(e),
                }
            },
            CoreCommand::AddReaction { message_id, emoji } => {
                match self.add_reaction(message_id, actor, emoji.as_str()) {
                    Ok(_) => Ok(None),
                    Err(e) => Err(e),
                }
            },
        }
    }

    /// Executes a permissioned extension command as the owning local account.
    ///
    /// The policy is checked before any mutation, and message and reaction
    /// attribution always uses the JID of the account that owns the target
    /// conversation.
    pub fn execute_extension_command(
        &mut self,
        policy: &ExtensionPolicy,
        command: CoreCommand,
        now_epoch_ms: u64,
    ) -> (r: Result<Option<MessageId>, ExtensionCommandError>)
        requires
            old(self)@.wf(),
            old(self)@.message_headroom(),
            old(self)@.reaction_headroom(),
        ensures
            final(self)@.wf(),
            !policy.granted().contains(permission_for(command)) ==> final(self)@ == old(self)@ && (
            r matches Err(ExtensionCommandError::PermissionDenied { extension_id, permission })
                && extension_id == policy.manifest_spec().id && permission == permission_for(
                command,
            )),
            policy.granted().contains(permission_for(command)) ==> match command {
                CoreCommand::SendText { conversation_id, body, in_reply_to } => match owner_jid(
                    old(self)@,
                    conversation_id,
                ) {
                    Err(e) => r == Err::<Option<MessageId>, ExtensionCommandError>(
                        ExtensionCommandError::Core(e),
                    ) && final(self)@ == old(self)@,
                    Ok(jid) => exists|x: Result<MessageId, CoreError>|
                        #[trigger] send_step(
                            old(self)@,
                            final(self)@,
                            x,
                            conversation_id,
                            jid,
                            body@,
                            in_reply_to,
                            now_epoch_ms,
                        ) && r == as_extension_result(sent_result(x)),
                },
                CoreCommand::MarkConversationRead { conversation_id } => exists|
                    x: Result<(), CoreError>,
                |
                    #[trigger] read_step(old(self)@, final(self)@, x, conversation_id) && r
                        == as_extension_result(unit_result(x)),
                CoreCommand::AddReaction { message_id, emoji } => if !old(self)@.has_message(
                    message_id,
                ) {
                    r == Err::<Option<MessageId>, ExtensionCommandError>(
                        ExtensionCommandError::Core(CoreError::UnknownMessage(message_id)),
                    ) && final(self)@ == old(self)@
                } else {
                    match owner_jid(old(self)@, old(self)@.message(message_id).conversation_id) {
                        Err(e) => r == Err::<Option<MessageId>, ExtensionCommandError>(
                            ExtensionCommandError::Core(e),
                        ) && final(self)@ == old(self)@,
                        Ok(jid) => exists|x: Result<ReactionId, CoreError>|
                            #[trigger] reaction_step(
                                old(self)@,
                                final(self)@,
                                x,
                                message_id,
                                jid,
                                emoji@,
                            ) && r == as_extension_result(unit_result(x)),
                    }
                },
            },
    {
        if let Err(e) = policy.authorize_command(&command) {
            return Err(e);
        }
        match command {
            CoreCommand::SendText { conversation_id, body, in_reply_to } => self.send_as_owner(
                conversation_id,
                body.as_str(),
                in_reply_to,
                now_epoch_ms,
            ),
            CoreCommand::MarkConversationRead { conversation_id } => {
                match self.mark_conversation_read(conversation_id) {
                    Ok(()) => Ok(None),
                    Err(e) => Err(ExtensionCommandError::Core(e)),
                }
            },
            CoreCommand::AddReaction { message_id, emoji } => self.react_as_owner(
                message_id,
                emoji.as_str(),
            ),
        }
    }
}

impl MindChatCore {
    /// Sends text attributed to the account that owns the conversation.
    fn send_as_owner(
        &mut self,
        conversation_id: ConversationId,
        body: &str,
        in_reply_to: Option<MessageId>,
        now_epoch_ms: u64,
    ) -> (r: Result<Option<MessageId>, ExtensionCommandError>)
        requires
            old(self)@.wf(),
            old(self)@.message_headroom(),
        ensures
            final(self)@.wf(),
            owner_jid(old(self)@, conversation_id) is Err ==> r == Err::<
                Option<MessageId>,
                ExtensionCommandError,
            >(ExtensionCommandError::Core(owner_jid(old(self)@, conversation_id)->Err_0))
                && final(self)@ == old(self)@,
            owner_jid(old(self)@, conversation_id) is Ok ==> exists|
                x: Result<MessageId, CoreError>,
            |
                #[trigger] send_step(
                    old(self)@,
                    final(self)@,
                    x,
                    conversation_id,
                    owner_jid(old(self)@, conversation_id)->Ok_0,
                    body@,
                    in_reply_to,
                    now_epoch_ms,
                ) && r == as_extension_result(sent_result(x)),
    {
        let sender = match self.local_sender_for_conversation(conversation_id) {
            Ok(jid) => jid,
            Err(e) => return Err(ExtensionCommandError::Core(e)),
        };
        let ghost s0 = self@;
        let sent = self.send_text(
            conversation_id,
            sender.as_str(),
            body,
            in_reply_to,
            now_epoch_ms,
        );
        proof {
            assert(owner_jid(s0, conversation_id) == Ok::<Seq<char>, CoreError>(sender@));
            assert(send_step(
                old(self)@,
                self@,
                sent,
                conversation_id,
                owner_jid(old(self)@, conversation_id)->Ok_0,
                body@,
                in_reply_to,
                now_epoch_ms,
            ));
        }
        let out = match sent {
            Ok(id) => Ok(Some(id)),
            Err(e) => Err(ExtensionCommandError::Core(e)),
        };
        proof {
            assert(out == as_extension_result(sent_result(sent)));
        }
        out
    }

    /// Adds a reaction attributed to the account that owns the message's conversation.
    fn react_as_owner(&mut self, message_id: MessageId, emoji: &str) -> (r: Result<
        Option<MessageId>,
        ExtensionCommandError,
    >)
        requires
            old(self)@.wf(),
            old(self)@.reaction_headroom(),
        ensures
            final(self)@.wf(),
            !old(self)@.has_message(message_id) ==> r == Err::<
                Option<MessageId>,
                ExtensionCommandError,
            >(ExtensionCommandError::Core(CoreError::UnknownMessage(message_id)))
                && final(self)@ == old(self)@,
            old(self)@.has_message(message_id) && owner_jid(
                old(self)@,
                old(self)@.message(message_id).conversation_id,
            ) is Err ==> r == Err::<Option<MessageId>, ExtensionCommandError>(
                ExtensionCommandError::Core(
                    owner_jid(old(self)@, old(self)@.message(message_id).conversation_id)->Err_0,
                ),
            ) && final(self)@ == old(self)@,
            old(self)@.has_message(message_id) && owner_jid(
                old(self)@,
                old(self)@.message(message_id).conversation_id,
            ) is Ok ==> exists|x: Result<ReactionId, CoreError>|
                #[trigger] reaction_step(
                    old(self)@,
                    final(self)@,
                    x,
                    message_id,
                    owner_jid(old(self)@, old(self)@.message(message_id).conversation_id)->Ok_0,
                    emoji@,
                ) && r == as_extension_result(unit_result(x)),
    {
        let mi = match self.find_message(message_id) {
            Some(i) => i,
            None => {
                return Err(ExtensionCommandError::Core(CoreError::UnknownMessage(message_id)))
            },
        };
        let conversation_id = self.messages[mi].conversation_id;
        let actor = match self.local_sender_for_conversation(conversation_id) {
            Ok(jid) => jid,
            Err(e) => return Err(ExtensionCommandError::Core(e)),
        };
        let ghost s0 = self@;
        let added = self.add_reaction(message_id, actor.as_str(), emoji);
        proof {
            assert(owner_jid(s0, s0.message(message_id).conversation_id) == Ok::<
                Seq<char>,
                CoreError,
            >(actor@));
            assert(reaction_step(
                old(self)@,
                self@,
                added,
                message_id,
                owner_jid(old(self)@, old(self)@.message(message_id).conversation_id)->Ok_0,
                emoji@,
            ));
        }
        let out = match added {
            Ok(_) => Ok(None),
            Err(e) => Err(ExtensionCommandError::Core(e)),
        };
        proof {
            assert(out == as_extension_result(unit_result(added)));
        }
        out
    }
}

/// The state after moving account `account_id` into `state`; entering
/// `Connecting` or `Online` clears the last failure.
pub open spec fn connection_step(s: CoreState, account_id: AccountId, state: ConnectionState) -> CoreState {
    s.with_account(
        account_id,
        Account {
            connection_state: state,
            connection_error: if clears_failure(state) {
                None
            } else {
                s.account(account_id).connection_error
            },
            disconnect_kind: if clears_failure(state) {
                None
            } else {
                s.account(account_id).disconnect_kind
            },
            ..s.account(account_id)
        },
        CoreEvent::AccountChanged(account_id),
    )
}

/// How applying a transport event moves the state from `s0` to `s1` with answer `r`.
pub open spec fn event_step(
    s0: CoreState,
    s1: CoreState,
    event: TransportEvent,
    r: Result<Option<MessageId>, CoreError>,
) -> bool {
    match event {
        TransportEvent::Connected { account_id, capabilities } => r == Ok::<
            Option<MessageId>,
            CoreError,
        >(None) && if s0.has_account(account_id) {
            s1 == s0.with_account(
                account_id,
                Account {
                    connection_state: ConnectionState::Online,
                    capabilities,
                    connection_error: None,
                    disconnect_kind: None,
                    ..s0.account(account_id)
                },
                CoreEvent::AccountChanged(account_id),
            )
        } else {
            s1 == s0
        },
        TransportEvent::Disconnected { account_id, recoverable, detail, kind } => r == Ok::<
            Option<MessageId>,
            CoreError,
        >(None) && if s0.has_account(account_id) {
            s1 == s0.with_account(
                account_id,
                Account {
                    connection_state: if recoverable {
                        ConnectionState::Offline
                    } else {
                        ConnectionState::Failed
                    },
                    connection_error: detail,
                    disconnect_kind: Some(kind),
                    ..s0.account(account_id)
                },
                CoreEvent::AccountChanged(account_id),
            )
        } else {
            s1 == s0
        },
        TransportEvent::CapabilitiesDiscovered { account_id, capabilities } => r == Ok::<
            Option<MessageId>,
            CoreError,
        >(None) && if s0.has_account(account_id) {
            s1 == s0.with_account(
                account_id,
                Account { capabilities, ..s0.account(account_id) },
                CoreEvent::AccountChanged(account_id),
            )
        } else {
            s1 == s0
        },
        TransportEvent::RosterContactUpsert { account_id, jid, display_name, subscription } =>
        r == Ok::<Option<MessageId>, CoreError>(None) && roster_upsert_step(
            s0,
            s1,
            account_id,
            jid@,
            display_name@,
            subscription,
        ),
        TransportEvent::RosterContactRemoved { account_id, jid } => r == Ok::<
            Option<MessageId>,
            CoreError,
        >(None) && roster_remove_step(s0, s1, account_id, jid@),
        TransportEvent::ContactPresenceUpdated { account_id, jid, presence, status } => r
            == Ok::<Option<MessageId>, CoreError>(None) && presence_step(
            s0,
            s1,
            account_id,
            jid@,
            presence,
            opt_view(status),
        ),
        TransportEvent::IncomingText {
            account_id,
            kind,
            address,
            sender,
            body,
            received_at_epoch_ms,
        } => incoming_step(
            s0,
            s1,
            r,
            account_id,
            kind,
            address@,
            sender@,
            body@,
            received_at_epoch_ms,
        ),
        TransportEvent::DeliveryUpdated { account_id, sender, message_id, state } => r
            == Ok::<Option<MessageId>, CoreError>(None) && receipt_step(
            s0,
            s1,
            account_id,
            sender@,
            message_id,
            state,
        ),
    }
}

impl MindChatCore {
    /// The connection request for an account; the password is handed over,
    /// never stored.
    pub fn connection_request(
        &self,
        account_id: AccountId,
        password: SecretString,
        proxy: Option<ProxyConfig>,
        proxy_password: Option<SecretString>,
    ) -> (r: Result<ConnectionRequest, CoreError>)
        requires
            self@.wf(),
        ensures
            !self@.has_account(account_id) ==> r == Err::<ConnectionRequest, CoreError>(
                CoreError::UnknownAccount(account_id),
            ),
            self@.has_account(account_id) ==> r == Ok::<ConnectionRequest, CoreError>(
                ConnectionRequest {
                    account_id,
                    jid: self@.account(account_id).jid,
                    server: self@.account(account_id).server,
                    password,
                    auto_reconnect: self@.account(account_id).auto_reconnect,
                    proxy,
                    proxy_password,
                },
            ),
    {
        match self.find_account(account_id) {
            Some(i) => Ok(
                ConnectionRequest {
                    account_id,
                    jid: self.accounts[i].jid.clone(),
                    server: self.accounts[i].server.clone(),
                    password,
                    auto_reconnect: self.accounts[i].auto_reconnect,
                    proxy,
                    proxy_password,
                },
            ),
            None => Err(CoreError::UnknownAccount(account_id)),
        }
    }
}
} // verus!
