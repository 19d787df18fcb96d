//! Extension policy boundary.
//!
//! The base application loads no third-party code. These types define the
//! manifest, permission, command, and event vocabulary that a sandboxed
//! extension runtime must enforce.

use vstd::prelude::*;

use crate::model::{AccountId, ConversationId, CoreCommand, CoreError, CoreEvent, MessageId};
use crate::text::{blank, char_count, chars_of, decimal, decimal_text, is_blank};

verus! {

/// Version of the extension contract understood by this core.
pub const EXTENSION_API_VERSION: u16 = 1;

/// Longest accepted extension id, in characters.
pub const MAX_EXTENSION_ID_CHARS: usize = 128;

/// Longest accepted extension name, in characters.
pub const MAX_EXTENSION_NAME_CHARS: usize = 80;

/// Longest accepted extension version, in characters.
pub const MAX_EXTENSION_VERSION_CHARS: usize = 64;

/// Permission that an extension can request and a host can approve.
///
/// Event observation exposes only stable ids, and command permissions are
/// checked before the core mutates state.
#[derive(Clone, Copy, Debug, PartialEq, Eq, PartialOrd, Ord, Hash, Structural)]
pub enum ExtensionPermission {
    ObserveAccountChanges,
    ObserveRosterChanges,
    ObserveConversationChanges,
    ObserveMessageChanges,
    SendMessages,
    MarkConversationsRead,
    AddReactions,
}

/// Every permission, in declaration order.
pub open spec fn all_permissions() -> Seq<ExtensionPermission> {
    seq![
        ExtensionPermission::ObserveAccountChanges,
        ExtensionPermission::ObserveRosterChanges,
        ExtensionPermission::ObserveConversationChanges,
        ExtensionPermission::ObserveMessageChanges,
        ExtensionPermission::SendMessages,
        ExtensionPermission::MarkConversationsRead,
        ExtensionPermission::AddReactions,
    ]
}

/// The stable manifest spelling of a permission.
pub open spec fn permission_name(p: ExtensionPermission) -> Seq<char> {
    match p {
        ExtensionPermission::ObserveAccountChanges => "observe_account_changes"@,
        ExtensionPermission::ObserveRosterChanges => "observe_roster_changes"@,
        ExtensionPermission::ObserveConversationChanges => "observe_conversation_changes"@,
        ExtensionPermission::ObserveMessageChanges => "observe_message_changes"@,
        ExtensionPermission::SendMessages => "send_messages"@,
        ExtensionPermission::MarkConversationsRead => "mark_conversations_read"@,
        ExtensionPermission::AddReactions => "add_reactions"@,
    }
}

/// The permission spelled `name`, if any.
pub open spec fn permission_named(name: Seq<char>) -> Option<ExtensionPermission> {
    if name == permission_name(ExtensionPermission::ObserveAccountChanges) {
        Some(ExtensionPermission::ObserveAccountChanges)
    } else if name == permission_name(ExtensionPermission::ObserveRosterChanges) {
        Some(ExtensionPermission::ObserveRosterChanges)
    } else if name == permission_name(ExtensionPermission::ObserveConversationChanges) {
        Some(ExtensionPermission::ObserveConversationChanges)
    } else if name == permission_name(ExtensionPermission::ObserveMessageChanges) {
        Some(ExtensionPermission::ObserveMessageChanges)
    } else if name == permission_name(ExtensionPermission::SendMessages) {
        Some(ExtensionPermission::SendMessages)
    } else if name == permission_name(ExtensionPermission::MarkConversationsRead) {
        Some(ExtensionPermission::MarkConversationsRead)
    } else if name == permission_name(ExtensionPermission::AddReactions) {
        Some(ExtensionPermission::AddReactions)
    } else {
        None
    }
}

impl ExtensionPermission {
    /// Position of the permission in declaration order.
    pub open spec fn rank(self) -> u8 {
        match self {
            ExtensionPermission::ObserveAccountChanges => 0,
            ExtensionPermission::ObserveRosterChanges => 1,
            ExtensionPermission::ObserveConversationChanges => 2,
            ExtensionPermission::ObserveMessageChanges => 3,
            ExtensionPermission::SendMessages => 4,
            ExtensionPermission::MarkConversationsRead => 5,
            ExtensionPermission::AddReactions => 6,
        }
    }

    /// The executable rank.
    pub fn index(self) -> (r: u8)
        ensures
            r == self.rank(),
            r < 7,
    {
        match self {
            ExtensionPermission::ObserveAccountChanges => 0,
            ExtensionPermission::ObserveRosterChanges => 1,
            ExtensionPermission::ObserveConversationChanges => 2,
            ExtensionPermission::ObserveMessageChanges => 3,
            ExtensionPermission::SendMessages => 4,
            ExtensionPermission::MarkConversationsRead => 5,
            ExtensionPermission::AddReactions => 6,
        }
    }

    /// Stable manifest spelling for this permission.
    pub fn manifest_name(self) -> (r: &'static str)
        ensures
            r@ == permission_name(self),
    {
        match self {
            ExtensionPermission::ObserveAccountChanges => "observe_account_changes",
            ExtensionPermission::ObserveRosterChanges => "observe_roster_changes",
            ExtensionPermission::ObserveConversationChanges => "observe_conversation_changes",
            ExtensionPermission::ObserveMessageChanges => "observe_message_changes",
            ExtensionPermission::SendMessages => "send_messages",
            ExtensionPermission::MarkConversationsRead => "mark_conversations_read",
            ExtensionPermission::AddReactions => "add_reactions",
        }
    }

    /// Converts a stable manifest spelling into a known permission.
    pub fn from_manifest_name(value: &str) -> (r: Option<Self>)
        ensures
            r == permission_named(value@),
    {
        let all = permission_list();
        let mut i: usize = 0;
        while i < all.len()
            invariant
                i <= all.len(),
                all@ == all_permissions(),
                forall|k: int| 0 <= k < i ==> value@ != permission_name(#[trigger] all@[k]),
            decreases all.len() - i,
        {
            if crate::proxy::str_equal(value, all[i].manifest_name()) {
                return Some(all[i]);
            }
            i = i + 1;
        }
        proof {
            assert(value@ != permission_name(all@[0]));
            assert(value@ != permission_name(all@[1]));
            assert(value@ != permission_name(all@[2]));
            assert(value@ != permission_name(all@[3]));
            assert(value@ != permission_name(all@[4]));
            assert(value@ != permission_name(all@[5]));
            assert(value@ != permission_name(all@[6]));
        }
        None
    }
}

/// Every permission, as a vector.
pub fn permission_list() -> (r: Vec<ExtensionPermission>)
    ensures
        r@ == all_permissions(),
        forall|i: int| 0 <= i < r.len() ==> (#[trigger] r@[i]).rank() == i,
{
    let r = vec![
        ExtensionPermission::ObserveAccountChanges,
        ExtensionPermission::ObserveRosterChanges,
        ExtensionPermission::ObserveConversationChanges,
        ExtensionPermission::ObserveMessageChanges,
        ExtensionPermission::SendMessages,
        ExtensionPermission::MarkConversationsRead,
        ExtensionPermission::AddReactions,
    ];
    proof {
        assert(r@ =~= all_permissions());
    }
    r
}

/// The manifest spellings are distinct, and each reads back as its permission.
pub proof fn lemma_permission_names_round_trip(p: ExtensionPermission)
    ensures
        permission_named(permission_name(p)) == Some(p),
{
    reveal_strlit("observe_account_changes");
    reveal_strlit("observe_roster_changes");
    reveal_strlit("observe_conversation_changes");
    reveal_strlit("observe_message_changes");
    reveal_strlit("send_messages");
    reveal_strlit("mark_conversations_read");
    reveal_strlit("add_reactions");
    let account = permission_name(ExtensionPermission::ObserveAccountChanges);
    let roster = permission_name(ExtensionPermission::ObserveRosterChanges);
    let conversation = permission_name(ExtensionPermission::ObserveConversationChanges);
    let message = permission_name(ExtensionPermission::ObserveMessageChanges);
    let send = permission_name(ExtensionPermission::SendMessages);
    let mark = permission_name(ExtensionPermission::MarkConversationsRead);
    let add = permission_name(ExtensionPermission::AddReactions);
    assert(account.len() == 23 && roster.len() == 22 && conversation.len() == 28);
    assert(message.len() == 23 && send.len() == 13 && mark.len() == 23 && add.len() == 13);
    assert(account[8] != message[8]);
    assert(account[0] != mark[0]);
    assert(message[0] != mark[0]);
    assert(send[0] != add[0]);
}

/// Whether bit `i` of `bits` is set.
pub open spec fn bit_on(bits: u8, i: u8) -> bool {
    (bits >> i) & 1u8 == 1u8
}

proof fn lemma_bit_on_insert(bits: u8, i: u8, j: u8)
    requires
        i < 8,
        j < 8,
    ensures
        bit_on(bits | (1u8 << i), j) == (i == j || bit_on(bits, j)),
{
    assert(bit_on(bits | (1u8 << i), j) == (i == j || bit_on(bits, j))) by (bit_vector)
        requires
            i < 8,
            j < 8,
    ;
}

proof fn lemma_bit_on_empty(j: u8)
    requires
        j < 8,
    ensures
        !bit_on(0u8, j),
{
    assert(!bit_on(0u8, j)) by (bit_vector)
        requires
            j < 8,
    ;
}

/// A set of extension permissions.
#[derive(Clone, Copy, Debug, PartialEq, Eq, Hash, Structural)]
pub struct PermissionSet {
    bits: u8,
}

impl View for PermissionSet {
    type V = Set<ExtensionPermission>;

    closed spec fn view(&self) -> Set<ExtensionPermission> {
        Set::new(|p: ExtensionPermission| bit_on(self.bits, p.rank()))
    }
}

impl PermissionSet {
    /// The empty set.
    pub fn new() -> (r: Self)
        ensures
            r@ == Set::<ExtensionPermission>::empty(),
    {
        let r = PermissionSet { bits: 0 };
        proof {
            assert forall|p: ExtensionPermission| !r@.contains(p) by {
                lemma_bit_on_empty(p.rank());
            }
            assert(r@ =~= Set::<ExtensionPermission>::empty());
        }
        r
    }

    /// Whether `permission` is in the set.
    pub fn contains(&self, permission: ExtensionPermission) -> (r: bool)
        ensures
            r == self@.contains(permission),
    {
        let i = permission.index();
        (self.bits >> i) & 1u8 == 1u8
    }

    /// Adds `permission` to the set.
    pub fn insert(&mut self, permission: ExtensionPermission)
        ensures
            final(self)@ == old(self)@.insert(permission),
    {
        let i = permission.index();
        let old_bits = self.bits;
        self.bits = self.bits | (1u8 << i);
        proof {
            assert forall|p: ExtensionPermission| #[trigger]
                self@.contains(p) == old(self)@.insert(permission).contains(p) by {
                lemma_bit_on_insert(old_bits, i, p.rank());
            }
            assert(self@ =~= old(self)@.insert(permission));
        }
    }

    /// Builds a set from a list of permissions.
    pub fn from_slice(items: &[ExtensionPermission]) -> (r: Self)
        ensures
            forall|p: ExtensionPermission| #[trigger] r@.contains(p) <==> items@.contains(p),
    {
        let mut r = PermissionSet::new();
        let mut i: usize = 0;
        while i < items.len()
            invariant
                0 <= i <= items.len(),
                forall|p: ExtensionPermission| #[trigger]
                    r@.contains(p) <==> exists|k: int| 0 <= k < i && items@[k] == p,
            decreases items.len() - i,
        {
            r.insert(items[i]);
            proof {
                assert forall|p: ExtensionPermission| #[trigger]
                    r@.contains(p) <==> exists|k: int| 0 <= k < i + 1 && items@[k] == p by {
                    if p == items@[i as int] {
                        assert(items@[i as int] == p);
                    }
                }
            }
            i = i + 1;
        }
        r
    }

    /// The members in declaration order (the order a `BTreeSet` iterates them).
    pub fn to_vec(&self) -> (r: Vec<ExtensionPermission>)
        ensures
            r@ == all_permissions().filter(|p: ExtensionPermission| self@.contains(p)),
    {
        let all = permission_list();
        let mut r: Vec<ExtensionPermission> = Vec::new();
        let mut i: usize = 0;
        while i < all.len()
            invariant
                0 <= i <= all.len(),
                all@ == all_permissions(),
                r@ == all@.subrange(0, i as int).filter(
                    |p: ExtensionPermission| self@.contains(p),
                ),
            decreases all.len() - i,
        {
            let p = all[i];
            if self.contains(p) {
                r.push(p);
            }
            proof {
                assert(all@.subrange(0, i + 1).drop_last() =~= all@.subrange(0, i as int));
                reveal_with_fuel(Seq::filter, 1);
            }
            i = i + 1;
        }
        proof {
            assert(all@.subrange(0, all.len() as int) =~= all@);
        }
        r
    }
}

/// Manifest metadata rejected before an extension can receive events or issue commands.
#[derive(Clone, Copy, Debug, PartialEq, Eq, Structural)]
pub enum ExtensionManifestError {
    EmptyId,
    InvalidId,
    InvalidName,
    InvalidVersion,
    UnsupportedApiVersion { requested: u16, supported: u16 },
}

/// The text of a manifest error.
pub open spec fn manifest_error_text(e: ExtensionManifestError) -> Seq<char> {
    match e {
        ExtensionManifestError::EmptyId => "extension id cannot be empty"@,
        ExtensionManifestError::InvalidId => "extension id must be a lowercase, dot-separated reverse-domain identifier"@,
        ExtensionManifestError::InvalidName => "extension name is invalid"@,
        ExtensionManifestError::InvalidVersion => "extension version is invalid"@,
        ExtensionManifestError::UnsupportedApiVersion { requested, supported } => "extension API "@
            + decimal(requested as nat) + " is unsupported; core supports "@ + decimal(
            supported as nat,
        ),
    }
}

impl ExtensionManifestError {
    /// The message for this error (what the error displays as).
    pub fn message(&self) -> (r: String)
        ensures
            r@ == manifest_error_text(*self),
    {
        match *self {
            ExtensionManifestError::EmptyId => "extension id cannot be empty".to_owned(),
            ExtensionManifestError::InvalidId => "extension id must be a lowercase, dot-separated reverse-domain identifier".to_owned(),
            ExtensionManifestError::InvalidName => "extension name is invalid".to_owned(),
            ExtensionManifestError::InvalidVersion => "extension version is invalid".to_owned(),
            ExtensionManifestError::UnsupportedApiVersion { requested, supported } => {
                "extension API ".to_owned().concat(decimal_text(requested as u64).as_str()).concat(
                    " is unsupported; core supports ",
                ).concat(decimal_text(supported as u64).as_str())
            },
        }
    }
}

/// Whether `c` is an ASCII lowercase letter.
pub open spec fn is_lower(c: char) -> bool {
    'a' <= c && c <= 'z'
}

/// Whether `c` may appear inside an id segment.
pub open spec fn is_segment_char(c: char) -> bool {
    is_lower(c) || ('0' <= c && c <= '9') || c == '-'
}

/// Whether `s` is a reverse-domain extension id: at least two non-empty
/// dot-separated segments, each starting with a lowercase letter, holding
/// only lowercase letters, digits and `-`, and not ending with `-`.
pub open spec fn extension_id_ok(s: Seq<char>) -> bool {
    &&& s.len() > 0
    &&& is_lower(s[0])
    &&& s.last() != '-'
    &&& exists|i: int| 0 <= i < s.len() && #[trigger] s[i] == '.'
    &&& forall|i: int| 0 <= i < s.len() ==> is_segment_char(#[trigger] s[i]) || s[i] == '.'
    &&& forall|i: int|
        0 <= i < s.len() && #[trigger] s[i] == '.' ==> i + 1 < s.len() && is_lower(s[i + 1])
            && s[i - 1] != '-'
}

/// What manifest validation answers for the given fields.
pub open spec fn manifest_check(
    id: Seq<char>,
    name: Seq<char>,
    version: Seq<char>,
    api_version: u16,
) -> Result<(), ExtensionManifestError> {
    if is_blank(id) {
        Err(ExtensionManifestError::EmptyId)
    } else if id.len() > MAX_EXTENSION_ID_CHARS || !extension_id_ok(id) {
        Err(ExtensionManifestError::InvalidId)
    } else if is_blank(name) || name.len() > MAX_EXTENSION_NAME_CHARS {
        Err(ExtensionManifestError::InvalidName)
    } else if is_blank(version) || version.len() > MAX_EXTENSION_VERSION_CHARS {
        Err(ExtensionManifestError::InvalidVersion)
    } else if api_version != EXTENSION_API_VERSION {
        Err(
            ExtensionManifestError::UnsupportedApiVersion {
                requested: api_version,
                supported: EXTENSION_API_VERSION,
            },
        )
    } else {
        Ok(())
    }
}

/// Checks the reverse-domain shape of an extension id.
pub fn is_valid_extension_id(id: &str) -> (r: bool)
    ensures
        r == extension_id_ok(id@),
{
    let v = chars_of(id);
    let n = v.len();
    if n == 0 || !('a' <= v[0] && v[0] <= 'z') || v[n - 1] == '-' {
        return false;
    }
    let mut dots: usize = 0;
    let mut i: usize = 0;
    while i < n
        invariant
            n == v.len(),
            v@ == id@,
            n > 0,
            is_lower(v@[0]),
            i <= n,
            dots <= i,
            dots > 0 ==> exists|k: int| 0 <= k < i && #[trigger] v@[k] == '.',
            dots == 0 ==> forall|k: int| 0 <= k < i ==> #[trigger] v@[k] != '.',
            forall|k: int| 0 <= k < i ==> is_segment_char(#[trigger] v@[k]) || v@[k] == '.',
            forall|k: int|
                0 <= k < i && #[trigger] v@[k] == '.' ==> k + 1 < n && is_lower(v@[k + 1]) && v@[k
                    - 1] != '-',
        decreases n - i,
    {
        let c = v[i];
        if c == '.' {
            if i + 1 >= n || !('a' <= v[i + 1] && v[i + 1] <= 'z') || v[i - 1] == '-' {
                return false;
            }
            dots = dots + 1;
        } else if !(('a' <= c && c <= 'z') || ('0' <= c && c <= '9') || c == '-') {
            return false;
        }
        i = i + 1;
    }
    dots > 0
}

/// Metadata intended for a signed extension package.
#[derive(Debug, PartialEq, Eq)]
pub struct ExtensionManifest {
    pub id: String,
    pub name: String,
    pub version: String,
    pub api_version: u16,
    pub permissions: PermissionSet,
}

impl Clone for ExtensionManifest {
    fn clone(&self) -> (r: Self)
        ensures
            r == *self,
    {
        ExtensionManifest {
            id: self.id.clone(),
            name: self.name.clone(),
            version: self.version.clone(),
            api_version: self.api_version,
            permissions: self.permissions,
        }
    }
}

impl ExtensionManifest {
    /// Constructs manifest metadata. Call [`Self::validate`] before accepting
    /// metadata from an untrusted package or catalog.
    pub fn new(id: &str, name: &str, version: &str, permissions: &[ExtensionPermission]) -> (r:
        Self)
        ensures
            r.id@ == id@,
            r.name@ == name@,
            r.version@ == version@,
            r.api_version == EXTENSION_API_VERSION,
            forall|p: ExtensionPermission| #[trigger]
                r.permissions@.contains(p) <==> permissions@.contains(p),
    {
        ExtensionManifest {
            id: id.to_owned(),
            name: name.to_owned(),
            version: version.to_owned(),
            api_version: EXTENSION_API_VERSION,
            permissions: PermissionSet::from_slice(permissions),
        }
    }

    /// Validates the stable metadata rules.
    pub fn validate(&self) -> (r: Result<(), ExtensionManifestError>)
        ensures
            r == manifest_check(self.id@, self.name@, self.version@, self.api_version),
    {
        if blank(self.id.as_str()) {
            return Err(ExtensionManifestError::EmptyId);
        }
        if char_count(self.id.as_str()) > MAX_EXTENSION_ID_CHARS || !is_valid_extension_id(
            self.id.as_str(),
        ) {
            return Err(ExtensionManifestError::InvalidId);
        }
        if blank(self.name.as_str()) || char_count(self.name.as_str()) > MAX_EXTENSION_NAME_CHARS {
            return Err(ExtensionManifestError::InvalidName);
        }
        if blank(self.version.as_str()) || char_count(self.version.as_str())
            > MAX_EXTENSION_VERSION_CHARS {
            return Err(ExtensionManifestError::InvalidVersion);
        }
        if self.api_version != EXTENSION_API_VERSION {
            return Err(
                ExtensionManifestError::UnsupportedApiVersion {
                    requested: self.api_version,
                    supported: EXTENSION_API_VERSION,
                },
            );
        }
        Ok(())
    }
}

/// An id-only event visible to a permissioned extension; never message text,
/// credentials, database handles, or key material.
#[derive(Clone, Copy, Debug, PartialEq, Eq, Structural)]
pub enum ExtensionEvent {
    AccountChanged { account_id: AccountId },
    RosterChanged { account_id: AccountId },
    ConversationChanged { conversation_id: ConversationId },
    MessageAdded { message_id: MessageId },
    MessageChanged { message_id: MessageId },
}

/// Failure while converting declared manifest permissions into host grants.
#[derive(Debug, PartialEq, Eq)]
pub enum ExtensionPolicyError {
    InvalidManifest(ExtensionManifestError),
    UndeclaredGrant { extension_id: String, permission: ExtensionPermission },
}

/// The text of a policy error.
pub open spec fn policy_error_text(e: ExtensionPolicyError) -> Seq<char> {
    match e {
        ExtensionPolicyError::InvalidManifest(inner) => "invalid extension manifest: "@
            + manifest_error_text(inner),
        ExtensionPolicyError::UndeclaredGrant { extension_id, permission } => "extension "@
            + extension_id@ + " cannot be granted undeclared "@ + permission_name(permission)
            + " permission"@,
    }
}

impl ExtensionPolicyError {
    /// The message for this error (what the error displays as).
    pub fn message(&self) -> (r: String)
        ensures
            r@ == policy_error_text(*self),
    {
        match self {
            ExtensionPolicyError::InvalidManifest(inner) => "invalid extension manifest: ".to_owned().concat(
                inner.message().as_str(),
            ),
            ExtensionPolicyError::UndeclaredGrant { extension_id, permission } => "extension ".to_owned().concat(
                extension_id.as_str(),
            ).concat(" cannot be granted undeclared ").concat(permission.manifest_name()).concat(
                " permission",
            ),
        }
    }
}

/// An extension command denied by policy or rejected by domain validation.
#[derive(Debug, PartialEq, Eq)]
pub enum ExtensionCommandError {
    PermissionDenied { extension_id: String, permission: ExtensionPermission },
    Core(CoreError),
}

/// The text of a command error.
pub open spec fn command_error_text(e: ExtensionCommandError) -> Seq<char> {
    match e {
        ExtensionCommandError::PermissionDenied { extension_id, permission } => "extension "@
            + extension_id@ + " lacks "@ + permission_name(permission) + " permission"@,
        ExtensionCommandError::Core(inner) => "core rejected extension command: "@
            + crate::model::core_error_text(inner),
    }
}

impl ExtensionCommandError {
    /// The message for this error (what the error displays as).
    pub fn message(&self) -> (r: String)
        ensures
            r@ == command_error_text(*self),
    {
        match self {
            ExtensionCommandError::PermissionDenied { extension_id, permission } => "extension ".to_owned().concat(
                extension_id.as_str(),
            ).concat(" lacks ").concat(permission.manifest_name()).concat(" permission"),
            ExtensionCommandError::Core(inner) => "core rejected extension command: ".to_owned().concat(
                inner.message().as_str(),
            ),
        }
    }
}

impl From<CoreError> for ExtensionCommandError {
    fn from(value: CoreError) -> (r: Self)
        ensures
            r == ExtensionCommandError::Core(value),
    {
        ExtensionCommandError::Core(value)
    }
}

impl vstd::std_specs::convert::FromSpecImpl<CoreError> for ExtensionCommandError {
    open spec fn obeys_from_spec() -> bool {
        true
    }

    open spec fn from_spec(value: CoreError) -> Self {
        ExtensionCommandError::Core(value)
    }
}

/// The single permission required to issue a command.
pub open spec fn permission_for(command: CoreCommand) -> ExtensionPermission {
    match command {
        CoreCommand::SendText { .. } => ExtensionPermission::SendMessages,
        CoreCommand::MarkConversationRead { .. } => ExtensionPermission::MarkConversationsRead,
        CoreCommand::AddReaction { .. } => ExtensionPermission::AddReactions,
    }
}

/// Returns the single permission required to issue a command.
pub fn required_permission(command: &CoreCommand) -> (r: ExtensionPermission)
    ensures
        r == permission_for(*command),
{
    match command {
        CoreCommand::SendText { .. } => ExtensionPermission::SendMessages,
        CoreCommand::MarkConversationRead { .. } => ExtensionPermission::MarkConversationsRead,
        CoreCommand::AddReaction { .. } => ExtensionPermission::AddReactions,
    }
}

/// The extension view of one core event, when the grants allow it.
pub open spec fn visible_event(granted: Set<ExtensionPermission>, event: CoreEvent) -> Option<
    ExtensionEvent,
> {
    match event {
        CoreEvent::AccountChanged(account_id) => if granted.contains(
            ExtensionPermission::ObserveAccountChanges,
        ) {
            Some(ExtensionEvent::AccountChanged { account_id })
        } else {
            None
        },
        CoreEvent::RosterChanged(account_id) => if granted.contains(
            ExtensionPermission::ObserveRosterChanges,
        ) {
            Some(ExtensionEvent::RosterChanged { account_id })
        } else {
            None
        },
        CoreEvent::ConversationChanged(conversation_id) => if granted.contains(
            ExtensionPermission::ObserveConversationChanges,
        ) {
            Some(ExtensionEvent::ConversationChanged { conversation_id })
        } else {
            None
        },
        CoreEvent::MessageAdded(message_id) => if granted.contains(
            ExtensionPermission::ObserveMessageChanges,
        ) {
            Some(ExtensionEvent::MessageAdded { message_id })
        } else {
            None
        },
        CoreEvent::MessageChanged(message_id) => if granted.contains(
            ExtensionPermission::ObserveMessageChanges,
        ) {
            Some(ExtensionEvent::MessageChanged { message_id })
        } else {
            None
        },
    }
}

/// The events an extension with `granted` may see, in order.
pub open spec fn visible_events_of(granted: Set<ExtensionPermission>, events: Seq<CoreEvent>) -> Seq<
    ExtensionEvent,
>
    decreases events.len(),
{
    if events.len() == 0 {
        Seq::empty()
    } else {
        match visible_event(granted, events.last()) {
            Some(e) => visible_events_of(granted, events.drop_last()).push(e),
            None => visible_events_of(granted, events.drop_last()),
        }
    }
}

/// Verified manifest plus host-approved permissions for an extension runtime.
#[derive(Debug, PartialEq, Eq)]
pub struct ExtensionPolicy {
    manifest: ExtensionManifest,
    granted_permissions: PermissionSet,
}

/// The first permission (in declaration order) of `granted` missing from `declared`.
pub open spec fn first_undeclared(
    granted: Set<ExtensionPermission>,
    declared: Set<ExtensionPermission>,
) -> Option<ExtensionPermission> {
    let missing = all_permissions().filter(
        |p: ExtensionPermission| granted.contains(p) && !declared.contains(p),
    );
    if missing.len() == 0 {
        None
    } else {
        Some(missing[0])
    }
}

impl ExtensionPolicy {
    /// The validated manifest.
    pub closed spec fn manifest_spec(self) -> ExtensionManifest {
        self.manifest
    }

    /// The host-approved grants.
    pub closed spec fn granted(self) -> Set<ExtensionPermission> {
        self.granted_permissions@
    }

    /// Creates an enforceable policy from valid metadata and host-approved
    /// grants; every grant must have been requested in the manifest.
    pub fn new(manifest: ExtensionManifest, granted_permissions: &[ExtensionPermission]) -> (r:
        Result<Self, ExtensionPolicyError>)
        ensures
            match manifest_check(
                manifest.id@,
                manifest.name@,
                manifest.version@,
                manifest.api_version,
            ) {
                Err(e) => r == Err::<Self, ExtensionPolicyError>(
                    ExtensionPolicyError::InvalidManifest(e),
                ),
                Ok(()) => match first_undeclared(
                    granted_permissions@.to_set(),
                    manifest.permissions@,
                ) {
                    Some(p) => (r matches Err(ExtensionPolicyError::UndeclaredGrant {
                        extension_id,
                        permission,
                    }) && extension_id == manifest.id && permission == p),
                    None => (r matches Ok(policy) && policy.manifest_spec() == manifest
                        && policy.granted() == granted_permissions@.to_set()),
                },
            },
    {
        if let Err(e) = manifest.validate() {
            return Err(ExtensionPolicyError::InvalidManifest(e));
        }
        let granted = PermissionSet::from_slice(granted_permissions);
        let ghost gs = granted_permissions@.to_set();
        proof {
            assert(granted@ =~= gs);
        }
        let all = permission_list();
        let ghost pred = |p: ExtensionPermission| gs.contains(p) && !manifest.permissions@.contains(
            p,
        );
        let mut i: usize = 0;
        while i < all.len()
            invariant
                i <= all.len(),
                all@ == all_permissions(),
                granted@ == gs,
                gs == granted_permissions@.to_set(),
                manifest_check(manifest.id@, manifest.name@, manifest.version@, manifest.api_version)
                    == Ok::<(), ExtensionManifestError>(()),
                pred == (|p: ExtensionPermission| gs.contains(p) && !manifest.permissions@.contains(
                    p,
                )),
                all@.subrange(0, i as int).filter(pred).len() == 0,
            decreases all.len() - i,
        {
            let p = all[i];
            proof {
                assert(all@.subrange(0, i + 1).drop_last() =~= all@.subrange(0, i as int));
                reveal_with_fuel(Seq::filter, 1);
            }
            if granted.contains(p) && !manifest.permissions.contains(p) {
                proof {
                    let sub = all@.subrange(0, i + 1);
                    assert(sub.filter(pred) =~= seq![p]);
                    lemma_filter_prefix(all@, pred, i + 1);
                    let pred2 = |q: ExtensionPermission|
                        gs.contains(q) && !manifest.permissions@.contains(q);
                    assert(pred2 =~= pred);
                    assert(all_permissions().filter(pred2) == all@.filter(pred));
                    assert(first_undeclared(gs, manifest.permissions@) == Some(p));
                }
                return Err(
                    ExtensionPolicyError::UndeclaredGrant {
                        extension_id: manifest.id.clone(),
                        permission: p,
                    },
                );
            }
            i = i + 1;
        }
        proof {
            assert(all@.subrange(0, i as int) =~= all@);
        }
        Ok(ExtensionPolicy { manifest, granted_permissions: granted })
    }

    /// Returns the validated manifest metadata.
    pub fn manifest(&self) -> (r: &ExtensionManifest)
        ensures
            *r == self.manifest_spec(),
    {
        &self.manifest
    }

    /// Returns the subset of manifest permissions approved by the host.
    pub fn granted_permissions(&self) -> (r: PermissionSet)
        ensures
            r@ == self.granted(),
    {
        self.granted_permissions
    }

    /// Checks the permission required by one command before core mutation.
    pub fn authorize_command(&self, command: &CoreCommand) -> (r: Result<(), ExtensionCommandError>)
        ensures
            self.granted().contains(permission_for(*command)) ==> r is Ok,
            !self.granted().contains(permission_for(*command)) ==> (r matches Err(
                ExtensionCommandError::PermissionDenied { extension_id, permission },
            ) && extension_id == self.manifest_spec().id && permission == permission_for(*command)),
    {
        let permission = required_permission(command);
        if self.granted_permissions.contains(permission) {
            Ok(())
        } else {
            Err(
                ExtensionCommandError::PermissionDenied {
                    extension_id: self.manifest.id.clone(),
                    permission,
                },
            )
        }
    }

    /// Filters core events into the id-only stream allowed by host grants.
    pub fn visible_events(&self, events: &[CoreEvent]) -> (r: Vec<ExtensionEvent>)
        ensures
            r@ == visible_events_of(self.granted(), events@),
    {
        let mut out: Vec<ExtensionEvent> = Vec::new();
        let mut i: usize = 0;
        while i < events.len()
            invariant
                i <= events.len(),
                out@ == visible_events_of(self.granted(), events@.take(i as int)),
            decreases events.len() - i,
        {
            let shown = match events[i] {
                CoreEvent::AccountChanged(account_id) => if self.granted_permissions.contains(
                    ExtensionPermission::ObserveAccountChanges,
                ) {
                    Some(ExtensionEvent::AccountChanged { account_id })
                } else {
                    None
                },
                CoreEvent::RosterChanged(account_id) => if self.granted_permissions.contains(
                    ExtensionPermission::ObserveRosterChanges,
                ) {
                    Some(ExtensionEvent::RosterChanged { account_id })
                } else {
                    None
                },
                CoreEvent::ConversationChanged(conversation_id) => if self.granted_permissions.contains(
                    ExtensionPermission::ObserveConversationChanges,
                ) {
                    Some(ExtensionEvent::ConversationChanged { conversation_id })
                } else {
                    None
                },
                CoreEvent::MessageAdded(message_id) => if self.granted_permissions.contains(
                    ExtensionPermission::ObserveMessageChanges,
                ) {
                    Some(ExtensionEvent::MessageAdded { message_id })
                } else {
                    None
                },
                CoreEvent::MessageChanged(message_id) => if self.granted_permissions.contains(
                    ExtensionPermission::ObserveMessageChanges,
                ) {
                    Some(ExtensionEvent::MessageChanged { message_id })
                } else {
                    None
                },
            };
            proof {
                assert(events@.take(i + 1).drop_last() =~= events@.take(i as int));
                assert(events@.take(i + 1).last() == events@[i as int]);
            }
            if let Some(e) = shown {
                out.push(e);
            }
            i = i + 1;
        }
        proof {
            assert(events@.take(i as int) =~= events@);
        }
        out
    }
}

/// When a prefix of `s` already holds exactly one match, that match is the
/// first match of all of `s`.
proof fn lemma_filter_prefix(
    s: Seq<ExtensionPermission>,
    p: spec_fn(ExtensionPermission) -> bool,
    n: int,
)
    requires
        0 <= n <= s.len(),
        s.subrange(0, n).filter(p).len() == 1,
    ensures
        s.filter(p).len() > 0,
        s.filter(p)[0] == s.subrange(0, n).filter(p)[0],
    decreases s.len() - n,
{
    if n < s.len() {
        let t = s.subrange(0, n + 1);
        assert(t.drop_last() =~= s.subrange(0, n));
        reveal_with_fuel(Seq::filter, 1);
        assert(t.filter(p).len() >= 1);
        assert(t.filter(p)[0] == s.subrange(0, n).filter(p)[0]) by {
            if p(t.last()) {
                assert(t.filter(p) == s.subrange(0, n).filter(p).push(t.last()));
            }
        }
        if t.filter(p).len() == 1 {
            lemma_filter_prefix(s, p, n + 1);
        } else {
            lemma_filter_prefix_more(s, p, n + 1, s.subrange(0, n).filter(p)[0]);
        }
    } else {
        assert(s.subrange(0, n) =~= s);
    }
}

/// Extending a prefix keeps the first match.
proof fn lemma_filter_prefix_more(
    s: Seq<ExtensionPermission>,
    p: spec_fn(ExtensionPermission) -> bool,
    n: int,
    first: ExtensionPermission,
)
    requires
        0 <= n <= s.len(),
        s.subrange(0, n).filter(p).len() > 0,
        s.subrange(0, n).filter(p)[0] == first,
    ensures
        s.filter(p).len() > 0,
        s.filter(p)[0] == first,
    decreases s.len() - n,
{
    if n < s.len() {
        let t = s.subrange(0, n + 1);
        assert(t.drop_last() =~= s.subrange(0, n));
        reveal_with_fuel(Seq::filter, 1);
        if p(t.last()) {
            assert(t.filter(p) == s.subrange(0, n).filter(p).push(t.last()));
        }
        lemma_filter_prefix_more(s, p, n + 1, first);
    } else {
        assert(s.subrange(0, n) =~= s);
    }
}

} // verus!
