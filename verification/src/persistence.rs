//! The versioned envelope of persisted snapshots, and what a restored
//! snapshot may keep.

use vstd::prelude::*;
use crate::caps::{CapabilitySet, ProtocolCapability};
use crate::model::{Account, ConnectionState, Contact, ContactPresence, CoreSnapshot, copy_vec};
use crate::text::{decimal, decimal_text};

verus! {

/// Schema version of the persisted envelope; any other version is refused.
pub const CURRENT_SCHEMA_VERSION: u32 = 1;

/// Upper bound for an acceptable state file, in bytes.
pub const MAX_STATE_FILE_BYTES: u64 = 16777216;

/// The persisted envelope: one snapshot with its schema version.
#[derive(Debug)]
pub struct PersistedState {
    pub schema_version: u32,
    pub snapshot: CoreSnapshot,
}

/// Non-secret metadata about a state file, safe for diagnostics.
#[derive(Clone, Copy, Debug, PartialEq, Eq, Structural)]
pub struct StateFileMetadata {
    pub size_bytes: u64,
    pub schema_version: u32,
}

/// Failure while saving, loading, encrypting or decrypting state.
#[derive(Clone, Debug, PartialEq, Eq)]
pub enum PersistenceError {
    /// The file system rejected the operation; its error text.
    Io(String),
    /// The file did not parse as a persisted envelope.
    Corrupt(String),
    /// The file carries a schema version that is refused.
    UnsupportedVersion(u32),
    /// The file exceeds the size bound.
    TooLarge(u64),
    /// Encryption could not be performed.
    Encryption(String),
    /// The data is not an encrypted state blob.
    NotEncrypted,
    /// The blob failed authentication under the key.
    Decryption,
}

/// The UI-safe text of a persistence error.
pub open spec fn persistence_error_text(error: PersistenceError) -> Seq<char> {
    match error {
        PersistenceError::Io(e) => "state persistence I/O error: "@ + e@,
        PersistenceError::Corrupt(d) => "corrupt state file: "@ + d@,
        PersistenceError::UnsupportedVersion(v) => "unsupported state schema version "@ + decimal(
            v as nat,
        ),
        PersistenceError::TooLarge(b) => "state file too large: "@ + decimal(b as nat) + " bytes"@,
        PersistenceError::Encryption(d) => "state encryption failed: "@ + d@,
        PersistenceError::NotEncrypted => "state data is not encrypted"@,
        PersistenceError::Decryption => "state decryption failed"@,
    }
}

impl PersistenceError {
    /// The UI-safe message for this error.
    pub fn message(&self) -> (r: String)
        ensures
            r@ == persistence_error_text(*self),
    {
        match self {
            PersistenceError::Io(e) => "state persistence I/O error: ".to_owned().concat(e.as_str()),
            PersistenceError::Corrupt(d) => "corrupt state file: ".to_owned().concat(d.as_str()),
            PersistenceError::UnsupportedVersion(v) => "unsupported state schema version ".to_owned().concat(
                decimal_text(*v as u64).as_str(),
            ),
            PersistenceError::TooLarge(b) => "state file too large: ".to_owned().concat(
                decimal_text(*b).as_str(),
            ).concat(" bytes"),
            PersistenceError::Encryption(d) => "state encryption failed: ".to_owned().concat(d.as_str()),
            PersistenceError::NotEncrypted => "state data is not encrypted".to_owned(),
            PersistenceError::Decryption => "state decryption failed".to_owned(),
        }
    }
}

/// Refuses a state file larger than the bound, in either direction: a file
/// that would be refused on load is not written either.
pub fn check_state_size(byte_count: u64) -> (r: Result<(), PersistenceError>)
    ensures
        byte_count <= MAX_STATE_FILE_BYTES ==> r is Ok,
        byte_count > MAX_STATE_FILE_BYTES ==> r == Err::<(), PersistenceError>(
            PersistenceError::TooLarge(byte_count),
        ),
{
    if byte_count > MAX_STATE_FILE_BYTES {
        Err(PersistenceError::TooLarge(byte_count))
    } else {
        Ok(())
    }
}

/// The envelope written for a snapshot: the current schema version and a
/// copy of the snapshot.
pub fn persisted_for_save(snapshot: &CoreSnapshot) -> (r: PersistedState)
    ensures
        r.schema_version == CURRENT_SCHEMA_VERSION,
        r.snapshot.same(*snapshot),
{
    PersistedState { schema_version: CURRENT_SCHEMA_VERSION, snapshot: snapshot.clone() }
}

/// An account restored from disk: durable fields kept, session fields
/// cleared (offline, no error, no capabilities, no disconnect kind).
pub open spec fn account_restored(before: Account, after: Account) -> bool {
    &&& after.id == before.id
    &&& after.jid == before.jid
    &&& after.server == before.server
    &&& after.display_name == before.display_name
    &&& after.auto_reconnect == before.auto_reconnect
    &&& after.proxies@ == before.proxies@
    &&& after.connection_state == ConnectionState::Offline
    &&& after.capabilities@ == Set::<ProtocolCapability>::empty()
    &&& after.connection_error is None
    &&& after.disconnect_kind is None
}

/// A contact restored from disk: offline, without status.
pub open spec fn contact_restored(c: Contact) -> Contact {
    Contact { presence: ContactPresence::Offline, status: None, ..c }
}

/// Whether a snapshot holds no session ephemera.
pub open spec fn is_clean(s: CoreSnapshot) -> bool {
    &&& forall|i: int| 0 <= i < s.accounts@.len() ==> #[trigger] account_restored(
        s.accounts@[i],
        s.accounts@[i],
    )
    &&& forall|i: int| 0 <= i < s.contacts@.len() ==> #[trigger] contact_restored(s.contacts@[i])
        == s.contacts@[i]
}

/// Clears session ephemera from a restored snapshot. Accounts come back
/// offline with no error, capabilities or disconnect kind; contacts offline
/// without status; conversations, messages and reactions are durable and
/// kept as they are. A snapshot without ephemera comes back the same.
pub fn sanitize_snapshot(snapshot: CoreSnapshot) -> (r: CoreSnapshot)
    ensures
        r.accounts@.len() == snapshot.accounts@.len(),
        forall|i: int| 0 <= i < r.accounts@.len() ==> #[trigger] account_restored(
            snapshot.accounts@[i],
            r.accounts@[i],
        ),
        r.contacts@ == snapshot.contacts@.map_values(|c: Contact| contact_restored(c)),
        r.conversations@ == snapshot.conversations@,
        r.messages@ == snapshot.messages@,
        r.reactions@ == snapshot.reactions@,
        is_clean(r),
        is_clean(snapshot) ==> r.same(snapshot),
{
    let mut snapshot = snapshot;
    let ghost original = snapshot;
    let mut i: usize = 0;
    while i < snapshot.accounts.len()
        invariant
            i <= snapshot.accounts.len(),
            snapshot.accounts@.len() == original.accounts@.len(),
            forall|k: int| 0 <= k < i ==> #[trigger] account_restored(
                original.accounts@[k],
                snapshot.accounts@[k],
            ),
            forall|k: int| i <= k < snapshot.accounts@.len() ==> #[trigger] snapshot.accounts@[k]
                == original.accounts@[k],
            snapshot.contacts@ == original.contacts@,
            snapshot.conversations@ == original.conversations@,
            snapshot.messages@ == original.messages@,
            snapshot.reactions@ == original.reactions@,
        decreases snapshot.accounts.len() - i,
    {
        let mut account = snapshot.accounts[i].clone();
        account.connection_state = ConnectionState::Offline;
        account.connection_error = None;
        account.disconnect_kind = None;
        account.capabilities = CapabilitySet::new();
        snapshot.accounts.set(i, account);
        i = i + 1;
    }
    let mut j: usize = 0;
    while j < snapshot.contacts.len()
        invariant
            j <= snapshot.contacts.len(),
            snapshot.contacts@.len() == original.contacts@.len(),
            forall|k: int| 0 <= k < j ==> #[trigger] snapshot.contacts@[k] == contact_restored(
                original.contacts@[k],
            ),
            forall|k: int| j <= k < snapshot.contacts@.len() ==> #[trigger] snapshot.contacts@[k]
                == original.contacts@[k],
            snapshot.accounts@.len() == original.accounts@.len(),
            forall|k: int| 0 <= k < snapshot.accounts@.len() ==> #[trigger] account_restored(
                original.accounts@[k],
                snapshot.accounts@[k],
            ),
            snapshot.conversations@ == original.conversations@,
            snapshot.messages@ == original.messages@,
            snapshot.reactions@ == original.reactions@,
        decreases snapshot.contacts.len() - j,
    {
        let mut contact = snapshot.contacts[j].clone();
        contact.presence = ContactPresence::Offline;
        contact.status = None;
        snapshot.contacts.set(j, contact);
        j = j + 1;
    }
    proof {
        assert(snapshot.contacts@ =~= original.contacts@.map_values(|c: Contact| contact_restored(c)));
        assert forall|k: int| 0 <= k < snapshot.accounts@.len() implies #[trigger] account_restored(
            snapshot.accounts@[k],
            snapshot.accounts@[k],
        ) by {
            assert(account_restored(original.accounts@[k], snapshot.accounts@[k]));
        }
        assert forall|k: int| 0 <= k < snapshot.contacts@.len() implies #[trigger] contact_restored(
            snapshot.contacts@[k],
        ) == snapshot.contacts@[k] by {
            assert(snapshot.contacts@[k] == contact_restored(original.contacts@[k]));
        }
        if is_clean(original) {
            assert forall|k: int| 0 <= k < snapshot.accounts@.len() implies #[trigger] snapshot.accounts@[k].same(
                original.accounts@[k],
            ) by {
                assert(account_restored(original.accounts@[k], original.accounts@[k]));
                assert(account_restored(original.accounts@[k], snapshot.accounts@[k]));
                assert(snapshot.accounts@[k].capabilities@ == original.accounts@[k].capabilities@);
            }
            assert forall|k: int| 0 <= k < snapshot.contacts@.len() implies snapshot.contacts@[k]
                == original.contacts@[k] by {
                assert(contact_restored(original.contacts@[k]) == original.contacts@[k]);
            }
            assert(snapshot.contacts@ =~= original.contacts@);
        }
    }
    snapshot
}

/// Accepts a parsed envelope of a state file of `size_bytes` bytes: any
/// schema version but the current one is refused; otherwise the snapshot
/// comes back sanitized, with the file's metadata.
pub fn restore_persisted(persisted: PersistedState, size_bytes: u64) -> (r: Result<
    (CoreSnapshot, StateFileMetadata),
    PersistenceError,
>)
    ensures
        persisted.schema_version != CURRENT_SCHEMA_VERSION ==> r == Err::<
            (CoreSnapshot, StateFileMetadata),
            PersistenceError,
        >(PersistenceError::UnsupportedVersion(persisted.schema_version)),
        persisted.schema_version == CURRENT_SCHEMA_VERSION ==> (r matches Ok((s, m)) && {
            &&& m == StateFileMetadata { size_bytes, schema_version: CURRENT_SCHEMA_VERSION }
            &&& s.accounts@.len() == persisted.snapshot.accounts@.len()
            &&& forall|i: int| 0 <= i < s.accounts@.len() ==> #[trigger] account_restored(
                persisted.snapshot.accounts@[i],
                s.accounts@[i],
            )
            &&& s.contacts@ == persisted.snapshot.contacts@.map_values(
                |c: Contact| contact_restored(c),
            )
            &&& s.conversations@ == persisted.snapshot.conversations@
            &&& s.messages@ == persisted.snapshot.messages@
            &&& s.reactions@ == persisted.snapshot.reactions@
        }),
{
    if persisted.schema_version != CURRENT_SCHEMA_VERSION {
        return Err(PersistenceError::UnsupportedVersion(persisted.schema_version));
    }
    let metadata = StateFileMetadata { size_bytes, schema_version: persisted.schema_version };
    Ok((sanitize_snapshot(persisted.snapshot), metadata))
}

} // verus!
