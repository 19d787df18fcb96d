//! Encryption of state files at rest with AES-256-GCM.
//!
//! An encrypted state file is the magic header `MINDCHAT\x01`, a twelve-byte
//! random nonce, and the sealed content (ciphertext and sixteen-byte tag).
//! The header is also the additional authenticated data, so a file cannot be
//! rebranded, truncated or spliced without failing to open.

use vstd::prelude::*;
use crate::persistence::PersistenceError;

verus! {

/// The magic header of an encrypted state file, `MINDCHAT\x01`.
pub open spec fn state_magic() -> Seq<u8> {
    seq![77u8, 73u8, 78u8, 68u8, 67u8, 72u8, 65u8, 84u8, 1u8]
}

/// Length of the magic header.
pub const MAGIC_LEN: usize = 9;

/// Length of the nonce.
pub const NONCE_LEN: usize = 12;

/// Length of the authentication tag.
pub const TAG_LEN: usize = 16;

/// Smallest encrypted blob: header, nonce and tag around empty content.
pub const MIN_ENCRYPTED_LEN: usize = 37;

/// Largest input AES-GCM seals, in bytes.
pub const MAX_SEALED_INPUT: u64 = 68719476704;

/// AES-256-GCM sealing of `plaintext` under `key`, `nonce` and additional
/// data `aad`: the ciphertext followed by the tag.
pub uninterp spec fn aes_gcm_seal(key: Seq<u8>, nonce: Seq<u8>, aad: Seq<u8>, plaintext: Seq<u8>) -> Seq<u8>;

/// AES-256-GCM opening of `sealed` (ciphertext and tag): the plaintext, or
/// nothing when authentication fails.
pub uninterp spec fn aes_gcm_open(key: Seq<u8>, nonce: Seq<u8>, aad: Seq<u8>, sealed: Seq<u8>) -> Option<Seq<u8>>;

/// The bytes held by an optional byte vector.
pub open spec fn opt_bytes(v: Option<Vec<u8>>) -> Option<Seq<u8>> {
    match v {
        Some(b) => Some(b@),
        None => None,
    }
}

/// `ring::rand::SystemRandom::fill` on twelve bytes: a fresh nonce from the
/// operating system's secure generator, or nothing when it fails. Only the
/// length is stated: the bytes are random.
#[verifier::external_body]
fn random_nonce() -> (r: Option<Vec<u8>>)
    ensures
        r matches Some(n) ==> n@.len() == NONCE_LEN,
{
    let mut nonce = [0u8; 12];
    match ring::rand::SecureRandom::fill(&ring::rand::SystemRandom::new(), &mut nonce) {
        Ok(()) => Some(nonce.to_vec()),
        Err(_) => None,
    }
}

/// `ring::aead::LessSafeKey::seal_in_place_separate_tag` with AES-256-GCM
/// (the key built by `UnboundKey::new`, the nonce by
/// `Nonce::try_assume_unique_for_key`), the tag appended to the
/// ciphertext. When it succeeds the result is the named sealing, sixteen
/// bytes longer than the plaintext. With a 32-byte key and a 12-byte nonce
/// the key and nonce are always accepted, and sealing fails only for a
/// plaintext longer than AES-GCM's limit (or additional data too long to
/// count in bits): with additional data within `MAX_SEALED_INPUT` it
/// succeeds exactly when the plaintext is within that limit too.
#[verifier::external_body]
fn seal(key: &[u8; 32], nonce: &[u8], aad: &[u8], plaintext: &[u8]) -> (r: Option<Vec<u8>>)
    requires
        nonce@.len() == NONCE_LEN,
    ensures
        aad@.len() <= MAX_SEALED_INPUT ==> (r is Some <==> plaintext@.len() <= MAX_SEALED_INPUT),
        r matches Some(c) ==> c@ == aes_gcm_seal(key@, nonce@, aad@, plaintext@) && c@.len()
            == plaintext@.len() + TAG_LEN,
{
    let unbound = ring::aead::UnboundKey::new(&ring::aead::AES_256_GCM, key).ok()?;
    let sealing = ring::aead::LessSafeKey::new(unbound);
    let nonce = ring::aead::Nonce::try_assume_unique_for_key(nonce).ok()?;
    let mut out = plaintext.to_vec();
    let tag = sealing.seal_in_place_separate_tag(nonce, ring::aead::Aad::from(aad), &mut out).ok()?;
    out.extend_from_slice(tag.as_ref());
    Some(out)
}

/// `ring::aead::LessSafeKey::open_in_place` with AES-256-GCM: the named
/// opening of `sealed`. Opening what was sealed under the same key, nonce
/// and additional data gives the plaintext back.
#[verifier::external_body]
fn open(key: &[u8; 32], nonce: &[u8], aad: &[u8], sealed: &[u8]) -> (r: Option<Vec<u8>>)
    requires
        nonce@.len() == NONCE_LEN,
    ensures
        opt_bytes(r) == aes_gcm_open(key@, nonce@, aad@, sealed@),
        forall|p: Seq<u8>|
            p.len() <= MAX_SEALED_INPUT && sealed@ == aes_gcm_seal(key@, nonce@, aad@, p) ==> (
            #[trigger] opt_bytes(r)) == Some(p),
{
    let unbound = ring::aead::UnboundKey::new(&ring::aead::AES_256_GCM, key).ok()?;
    let opening = ring::aead::LessSafeKey::new(unbound);
    let nonce = ring::aead::Nonce::try_assume_unique_for_key(nonce).ok()?;
    let mut buffer = sealed.to_vec();
    let plaintext = opening.open_in_place(nonce, ring::aead::Aad::from(aad), &mut buffer).ok()?;
    Some(plaintext.to_vec())
}

/// The magic header's bytes.
fn magic_bytes() -> (r: Vec<u8>)
    ensures
        r@ == state_magic(),
{
    let mut v: Vec<u8> = Vec::new();
    v.push(77u8);
    v.push(73u8);
    v.push(78u8);
    v.push(68u8);
    v.push(67u8);
    v.push(72u8);
    v.push(65u8);
    v.push(84u8);
    v.push(1u8);
    proof {
        assert(v@ =~= state_magic());
    }
    v
}

/// Whether bytes start with the encrypted-state magic header.
pub open spec fn has_magic(bytes: Seq<u8>) -> bool {
    bytes.len() >= MAGIC_LEN && bytes.take(MAGIC_LEN as int) == state_magic()
}

/// Whether `bytes` carries the encrypted-state magic header.
pub fn is_encrypted_blob(bytes: &[u8]) -> (r: bool)
    ensures
        r == has_magic(bytes@),
{
    let magic = magic_bytes();
    if bytes.len() < MAGIC_LEN {
        return false;
    }
    let mut i: usize = 0;
    while i < MAGIC_LEN
        invariant
            i <= MAGIC_LEN,
            bytes@.len() >= MAGIC_LEN,
            magic@ == state_magic(),
            forall|k: int| 0 <= k < i ==> bytes@[k] == magic@[k],
        decreases MAGIC_LEN - i,
    {
        if bytes[i] != magic[i] {
            proof {
                assert(bytes@.take(MAGIC_LEN as int)[i as int] != state_magic()[i as int]);
            }
            return false;
        }
        i = i + 1;
    }
    proof {
        assert(bytes@.take(MAGIC_LEN as int) =~= state_magic());
    }
    true
}

/// Appends `src` to `dst`.
fn append_all(dst: &mut Vec<u8>, src: &[u8])
    ensures
        final(dst)@ == old(dst)@ + src@,
{
    let mut i: usize = 0;
    while i < src.len()
        invariant
            i <= src.len(),
            dst@ == old(dst)@ + src@.take(i as int),
        decreases src.len() - i,
    {
        dst.push(src[i]);
        proof {
            assert(src@.take(i + 1) =~= src@.take(i as int).push(src@[i as int]));
        }
        i = i + 1;
    }
    proof {
        assert(src@.take(i as int) =~= src@);
    }
}

/// The bytes of `v` from `from` up to `to`.
fn copy_range(v: &[u8], from: usize, to: usize) -> (r: Vec<u8>)
    requires
        from <= to <= v@.len(),
    ensures
        r@ == v@.subrange(from as int, to as int),
{
    let mut out: Vec<u8> = Vec::new();
    let mut i: usize = from;
    while i < to
        invariant
            from <= i <= to,
            to <= v@.len(),
            out@ == v@.subrange(from as int, i as int),
        decreases to - i,
    {
        out.push(v[i]);
        proof {
            assert(v@.subrange(from as int, i + 1) =~= v@.subrange(from as int, i as int).push(v@[i as int]));
        }
        i = i + 1;
    }
    out
}

/// The encrypted file of `plaintext` under `key` and `nonce`.
pub open spec fn sealed_blob(key: Seq<u8>, nonce: Seq<u8>, plaintext: Seq<u8>) -> Seq<u8> {
    state_magic() + nonce + aes_gcm_seal(key, nonce, state_magic(), plaintext)
}

/// Seals serialized state under `key` with the given nonce: the header,
/// the nonce, and the content sealed with the header as additional data.
/// It fails only for content longer than AES-GCM's input limit.
pub fn seal_state_with_nonce(plaintext: &[u8], key: &[u8; 32], nonce: &[u8]) -> (r: Result<
    Vec<u8>,
    PersistenceError,
>)
    requires
        nonce@.len() == NONCE_LEN,
    ensures
        plaintext@.len() <= MAX_SEALED_INPUT ==> (r matches Ok(blob) && blob@ == sealed_blob(
            key@,
            nonce@,
            plaintext@,
        ) && blob@.len() == plaintext@.len() + MIN_ENCRYPTED_LEN),
        plaintext@.len() > MAX_SEALED_INPUT ==> (r matches Err(PersistenceError::Encryption(d))
            && d@ == "AES-GCM seal failed"@),
{
    let magic = magic_bytes();
    proof {
        assert(magic@.len() == MAGIC_LEN);
    }
    let sealed = match seal(key, nonce, magic.as_slice(), plaintext) {
        Some(c) => c,
        None => return Err(PersistenceError::Encryption("AES-GCM seal failed".to_owned())),
    };
    let mut blob: Vec<u8> = Vec::new();
    append_all(&mut blob, magic.as_slice());
    append_all(&mut blob, nonce);
    append_all(&mut blob, sealed.as_slice());
    proof {
        assert(blob@ =~= sealed_blob(key@, nonce@, plaintext@));
    }
    Ok(blob)
}

/// Encrypts serialized state: the header, a fresh random nonce, and the
/// content sealed under the key with the header as additional data. Within
/// AES-GCM's input limit it fails only when the secure generator does.
pub fn encrypt_state(plaintext: &[u8], key: &[u8; 32]) -> (r: Result<Vec<u8>, PersistenceError>)
    ensures
        r matches Ok(blob) ==> blob@.len() == plaintext@.len() + MIN_ENCRYPTED_LEN && blob@
            == sealed_blob(key@, blob@.subrange(MAGIC_LEN as int, 21), plaintext@),
        r matches Err(e) ==> (e matches PersistenceError::Encryption(d) && (d@
            == "secure RNG unavailable"@ || d@ == "AES-GCM seal failed"@)),
        plaintext@.len() <= MAX_SEALED_INPUT ==> (r matches Err(e) ==> (e matches PersistenceError::Encryption(
            d,
        ) && d@ == "secure RNG unavailable"@)),
{
    let nonce = match random_nonce() {
        Some(n) => n,
        None => return Err(PersistenceError::Encryption("secure RNG unavailable".to_owned())),
    };
    let r = seal_state_with_nonce(plaintext, key, nonce.as_slice());
    proof {
        if r is Ok {
            assert(r->Ok_0@.subrange(MAGIC_LEN as int, 21) =~= nonce@);
        }
    }
    r
}

/// What decrypting a blob gives: not an encrypted file when it is too short
/// or lacks the header; else the opening of the content under the header's
/// nonce, or an authentication failure.
pub open spec fn decrypt_result(key: Seq<u8>, blob: Seq<u8>) -> Result<Seq<u8>, PersistenceError> {
    if blob.len() < MIN_ENCRYPTED_LEN || !has_magic(blob) {
        Err(PersistenceError::NotEncrypted)
    } else {
        match aes_gcm_open(key, blob.subrange(MAGIC_LEN as int, 21), state_magic(), blob.skip(21)) {
            Some(p) => Ok(p),
            None => Err(PersistenceError::Decryption),
        }
    }
}

/// Decrypts a state file blob. Decrypting what `encrypt_state` produced
/// under the same key gives the plaintext back.
pub fn decrypt_state(blob: &[u8], key: &[u8; 32]) -> (r: Result<Vec<u8>, PersistenceError>)
    ensures
        match decrypt_result(key@, blob@) {
            Ok(p) => r matches Ok(q) && q@ == p,
            Err(e) => r == Err::<Vec<u8>, PersistenceError>(e),
        },
        forall|nonce: Seq<u8>, p: Seq<u8>|
            nonce.len() == NONCE_LEN && p.len() <= MAX_SEALED_INPUT && blob@.len() >= MIN_ENCRYPTED_LEN
                && blob@ == #[trigger] sealed_blob(key@, nonce, p) ==> (r matches Ok(q) && q@ == p),
{
    if blob.len() < MIN_ENCRYPTED_LEN || !is_encrypted_blob(blob) {
        proof {
            assert forall|nonce: Seq<u8>, p: Seq<u8>|
                nonce.len() == NONCE_LEN && p.len() <= MAX_SEALED_INPUT && blob@.len()
                    >= MIN_ENCRYPTED_LEN && blob@ == #[trigger] sealed_blob(key@, nonce, p) implies false by {
                assert(blob@.take(MAGIC_LEN as int) =~= state_magic());
            }
        }
        return Err(PersistenceError::NotEncrypted);
    }
    let nonce = copy_range(blob, MAGIC_LEN, 21);
    let sealed = copy_range(blob, 21, blob.len());
    let magic = magic_bytes();
    let opened = open(key, nonce.as_slice(), magic.as_slice(), sealed.as_slice());
    proof {
        assert(sealed@ =~= blob@.skip(21));
        assert forall|n: Seq<u8>, p: Seq<u8>|
            n.len() == NONCE_LEN && p.len() <= MAX_SEALED_INPUT && blob@.len() >= MIN_ENCRYPTED_LEN
                && blob@ == #[trigger] sealed_blob(key@, n, p) implies (opt_bytes(opened) == Some(p)) by {
            assert(blob@.subrange(MAGIC_LEN as int, 21) =~= n);
            assert(blob@.skip(21) =~= aes_gcm_seal(key@, n, state_magic(), p));
        }
    }
    match opened {
        Some(p) => Ok(p),
        None => Err(PersistenceError::Decryption),
    }
}

} // verus!
