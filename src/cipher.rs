//! Authenticated encryption of an entry list: AES-256-CTR over the
//! serialized list, an HMAC-SHA-256 tag over the counter block and the
//! ciphertext, and the key check value that tells a wrong key apart.
use crate::bytes::copy_bytes;
use crate::codec::{decode_entries, encode_entries, entries_bytes, entries_fit, entries_from, lemma_entries_round_trip};
use crate::crypto::{ctr_xor, hmac_sha256, hmac_sha256_of};
use crate::entry::{bytes_equal, names_unique, view_entries, EntryView, PasswordEntry};
use crate::error::PasswordError;
use crate::kdf::{keys_wf, DerivedKeys, KeysView};
use crate::secure::SecureBuffer;
use vstd::prelude::*;

verus! {

/// Bytes of the initial counter block.
pub const IV_LEN: usize = 16;

/// An encrypted entry list.
pub struct EncryptedBlob {
    pub iv: Vec<u8>,
    pub check: Vec<u8>,
    pub tag: Vec<u8>,
    pub ciphertext: Vec<u8>,
}

/// The value of an encrypted entry list.
pub struct BlobView {
    pub iv: Seq<u8>,
    pub check: Seq<u8>,
    pub tag: Seq<u8>,
    pub ciphertext: Seq<u8>,
}

impl View for EncryptedBlob {
    type V = BlobView;

    open spec fn view(&self) -> BlobView {
        BlobView { iv: self.iv@, check: self.check@, tag: self.tag@, ciphertext: self.ciphertext@ }
    }
}

/// `es` encrypted under `k` from the counter block `iv`.
pub open spec fn seal(es: Seq<EntryView>, k: KeysView, iv: Seq<u8>) -> BlobView {
    let ct = ctr_xor(k.enc, iv, entries_bytes(es));
    BlobView { iv, check: k.check, tag: hmac_sha256_of(k.mac, iv + ct), ciphertext: ct }
}

/// What decrypting `b` under `k` gives: a wrong key check value is a wrong
/// key; a tag that does not match, or a plaintext that is no entry list, is
/// a damaged blob. Nothing is decrypted before the tag matches.
pub open spec fn open(b: BlobView, k: KeysView) -> Result<Seq<EntryView>, PasswordError> {
    if b.check != k.check {
        Err(PasswordError::WrongMasterPasswordError)
    } else if b.tag != hmac_sha256_of(k.mac, b.iv + b.ciphertext) {
        Err(PasswordError::CorruptionError)
    } else {
        match entries_from(ctr_xor(k.enc, b.iv, b.ciphertext)) {
            Some(es) => Ok(es),
            None => Err(PasswordError::CorruptionError),
        }
    }
}

/// Encrypts `entries` under `keys`, with `iv` as the counter block. The
/// plaintext exists only in a buffer that is scrubbed on return.
pub fn encrypt(entries: &[PasswordEntry], keys: &DerivedKeys, iv: &[u8]) -> (b: EncryptedBlob)
    requires
        keys_wf(keys@),
        iv@.len() == IV_LEN,
    ensures
        b@ == seal(view_entries(entries@), keys@, iv@),
        b@.tag.len() == 32,
{
    let mut buf = encode_entries(entries);
    buf.apply_ctr(keys.enc.as_slice(), iv);
    let ciphertext = copy_bytes(buf.as_slice());
    let mut msg = copy_bytes(iv);
    let mut tail = copy_bytes(ciphertext.as_slice());
    msg.append(&mut tail);
    let tag = hmac_sha256(keys.mac.as_slice(), msg.as_slice());
    EncryptedBlob { iv: copy_bytes(iv), check: copy_bytes(keys.check.as_slice()), tag, ciphertext }
}

/// Decrypts `blob` under `keys` (see `open`).
pub fn decrypt(blob: &EncryptedBlob, keys: &DerivedKeys) -> (r: Result<Vec<PasswordEntry>, PasswordError>)
    requires
        keys_wf(keys@),
        blob.iv@.len() == IV_LEN,
    ensures
        match r {
            Ok(v) => open(blob@, keys@) == Ok::<Seq<EntryView>, PasswordError>(view_entries(v@))
                && names_unique(view_entries(v@)) && entries_fit(view_entries(v@)),
            Err(e) => open(blob@, keys@) == Err::<Seq<EntryView>, PasswordError>(e),
        },
{
    if !bytes_equal(blob.check.as_slice(), keys.check.as_slice()) {
        return Err(PasswordError::WrongMasterPasswordError);
    }
    let mut msg = copy_bytes(blob.iv.as_slice());
    let mut tail = copy_bytes(blob.ciphertext.as_slice());
    msg.append(&mut tail);
    let tag = hmac_sha256(keys.mac.as_slice(), msg.as_slice());
    if !bytes_equal(tag.as_slice(), blob.tag.as_slice()) {
        return Err(PasswordError::CorruptionError);
    }
    let mut buf = SecureBuffer::from_slice(blob.ciphertext.as_slice());
    buf.apply_ctr(keys.enc.as_slice(), blob.iv.as_slice());
    match decode_entries(buf.as_slice()) {
        Some(v) => Ok(v),
        None => Err(PasswordError::CorruptionError),
    }
}

proof fn lemma_xor_twice(a: u8, s: u8)
    ensures
        (a ^ s) ^ s == a,
{
    assert((a ^ s) ^ s == a) by (bit_vector);
}

/// Applying the keystream twice gives the data back.
pub proof fn lemma_ctr_involution(key: Seq<u8>, iv: Seq<u8>, data: Seq<u8>)
    ensures
        ctr_xor(key, iv, ctr_xor(key, iv, data)) == data,
{
    let once = ctr_xor(key, iv, data);
    let twice = ctr_xor(key, iv, once);
    assert forall|i: int| 0 <= i < data.len() implies twice[i] == data[i] by {
        lemma_xor_twice(data[i], crate::crypto::aes256_ctr_keystream(key, iv, i as nat));
    }
    assert(twice =~= data);
}

/// Decrypting an encrypted list of entries with distinct names under the
/// same key gives the list back.
pub proof fn lemma_decrypt_encrypt(es: Seq<EntryView>, k: KeysView, iv: Seq<u8>)
    requires
        entries_fit(es),
        names_unique(es),
    ensures
        open(seal(es, k, iv), k) == Ok::<Seq<EntryView>, PasswordError>(es),
{
    lemma_ctr_involution(k.enc, iv, entries_bytes(es));
    lemma_entries_round_trip(es);
}

/// Decrypting under a key whose check value differs from the encrypting
/// key's is always an error, never an entry list.
pub proof fn lemma_wrong_key_refused(es: Seq<EntryView>, k: KeysView, other: KeysView, iv: Seq<u8>)
    requires
        other.check != k.check,
    ensures
        open(seal(es, k, iv), other) == Err::<Seq<EntryView>, PasswordError>(
            PasswordError::WrongMasterPasswordError,
        ),
{
}

} // verus!
