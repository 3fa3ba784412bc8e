//! The calls into the outside cryptography crates. Each function here is
//! trusted: its contract restates what the crate's source shows, and the
//! results that take pages to define are given names.
use rtoolbox::safe_vec::SafeVec;
use vstd::arithmetic::power2::pow2;
use vstd::prelude::*;
use ctr::cipher::{KeyIvInit, StreamCipher};
use hmac::Mac;

verus! {

/// The 96 bytes that scrypt derives from a password and a salt under the cost
/// parameters `log_n`, `r`, `p`.
pub uninterp spec fn scrypt_of(password: Seq<u8>, salt: Seq<u8>, log_n: u8, r: u32, p: u32) -> Seq<u8>;

/// The byte at position `i` of the AES-256-CTR keystream (128-bit big-endian
/// counter) for `key` and the initial counter block `iv`.
pub uninterp spec fn aes256_ctr_keystream(key: Seq<u8>, iv: Seq<u8>, i: nat) -> u8;

/// `data` XORed with the AES-256-CTR keystream of `key` and `iv`: both
/// encryption and decryption.
pub open spec fn ctr_xor(key: Seq<u8>, iv: Seq<u8>, data: Seq<u8>) -> Seq<u8> {
    Seq::new(data.len(), |i: int| data[i] ^ aes256_ctr_keystream(key, iv, i as nat))
}

/// HMAC-SHA-256 of `msg` under `key`.
pub uninterp spec fn hmac_sha256_of(key: Seq<u8>, msg: Seq<u8>) -> Seq<u8>;

/// The checks of `scrypt::Params::new`: it accepts the parameters exactly
/// when these hold. (Its check `log_n < usize::BITS` follows from the bound on
/// the working array.)
pub open spec fn scrypt_params_valid(log_n: u8, r: u32, p: u32) -> bool {
    &&& r > 0
    &&& p > 0
    &&& log_n < 64
    &&& scrypt_memory(log_n, r) <= usize::MAX
    &&& (r as int) * 128 * (p as int) <= usize::MAX
    &&& (log_n as int) < (r as int) * 16
    &&& (r as int) * (p as int) < 0x4000_0000
}

/// Bytes of the working array that scrypt allocates: `128 * r * 2^log_n`.
pub open spec fn scrypt_memory(log_n: u8, r: u32) -> int {
    (r as int) * 128 * pow2(log_n as nat)
}

/// Relies on `scrypt::Params::new` (with output length 64, which it accepts)
/// to accept exactly the parameters of `scrypt_params_valid`, and on
/// `scrypt::scrypt` to fill a 96-byte output, which depends on its inputs
/// alone. `scrypt` allocates its buffers (`128 * r * 2^log_n` and
/// `128 * r * p` bytes) with `vec!`, which panics above `isize::MAX` bytes:
/// such parameters are left out.
#[verifier::external_body]
pub(crate) fn scrypt_96(password: &[u8], salt: &[u8], log_n: u8, r: u32, p: u32) -> (k: Option<Vec<u8>>)
    requires
        scrypt_params_valid(log_n, r, p) ==> scrypt_memory(log_n, r) <= isize::MAX && (r as int) * 128
            * (p as int) <= isize::MAX,
    ensures
        k is Some <==> scrypt_params_valid(log_n, r, p),
        k matches Some(v) ==> v@ == scrypt_of(password@, salt@, log_n, r, p) && v@.len() == 96,
{
    let params = match scrypt::Params::new(log_n, r, p, 64) {
        Ok(params) => params,
        Err(_) => return None,
    };
    let mut out = vec![0u8; 96];
    match scrypt::scrypt(password, salt, &params, &mut out) {
        Ok(()) => Some(out),
        Err(_) => None,
    }
}

/// Relies on `StreamCipher::apply_keystream` of a fresh
/// `ctr::Ctr128BE<aes::Aes256>`: it XORs the keystream, which depends on the
/// key and counter block alone, into the buffer from position 0. Its
/// keystream has 2^128 blocks, so it never runs out on a buffer in memory.
#[verifier::external_body]
pub(crate) fn aes256_ctr_apply(key: &[u8], iv: &[u8], buf: &mut SafeVec)
    requires
        key@.len() == 32,
        iv@.len() == 16,
    ensures
        final(buf).inner@.len() == old(buf).inner@.len(),
        forall|i: int|
            0 <= i < old(buf).inner@.len() ==> #[trigger] final(buf).inner@[i] == old(buf).inner@[i]
                ^ aes256_ctr_keystream(key@, iv@, i as nat),
{
    let mut cipher = ctr::Ctr128BE::<aes::Aes256>::new(key.into(), iv.into());
    cipher.apply_keystream(buf.inner.as_mut_slice());
}

/// Relies on `hmac::Hmac<sha2::Sha256>`: `new_from_slice` accepts a key of
/// any length, and `finalize` gives the 32-byte tag of what `update` fed.
#[verifier::external_body]
pub(crate) fn hmac_sha256(key: &[u8], msg: &[u8]) -> (r: Vec<u8>)
    ensures
        r@ == hmac_sha256_of(key@, msg@),
        r@.len() == 32,
{
    let mut mac = <hmac::Hmac<sha2::Sha256> as Mac>::new_from_slice(key).expect("HMAC takes keys of any length");
    mac.update(msg);
    mac.finalize().into_bytes().to_vec()
}

/// Relies on `getrandom::getrandom`, which fills the buffer from the
/// operating system's random source or reports an error. Nothing is known
/// of the bytes beyond their number.
#[verifier::external_body]
pub(crate) fn random_bytes(n: usize) -> (r: Option<Vec<u8>>)
    ensures
        r matches Some(v) ==> v@.len() == n,
{
    let mut buf = vec![0u8; n];
    match getrandom::getrandom(&mut buf) {
        Ok(()) => Some(buf),
        Err(_) => None,
    }
}

} // verus!
