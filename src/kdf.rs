//! Key derivation: the scrypt cost parameters, their checks, and the keys
//! that a master password and a salt give under them.
use crate::crypto::{scrypt_96, scrypt_memory, scrypt_of, scrypt_params_valid};
use crate::secure::SecureBuffer;
use vstd::arithmetic::power2::{lemma_pow2_adds, lemma_pow2_pos, lemma_pow2_unfold, pow2};
use vstd::prelude::*;

verus! {

/// The key-stretching cost factors, stored in clear in the container header.
#[derive(Clone, Copy, Debug, PartialEq, Eq, Structural)]
pub struct ScryptParams {
    pub log2n: u8,
    pub r: u32,
    pub p: u32,
}

/// Default `log2n` of a new store.
pub const DEFAULT_LOG2N: u8 = 12;
/// Default `r` of a new store.
pub const DEFAULT_R: u32 = 8;
/// Default `p` of a new store.
pub const DEFAULT_P: u32 = 1;

/// Bytes of a salt.
pub const SALT_LEN: usize = 32;
/// Bytes of each derived key.
pub const KEY_LEN: usize = 32;

/// The parameters of a new store.
pub open spec fn default_params() -> ScryptParams {
    ScryptParams { log2n: DEFAULT_LOG2N, r: DEFAULT_R, p: DEFAULT_P }
}

/// Parameters that scrypt accepts and whose buffers can be allocated (at
/// most `isize::MAX` bytes each).
pub open spec fn params_usable(p: ScryptParams) -> bool {
    &&& scrypt_params_valid(p.log2n, p.r, p.p)
    &&& scrypt_memory(p.log2n, p.r) <= isize::MAX
    &&& (p.r as int) * 128 * (p.p as int) <= isize::MAX
}

/// The safety floor on the work factor: `log2n >= 12` and `r >= 8`
/// (`p >= 1` is already required by scrypt).
pub open spec fn meets_floor(p: ScryptParams) -> bool {
    p.log2n >= 12 && p.r >= 8
}

/// Parameters that `set_scrypt_params` takes: usable, and above the floor
/// unless `force`.
pub open spec fn params_accepted(p: ScryptParams, force: bool) -> bool {
    params_usable(p) && (force || meets_floor(p))
}

impl ScryptParams {
    /// The parameters of a new store.
    pub fn default_params() -> (r: ScryptParams)
        ensures
            r == default_params(),
    {
        ScryptParams { log2n: DEFAULT_LOG2N, r: DEFAULT_R, p: DEFAULT_P }
    }
}

/// Whether `p` is usable (see `params_usable`).
pub fn check_params_usable(p: ScryptParams) -> (ok: bool)
    ensures
        ok == params_usable(p),
{
    if p.r == 0 || p.p == 0 || p.log2n >= 64 {
        return false;
    }
    if (p.log2n as u64) >= (p.r as u64) * 16 {
        return false;
    }
    let rr: u128 = p.r as u128;
    let pp: u128 = p.p as u128;
    assert(rr * pp <= 0xffff_ffff * 0xffff_ffffu128) by (nonlinear_arith)
        requires rr <= 0xffff_ffff, pp <= 0xffff_ffff;
    assert(rr * 128 * pp == rr * pp * 128) by (nonlinear_arith);
    if rr * pp >= 0x4000_0000 {
        return false;
    }
    let rp = rr * pp;
    if rp * 128 > isize::MAX as u128 {
        return false;
    }
    let limit: u128 = isize::MAX as u128;
    let mut m: u128 = (p.r as u128) * 128;
    let mut i: u8 = 0;
    proof {
        assert(pow2(0) == 1) by {
            vstd::arithmetic::power2::lemma_pow2(0);
            vstd::arithmetic::power::lemma_pow0(2);
        }
        lemma_pow2_pos(p.log2n as nat);
        assert(scrypt_memory(p.log2n, p.r) >= (p.r as int) * 128) by (nonlinear_arith)
            requires
                scrypt_memory(p.log2n, p.r) == (p.r as int) * 128 * pow2(p.log2n as nat),
                pow2(p.log2n as nat) >= 1,
                p.r > 0;
    }
    if m > limit {
        return false;
    }
    while i < p.log2n
        invariant
            i <= p.log2n < 64,
            p.r > 0,
            m == (p.r as int) * 128 * pow2(i as nat),
            m <= limit,
            limit == isize::MAX,
            scrypt_memory(p.log2n, p.r) == (p.r as int) * 128 * pow2(p.log2n as nat),
        decreases p.log2n - i,
    {
        proof {
            lemma_pow2_unfold((i + 1) as nat);
        }
        let m2 = m * 2;
        assert(m2 == (p.r as int) * 128 * pow2((i + 1) as nat)) by (nonlinear_arith)
            requires
                m == (p.r as int) * 128 * pow2(i as nat),
                pow2((i + 1) as nat) == 2 * pow2(i as nat),
                m2 == m * 2;
        if m2 > limit {
            proof {
                let d = (p.log2n - i - 1) as nat;
                lemma_pow2_adds((i + 1) as nat, d);
                lemma_pow2_pos(d);
                assert(((i + 1) as nat + d) as nat == p.log2n as nat);
                let a = (p.r as int) * 128 * pow2((i + 1) as nat);
                assert(a * pow2(d) >= a) by (nonlinear_arith)
                    requires a >= 0, pow2(d) >= 1;
                assert(scrypt_memory(p.log2n, p.r) == a * pow2(d)) by (nonlinear_arith)
                    requires
                        scrypt_memory(p.log2n, p.r) == (p.r as int) * 128 * pow2(p.log2n as nat),
                        pow2(p.log2n as nat) == pow2((i + 1) as nat) * pow2(d),
                        a == (p.r as int) * 128 * pow2((i + 1) as nat);
            }
            return false;
        }
        m = m2;
        i = i + 1;
    }
    true
}

/// Whether `set_scrypt_params` takes `p` (see `params_accepted`).
pub fn check_params(p: ScryptParams, force: bool) -> (ok: bool)
    ensures
        ok == params_accepted(p, force),
{
    check_params_usable(p) && (force || (p.log2n >= 12 && p.r >= 8))
}

/// The keys of one container: one for the cipher, one for the integrity
/// tag, and a check value stored in the header that tells a wrong master
/// password from a damaged file.
pub struct DerivedKeys {
    pub enc: SecureBuffer,
    pub mac: SecureBuffer,
    pub check: Vec<u8>,
}

/// The value of a set of keys.
pub struct KeysView {
    pub enc: Seq<u8>,
    pub mac: Seq<u8>,
    pub check: Seq<u8>,
}

impl View for DerivedKeys {
    type V = KeysView;

    open spec fn view(&self) -> KeysView {
        KeysView { enc: self.enc@, mac: self.mac@, check: self.check@ }
    }
}

/// Keys of the right lengths.
pub open spec fn keys_wf(k: KeysView) -> bool {
    k.enc.len() == KEY_LEN && k.mac.len() == KEY_LEN && k.check.len() == KEY_LEN
}

/// The keys that `password` and `salt` give under `params`: the 96 bytes
/// of scrypt, cut in three.
pub open spec fn keys_of(password: Seq<u8>, salt: Seq<u8>, params: ScryptParams) -> KeysView {
    let k = scrypt_of(password, salt, params.log2n, params.r, params.p);
    KeysView { enc: k.subrange(0, 32), mac: k.subrange(32, 64), check: k.subrange(64, 96) }
}

/// Derives the keys of `password` and `salt` under `params`. Identical
/// inputs always give identical keys.
pub fn derive_keys(password: &SecureBuffer, salt: &[u8], params: ScryptParams) -> (k: DerivedKeys)
    requires
        params_usable(params),
    ensures
        k@ == keys_of(password@, salt@, params),
        keys_wf(k@),
{
    let out = scrypt_96(password.as_slice(), salt, params.log2n, params.r, params.p);
    let raw = match out {
        Some(v) => SecureBuffer::new(v),
        None => {
            proof {
                assert(false);
            }
            SecureBuffer::empty()
        },
    };
    let enc = raw.sub(0, 32);
    let mac = raw.sub(32, 64);
    let check_buf = raw.sub(64, 96);
    let check = crate::bytes::copy_bytes(check_buf.as_slice());
    DerivedKeys { enc, mac, check }
}

} // verus!
