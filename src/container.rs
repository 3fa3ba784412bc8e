//! The on-disk container. Every version opens with its version number, four
//! bytes most significant first, and owns the layout that follows.
//!
//! Version 2 (current): version | log2n (1 byte) | r (4) | p (4) |
//! salt (32) | counter block (16) | key check (32) | tag (32) | ciphertext.
//!
//! Version 1 (legacy): version | salt (32) | counter block (16) |
//! key check (32) | tag (32) | ciphertext; its keys are always derived with
//! the fixed legacy parameters.
use crate::bytes::{copy_range, lemma_read_u32_be_bytes, lemma_u32_be_round_trip, push_u32_be, read_u32_at, read_u32_be, u32_be};
use crate::cipher::{BlobView, EncryptedBlob};
use crate::error::PasswordError;
use crate::kdf::ScryptParams;
use vstd::prelude::*;

verus! {

/// The legacy container version.
pub const VERSION_LEGACY: u32 = 1;
/// The current container version.
pub const VERSION_CURRENT: u32 = 2;

/// The fixed `log2n` of legacy containers.
pub const LEGACY_LOG2N: u8 = 10;
/// The fixed `r` of legacy containers.
pub const LEGACY_R: u32 = 8;
/// The fixed `p` of legacy containers.
pub const LEGACY_P: u32 = 1;

/// Header bytes of a current container, before the ciphertext.
pub const V2_HEADER_LEN: usize = 125;
/// Header bytes of a legacy container, before the ciphertext.
pub const V1_HEADER_LEN: usize = 116;

/// The parameters of every legacy container.
pub open spec fn legacy_params() -> ScryptParams {
    ScryptParams { log2n: LEGACY_LOG2N, r: LEGACY_R, p: LEGACY_P }
}

/// A parsed container.
pub struct FileContainer {
    pub version: u32,
    pub params: ScryptParams,
    pub salt: Vec<u8>,
    pub blob: EncryptedBlob,
}

/// The value of a parsed container.
pub struct ContainerView {
    pub version: u32,
    pub params: ScryptParams,
    pub salt: Seq<u8>,
    pub blob: BlobView,
}

impl View for FileContainer {
    type V = ContainerView;

    open spec fn view(&self) -> ContainerView {
        ContainerView {
            version: self.version,
            params: self.params,
            salt: self.salt@,
            blob: self.blob@,
        }
    }
}

/// A container that can be written: a known version, fields of the right
/// lengths, and the fixed parameters if legacy.
pub open spec fn container_wf(c: ContainerView) -> bool {
    &&& c.version == VERSION_LEGACY || c.version == VERSION_CURRENT
    &&& c.version == VERSION_LEGACY ==> c.params == legacy_params()
    &&& c.salt.len() == 32
    &&& c.blob.iv.len() == 16
    &&& c.blob.check.len() == 32
    &&& c.blob.tag.len() == 32
}

/// The fields after the version and parameters, common to both layouts.
pub open spec fn body_bytes(c: ContainerView) -> Seq<u8> {
    c.salt + c.blob.iv + c.blob.check + c.blob.tag + c.blob.ciphertext
}

/// The bytes of a container.
pub open spec fn container_bytes(c: ContainerView) -> Seq<u8> {
    if c.version == VERSION_LEGACY {
        u32_be(VERSION_LEGACY) + body_bytes(c)
    } else {
        u32_be(VERSION_CURRENT) + seq![c.params.log2n] + u32_be(c.params.r) + u32_be(c.params.p)
            + body_bytes(c)
    }
}

/// The fields after the version and parameters, read from offset `at`.
pub open spec fn body_from(b: Seq<u8>, at: int, version: u32, params: ScryptParams) -> ContainerView {
    ContainerView {
        version,
        params,
        salt: b.subrange(at, at + 32),
        blob: BlobView {
            iv: b.subrange(at + 32, at + 48),
            check: b.subrange(at + 48, at + 80),
            tag: b.subrange(at + 80, at + 112),
            ciphertext: b.skip(at + 112),
        },
    }
}

/// What parsing `b` gives: the version comes first; an unknown later version
/// was written by a newer engine; a version of 0, or too few bytes for the
/// version's header, is a damaged file.
pub open spec fn container_from(b: Seq<u8>) -> Result<ContainerView, PasswordError> {
    if b.len() < 4 {
        Err(PasswordError::CorruptionError)
    } else {
        let v = read_u32_be(b);
        if v > VERSION_CURRENT {
            Err(PasswordError::OutdatedRoosterBinaryError)
        } else if v == VERSION_CURRENT {
            if b.len() < V2_HEADER_LEN {
                Err(PasswordError::CorruptionError)
            } else {
                let params = ScryptParams {
                    log2n: b[4],
                    r: read_u32_be(b.skip(5)),
                    p: read_u32_be(b.skip(9)),
                };
                Ok(body_from(b, 13, v, params))
            }
        } else if v == VERSION_LEGACY {
            if b.len() < V1_HEADER_LEN {
                Err(PasswordError::CorruptionError)
            } else {
                Ok(body_from(b, 4, v, legacy_params()))
            }
        } else {
            Err(PasswordError::CorruptionError)
        }
    }
}

proof fn lemma_body_round_trip(c: ContainerView, head: Seq<u8>)
    requires
        container_wf(c),
    ensures
        body_from(head + body_bytes(c), head.len() as int, c.version, c.params) == c,
{
    let b = head + body_bytes(c);
    let at = head.len() as int;
    assert(b.subrange(at, at + 32) =~= c.salt);
    assert(b.subrange(at + 32, at + 48) =~= c.blob.iv);
    assert(b.subrange(at + 48, at + 80) =~= c.blob.check);
    assert(b.subrange(at + 80, at + 112) =~= c.blob.tag);
    assert(b.skip(at + 112) =~= c.blob.ciphertext);
}

/// Parsing the bytes of a well-formed container gives it back.
pub proof fn lemma_container_round_trip(c: ContainerView)
    requires
        container_wf(c),
    ensures
        container_from(container_bytes(c)) == Ok::<ContainerView, PasswordError>(c),
{
    let b = container_bytes(c);
    if c.version == VERSION_LEGACY {
        lemma_u32_be_round_trip(VERSION_LEGACY);
        assert(read_u32_be(b) == VERSION_LEGACY);
        lemma_body_round_trip(c, u32_be(VERSION_LEGACY));
    } else {
        let head = u32_be(VERSION_CURRENT) + seq![c.params.log2n] + u32_be(c.params.r) + u32_be(
            c.params.p,
        );
        lemma_u32_be_round_trip(VERSION_CURRENT);
        lemma_u32_be_round_trip(c.params.r);
        lemma_u32_be_round_trip(c.params.p);
        assert(b == u32_be(VERSION_CURRENT) + (seq![c.params.log2n] + u32_be(c.params.r) + u32_be(
            c.params.p) + body_bytes(c)));
        assert(b.skip(5) =~= u32_be(c.params.r) + (u32_be(c.params.p) + body_bytes(c)));
        assert(b.skip(9) =~= u32_be(c.params.p) + body_bytes(c));
        assert(b[4] == c.params.log2n);
        assert(b =~= head + body_bytes(c));
        lemma_body_round_trip(c, head);
    }
}

/// Serializing a parsed container gives back exactly the parsed bytes.
pub proof fn lemma_parse_serialize(b: Seq<u8>)
    requires
        container_from(b) is Ok,
    ensures
        container_bytes(container_from(b)->Ok_0) == b,
{
    let c = container_from(b)->Ok_0;
    lemma_read_u32_be_bytes(b);
    let at: int = if c.version == VERSION_LEGACY { 4 } else { 13 };
    assert(body_bytes(c) =~= b.skip(at));
    if c.version == VERSION_LEGACY {
        lemma_u32_be_round_trip(VERSION_LEGACY);
        assert(container_bytes(c) =~= b);
    } else {
        lemma_read_u32_be_bytes(b.skip(5));
        lemma_read_u32_be_bytes(b.skip(9));
        assert(b.skip(5).take(4) =~= b.subrange(5, 9));
        assert(b.skip(9).take(4) =~= b.subrange(9, 13));
        assert(container_bytes(c) =~= b);
    }
}

fn read_body(b: &[u8], at: usize, version: u32, params: ScryptParams) -> (c: FileContainer)
    requires
        at + 112 <= b@.len(),
    ensures
        c@ == body_from(b@, at as int, version, params),
{
    let len = b.len();
    FileContainer {
        version,
        params,
        salt: copy_range(b, at, at + 32),
        blob: EncryptedBlob {
            iv: copy_range(b, at + 32, at + 48),
            check: copy_range(b, at + 48, at + 80),
            tag: copy_range(b, at + 80, at + 112),
            ciphertext: copy_range(b, at + 112, len),
        },
    }
}

/// Parses a container (see `container_from`).
pub fn parse(b: &[u8]) -> (r: Result<FileContainer, PasswordError>)
    ensures
        match r {
            Ok(c) => container_from(b@) == Ok::<ContainerView, PasswordError>(c@) && container_wf(c@),
            Err(e) => container_from(b@) == Err::<ContainerView, PasswordError>(e),
        },
{
    if b.len() < 4 {
        return Err(PasswordError::CorruptionError);
    }
    let v = read_u32_at(b, 0);
    assert(read_u32_be(b@) == read_u32_be(b@.subrange(0, 4)));
    if v > VERSION_CURRENT {
        Err(PasswordError::OutdatedRoosterBinaryError)
    } else if v == VERSION_CURRENT {
        if b.len() < V2_HEADER_LEN {
            return Err(PasswordError::CorruptionError);
        }
        let r = read_u32_at(b, 5);
        let p = read_u32_at(b, 9);
        assert(read_u32_be(b@.skip(5)) == read_u32_be(b@.subrange(5, 9)));
        assert(read_u32_be(b@.skip(9)) == read_u32_be(b@.subrange(9, 13)));
        let params = ScryptParams { log2n: b[4], r, p };
        Ok(read_body(b, 13, v, params))
    } else if v == VERSION_LEGACY {
        if b.len() < V1_HEADER_LEN {
            return Err(PasswordError::CorruptionError);
        }
        let params = ScryptParams { log2n: LEGACY_LOG2N, r: LEGACY_R, p: LEGACY_P };
        Ok(read_body(b, 4, v, params))
    } else {
        Err(PasswordError::CorruptionError)
    }
}

/// The bytes of a well-formed container.
pub fn serialize(c: &FileContainer) -> (r: Vec<u8>)
    requires
        container_wf(c@),
    ensures
        r@ == container_bytes(c@),
{
    let mut out: Vec<u8> = Vec::new();
    if c.version == VERSION_LEGACY {
        push_u32_be(&mut out, VERSION_LEGACY);
    } else {
        push_u32_be(&mut out, VERSION_CURRENT);
        out.push(c.params.log2n);
        push_u32_be(&mut out, c.params.r);
        push_u32_be(&mut out, c.params.p);
    }
    let ghost head = out@;
    extend(&mut out, c.salt.as_slice());
    extend(&mut out, c.blob.iv.as_slice());
    extend(&mut out, c.blob.check.as_slice());
    extend(&mut out, c.blob.tag.as_slice());
    extend(&mut out, c.blob.ciphertext.as_slice());
    assert(out@ =~= head + body_bytes(c@));
    out
}

fn extend(out: &mut Vec<u8>, s: &[u8])
    ensures
        final(out)@ == old(out)@ + s@,
{
    let mut i: usize = 0;
    while i < s.len()
        invariant
            i <= s@.len(),
            out@ == old(out)@ + s@.subrange(0, i as int),
        decreases s@.len() - i,
    {
        out.push(s[i]);
        i += 1;
        assert(out@ =~= old(out)@ + s@.subrange(0, i as int));
    }
    assert(s@.subrange(0, s@.len() as int) =~= s@);
}

} // verus!
