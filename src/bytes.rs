use vstd::prelude::*;

verus! {

/// The eight bytes of `n`, most significant first.
pub open spec fn u64_be(n: u64) -> Seq<u8> {
    seq![
        (n >> 56u64) as u8,
        (n >> 48u64) as u8,
        (n >> 40u64) as u8,
        (n >> 32u64) as u8,
        (n >> 24u64) as u8,
        (n >> 16u64) as u8,
        (n >> 8u64) as u8,
        n as u8,
    ]
}

/// The number whose eight bytes, most significant first, open `b`.
pub open spec fn read_u64_be(b: Seq<u8>) -> u64
    recommends
        b.len() >= 8,
{
    ((b[0] as u64) << 56u64) | ((b[1] as u64) << 48u64) | ((b[2] as u64) << 40u64) | ((
    b[3] as u64) << 32u64) | ((b[4] as u64) << 24u64) | ((b[5] as u64) << 16u64) | ((
    b[6] as u64) << 8u64) | (b[7] as u64)
}

/// The four bytes of `n`, most significant first.
pub open spec fn u32_be(n: u32) -> Seq<u8> {
    seq![(n >> 24u32) as u8, (n >> 16u32) as u8, (n >> 8u32) as u8, n as u8]
}

/// The number whose four bytes, most significant first, open `b`.
pub open spec fn read_u32_be(b: Seq<u8>) -> u32
    recommends
        b.len() >= 4,
{
    ((b[0] as u32) << 24u32) | ((b[1] as u32) << 16u32) | ((b[2] as u32) << 8u32) | (b[3] as u32)
}

pub proof fn lemma_u64_be_round_trip(n: u64)
    ensures
        u64_be(n).len() == 8,
        read_u64_be(u64_be(n)) == n,
        forall|tail: Seq<u8>| read_u64_be(#[trigger] (u64_be(n) + tail)) == n,
{
    let b = u64_be(n);
    assert(((((n >> 56u64) as u8) as u64) << 56u64) | ((((n >> 48u64) as u8) as u64) << 48u64)
        | ((((n >> 40u64) as u8) as u64) << 40u64) | ((((n >> 32u64) as u8) as u64) << 32u64)
        | ((((n >> 24u64) as u8) as u64) << 24u64) | ((((n >> 16u64) as u8) as u64) << 16u64)
        | ((((n >> 8u64) as u8) as u64) << 8u64) | ((n as u8) as u64) == n) by (bit_vector);
    assert forall|tail: Seq<u8>| read_u64_be(#[trigger] (u64_be(n) + tail)) == n by {
        let c = u64_be(n) + tail;
        assert(c[0] == b[0] && c[1] == b[1] && c[2] == b[2] && c[3] == b[3]);
        assert(c[4] == b[4] && c[5] == b[5] && c[6] == b[6] && c[7] == b[7]);
    }
}

pub proof fn lemma_u32_be_round_trip(n: u32)
    ensures
        u32_be(n).len() == 4,
        read_u32_be(u32_be(n)) == n,
        forall|tail: Seq<u8>| read_u32_be(#[trigger] (u32_be(n) + tail)) == n,
{
    let b = u32_be(n);
    assert(((((n >> 24u32) as u8) as u32) << 24u32) | ((((n >> 16u32) as u8) as u32) << 16u32)
        | ((((n >> 8u32) as u8) as u32) << 8u32) | ((n as u8) as u32) == n) by (bit_vector);
    assert forall|tail: Seq<u8>| read_u32_be(#[trigger] (u32_be(n) + tail)) == n by {
        let c = u32_be(n) + tail;
        assert(c[0] == b[0] && c[1] == b[1] && c[2] == b[2] && c[3] == b[3]);
    }
}

pub proof fn lemma_read_u32_be_bytes(b: Seq<u8>)
    requires
        b.len() >= 4,
    ensures
        u32_be(read_u32_be(b)) == b.take(4),
{
    let (a0, a1, a2, a3) = (b[0], b[1], b[2], b[3]);
    let n = read_u32_be(b);
    assert(n == ((a0 as u32) << 24u32) | ((a1 as u32) << 16u32) | ((a2 as u32) << 8u32) | (a3 as u32));
    assert((n >> 24u32) as u8 == a0 && (n >> 16u32) as u8 == a1 && (n >> 8u32) as u8 == a2 && n as u8 == a3)
        by (bit_vector)
        requires
            n == ((a0 as u32) << 24u32) | ((a1 as u32) << 16u32) | ((a2 as u32) << 8u32) | (a3 as u32);
    assert(u32_be(n) =~= b.take(4));
}

/// A copy of `b` in a new vector.
pub fn copy_bytes(b: &[u8]) -> (r: Vec<u8>)
    ensures
        r@ == b@,
        r@.len() <= usize::MAX,
{
    copy_range(b, 0, b.len())
}

/// A copy of `b[start..end]` in a new vector.
pub fn copy_range(b: &[u8], start: usize, end: usize) -> (r: Vec<u8>)
    requires
        start <= end <= b@.len(),
    ensures
        r@ == b@.subrange(start as int, end as int),
{
    let mut v: Vec<u8> = Vec::new();
    let mut i: usize = start;
    while i < end
        invariant
            start <= i <= end,
            end <= b@.len(),
            v@ == b@.subrange(start as int, i as int),
        decreases end - i,
    {
        v.push(b[i]);
        i += 1;
        assert(v@ =~= b@.subrange(start as int, i as int));
    }
    v
}

/// Appends the eight bytes of `n`, most significant first.
pub fn push_u64_be(out: &mut Vec<u8>, n: u64)
    ensures
        final(out)@ == old(out)@ + u64_be(n),
{
    out.push((n >> 56u64) as u8);
    out.push((n >> 48u64) as u8);
    out.push((n >> 40u64) as u8);
    out.push((n >> 32u64) as u8);
    out.push((n >> 24u64) as u8);
    out.push((n >> 16u64) as u8);
    out.push((n >> 8u64) as u8);
    out.push(n as u8);
    assert(final(out)@ =~= old(out)@ + u64_be(n));
}

/// Appends the four bytes of `n`, most significant first.
pub fn push_u32_be(out: &mut Vec<u8>, n: u32)
    ensures
        final(out)@ == old(out)@ + u32_be(n),
{
    out.push((n >> 24u32) as u8);
    out.push((n >> 16u32) as u8);
    out.push((n >> 8u32) as u8);
    out.push(n as u8);
    assert(final(out)@ =~= old(out)@ + u32_be(n));
}

/// The number stored most significant byte first at `b[pos..pos + 8]`.
pub fn read_u64_at(b: &[u8], pos: usize) -> (r: u64)
    requires
        pos + 8 <= b@.len(),
    ensures
        r == read_u64_be(b@.subrange(pos as int, pos + 8)),
{
    let r = ((b[pos] as u64) << 56u64) | ((b[pos + 1] as u64) << 48u64) | ((b[pos + 2] as u64)
        << 40u64) | ((b[pos + 3] as u64) << 32u64) | ((b[pos + 4] as u64) << 24u64) | ((b[pos
        + 5] as u64) << 16u64) | ((b[pos + 6] as u64) << 8u64) | (b[pos + 7] as u64);
    let ghost s = b@.subrange(pos as int, pos + 8);
    assert(s[0] == b@[pos as int] && s[1] == b@[pos + 1] && s[2] == b@[pos + 2] && s[3] == b@[pos + 3]);
    assert(s[4] == b@[pos + 4] && s[5] == b@[pos + 5] && s[6] == b@[pos + 6] && s[7] == b@[pos + 7]);
    r
}

/// The number stored most significant byte first at `b[pos..pos + 4]`.
pub fn read_u32_at(b: &[u8], pos: usize) -> (r: u32)
    requires
        pos + 4 <= b@.len(),
    ensures
        r == read_u32_be(b@.subrange(pos as int, pos + 4)),
{
    let r = ((b[pos] as u32) << 24u32) | ((b[pos + 1] as u32) << 16u32) | ((b[pos + 2] as u32)
        << 8u32) | (b[pos + 3] as u32);
    let ghost s = b@.subrange(pos as int, pos + 4);
    assert(s[0] == b@[pos as int] && s[1] == b@[pos + 1] && s[2] == b@[pos + 2] && s[3] == b@[pos + 3]);
    r
}

} // verus!
