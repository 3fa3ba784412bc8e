//! The byte layout of a list of entries, the plaintext that the cipher
//! protects: the number of entries, then each entry as its name, username and
//! password, each field prefixed by its length. Numbers are eight bytes,
//! most significant first.
use crate::bytes::{copy_range, lemma_u64_be_round_trip, push_u64_be, read_u64_at, read_u64_be, u64_be};
use crate::entry::{find_name, names_unique, view_entries, EntryView, PasswordEntry};
use crate::secure::SecureBuffer;
use vstd::prelude::*;

verus! {

/// A field: its length, then its bytes.
pub open spec fn field_bytes(f: Seq<u8>) -> Seq<u8> {
    u64_be(f.len() as u64) + f
}

/// An entry: its name, username and password fields.
pub open spec fn entry_bytes(e: EntryView) -> Seq<u8> {
    field_bytes(e.name) + field_bytes(e.username) + field_bytes(e.password)
}

/// The entries one after the other.
pub open spec fn seq_bytes(es: Seq<EntryView>) -> Seq<u8>
    decreases es.len(),
{
    if es.len() == 0 {
        Seq::empty()
    } else {
        entry_bytes(es[0]) + seq_bytes(es.skip(1))
    }
}

/// The serialized entry list: the count, then the entries.
pub open spec fn entries_bytes(es: Seq<EntryView>) -> Seq<u8> {
    u64_be(es.len() as u64) + seq_bytes(es)
}

/// Every length in `es` fits the eight-byte prefix.
pub open spec fn entries_fit(es: Seq<EntryView>) -> bool {
    &&& es.len() <= u64::MAX
    &&& forall|i: int|
        0 <= i < es.len() ==> es[i].name.len() <= u64::MAX && es[i].username.len() <= u64::MAX
            && es[i].password.len() <= u64::MAX
}

/// The field at the front of `b`, and what follows it.
pub open spec fn field_from(b: Seq<u8>) -> Option<(Seq<u8>, Seq<u8>)> {
    if b.len() < 8 {
        None
    } else {
        let n = read_u64_be(b) as int;
        if b.len() - 8 < n {
            None
        } else {
            Some((b.subrange(8, 8 + n), b.skip(8 + n)))
        }
    }
}

/// The entry at the front of `b`, and what follows it.
pub open spec fn entry_from(b: Seq<u8>) -> Option<(EntryView, Seq<u8>)> {
    match field_from(b) {
        None => None,
        Some((name, r1)) => match field_from(r1) {
            None => None,
            Some((username, r2)) => match field_from(r2) {
                None => None,
                Some((password, r3)) => Some(
                    (EntryView { name, username, password }, r3),
                ),
            },
        },
    }
}

/// Exactly `n` entries making up the whole of `b`.
pub open spec fn seq_from(b: Seq<u8>, n: nat) -> Option<Seq<EntryView>>
    decreases n,
{
    if n == 0 {
        if b.len() == 0 {
            Some(Seq::empty())
        } else {
            None
        }
    } else {
        match entry_from(b) {
            None => None,
            Some((e, rest)) => match seq_from(rest, (n - 1) as nat) {
                None => None,
                Some(es) => Some(seq![e] + es),
            },
        }
    }
}

/// The entry list that `b` holds: a count, exactly that many entries and
/// nothing after them, with no name repeated.
pub open spec fn entries_from(b: Seq<u8>) -> Option<Seq<EntryView>> {
    if b.len() < 8 {
        None
    } else {
        match seq_from(b.skip(8), read_u64_be(b) as nat) {
            Some(es) => if names_unique(es) {
                Some(es)
            } else {
                None
            },
            None => None,
        }
    }
}

/// `a` in front of the list that `o` holds, if it holds one.
pub open spec fn prepend(a: Seq<EntryView>, o: Option<Seq<EntryView>>) -> Option<Seq<EntryView>> {
    match o {
        Some(es) => Some(a + es),
        None => None,
    }
}

proof fn lemma_field_round_trip(f: Seq<u8>, tail: Seq<u8>)
    requires
        f.len() <= u64::MAX,
    ensures
        field_from(field_bytes(f) + tail) == Some((f, tail)),
{
    lemma_u64_be_round_trip(f.len() as u64);
    let b = field_bytes(f) + tail;
    assert(b == u64_be(f.len() as u64) + (f + tail));
    assert(b.subrange(8, 8 + f.len() as int) =~= f);
    assert(b.skip(8 + f.len() as int) =~= tail);
}

proof fn lemma_entry_round_trip(e: EntryView, tail: Seq<u8>)
    requires
        e.name.len() <= u64::MAX,
        e.username.len() <= u64::MAX,
        e.password.len() <= u64::MAX,
    ensures
        entry_from(entry_bytes(e) + tail) == Some((e, tail)),
{
    let t2 = field_bytes(e.password) + tail;
    let t1 = field_bytes(e.username) + t2;
    assert(entry_bytes(e) + tail =~= field_bytes(e.name) + t1);
    lemma_field_round_trip(e.name, t1);
    lemma_field_round_trip(e.username, t2);
    lemma_field_round_trip(e.password, tail);
}

proof fn lemma_seq_round_trip(es: Seq<EntryView>)
    requires
        entries_fit(es),
    ensures
        seq_from(seq_bytes(es), es.len()) == Some(es),
    decreases es.len(),
{
    if es.len() > 0 {
        let rest = es.skip(1);
        assert(entries_fit(rest)) by {
            assert forall|i: int| 0 <= i < rest.len() implies rest[i].name.len() <= u64::MAX
                && rest[i].username.len() <= u64::MAX && rest[i].password.len() <= u64::MAX by {
                assert(rest[i] == es[i + 1]);
            }
        }
        lemma_entry_round_trip(es[0], seq_bytes(rest));
        lemma_seq_round_trip(rest);
        assert(seq![es[0]] + rest =~= es);
    }
}

/// Decoding the serialized form of a list of entries with distinct names
/// gives the list back.
pub proof fn lemma_entries_round_trip(es: Seq<EntryView>)
    requires
        entries_fit(es),
        names_unique(es),
    ensures
        entries_from(entries_bytes(es)) == Some(es),
{
    lemma_u64_be_round_trip(es.len() as u64);
    lemma_seq_round_trip(es);
    assert(entries_bytes(es).skip(8) =~= seq_bytes(es));
}

proof fn lemma_seq_bytes_push(es: Seq<EntryView>, e: EntryView)
    ensures
        seq_bytes(es.push(e)) == seq_bytes(es) + entry_bytes(e),
    decreases es.len(),
{
    if es.len() == 0 {
        assert(es.push(e).skip(1) =~= Seq::<EntryView>::empty());
        assert(es.push(e)[0] == e);
        assert(seq_bytes(Seq::<EntryView>::empty()) == Seq::<u8>::empty());
        assert(seq_bytes(es) == Seq::<u8>::empty());
        assert(seq_bytes(es.push(e)) =~= entry_bytes(e) + Seq::<u8>::empty());
        assert(seq_bytes(es.push(e)) =~= seq_bytes(es) + entry_bytes(e));
    } else {
        assert(es.push(e).skip(1) =~= es.skip(1).push(e));
        lemma_seq_bytes_push(es.skip(1), e);
        assert(seq_bytes(es.push(e)) =~= seq_bytes(es) + entry_bytes(e));
    }
}

fn put_field(out: &mut SecureBuffer, f: &[u8])
    ensures
        final(out)@ == old(out)@ + field_bytes(f@),
{
    let mut len: Vec<u8> = Vec::new();
    push_u64_be(&mut len, f.len() as u64);
    out.extend(len.as_slice());
    out.extend(f);
    assert(final(out)@ =~= old(out)@ + field_bytes(f@));
}

/// The number of bytes of the serialized form of `entries`, or 0 if that is
/// more than a buffer can hold (`isize::MAX`); only used to size the buffer.
fn encoded_len(entries: &[PasswordEntry]) -> usize {
    let mut total: usize = 8;
    let mut i: usize = 0;
    while i < entries.len()
        invariant
            i <= entries@.len(),
            total <= isize::MAX,
        decreases entries@.len() - i,
    {
        let e = &entries[i];
        let parts: [usize; 4] = [24, e.name.len(), e.username.len(), e.password.len()];
        let mut k: usize = 0;
        while k < 4
            invariant
                k <= 4,
                total <= isize::MAX,
            decreases 4 - k,
        {
            let bound = isize::MAX as usize;
            if parts[k] > bound || total > bound - parts[k] {
                return 0;
            }
            total = total + parts[k];
            k += 1;
        }
        i += 1;
    }
    total
}

/// The serialized form of `entries`, in a buffer that is scrubbed when
/// dropped and sized up front, so no copy of the plaintext is left behind.
pub fn encode_entries(entries: &[PasswordEntry]) -> (r: SecureBuffer)
    ensures
        r@ == entries_bytes(view_entries(entries@)),
{
    let ghost es = view_entries(entries@);
    let mut out = SecureBuffer::with_capacity(encoded_len(entries));
    let mut count: Vec<u8> = Vec::new();
    push_u64_be(&mut count, entries.len() as u64);
    out.extend(count.as_slice());
    let mut i: usize = 0;
    assert(es.take(0) =~= Seq::<EntryView>::empty());
    while i < entries.len()
        invariant
            i <= entries@.len(),
            es == view_entries(entries@),
            out@ == u64_be(entries@.len() as u64) + seq_bytes(es.take(i as int)),
        decreases entries@.len() - i,
    {
        let e = &entries[i];
        put_field(&mut out, e.name.as_slice());
        put_field(&mut out, e.username.as_slice());
        put_field(&mut out, e.password.as_slice());
        proof {
            assert(es[i as int] == e@);
            lemma_seq_bytes_push(es.take(i as int), e@);
            assert(es.take(i as int).push(e@) =~= es.take(i + 1));
        }
        i += 1;
    }
    assert(es.take(entries@.len() as int) =~= es);
    out
}

fn read_field(b: &[u8], pos: usize) -> (r: Option<(Vec<u8>, usize)>)
    requires
        pos <= b@.len(),
    ensures
        match r {
            None => field_from(b@.skip(pos as int)) is None,
            Some((f, p)) => p <= b@.len() && field_from(b@.skip(pos as int)) == Some(
                (f@, b@.skip(p as int)),
            ) && f@.len() <= usize::MAX,
        },
{
    let ghost s = b@.skip(pos as int);
    if b.len() - pos < 8 {
        return None;
    }
    let n = read_u64_at(b, pos);
    assert(s.subrange(0, 8) =~= b@.subrange(pos as int, pos + 8));
    assert(read_u64_be(s) == read_u64_be(s.subrange(0, 8)));
    if n > (b.len() - pos - 8) as u64 {
        return None;
    }
    let start = pos + 8;
    let end = start + n as usize;
    let f = copy_range(b, start, end);
    assert(f@ =~= s.subrange(8, 8 + n as int));
    assert(b@.skip(end as int) =~= s.skip(8 + n as int));
    Some((f, end))
}

fn read_entry(b: &[u8], pos: usize) -> (r: Option<(PasswordEntry, usize)>)
    requires
        pos <= b@.len(),
    ensures
        match r {
            None => entry_from(b@.skip(pos as int)) is None,
            Some((e, p)) => p <= b@.len() && entry_from(b@.skip(pos as int)) == Some(
                (e@, b@.skip(p as int)),
            ) && e@.name.len() <= u64::MAX && e@.username.len() <= u64::MAX
                && e@.password.len() <= u64::MAX,
        },
{
    let (name, p1) = match read_field(b, pos) {
        Some(x) => x,
        None => return None,
    };
    let (username, p2) = match read_field(b, p1) {
        Some(x) => x,
        None => return None,
    };
    let (password, p3) = match read_field(b, p2) {
        Some(x) => x,
        None => return None,
    };
    let e = PasswordEntry { name, username, password: SecureBuffer::new(password) };
    Some((e, p3))
}

/// The entry list that `b` holds, if it is well formed (see `entries_from`).
pub fn decode_entries(b: &[u8]) -> (r: Option<Vec<PasswordEntry>>)
    ensures
        match r {
            Some(v) => entries_from(b@) == Some(view_entries(v@)) && entries_fit(view_entries(v@)),
            None => entries_from(b@) is None,
        },
{
    if b.len() < 8 {
        return None;
    }
    let n = read_u64_at(b, 0);
    assert(b@.subrange(0, 8) =~= b@.take(8));
    assert(read_u64_be(b@) == read_u64_be(b@.subrange(0, 8)));
    let ghost whole = seq_from(b@.skip(8), n as nat);
    let mut acc: Vec<PasswordEntry> = Vec::new();
    let mut pos: usize = 8;
    let mut i: u64 = 0;
    assert(view_entries(acc@) =~= Seq::<EntryView>::empty());
    assert(prepend(Seq::empty(), whole) == whole) by {
        if let Some(es) = whole {
            assert(Seq::<EntryView>::empty() + es =~= es);
        }
    }
    while i < n
        invariant
            8 <= pos <= b@.len(),
            i <= n,
            n == read_u64_be(b@),
            whole == seq_from(b@.skip(8), n as nat),
            names_unique(view_entries(acc@)),
            entries_fit(view_entries(acc@)),
            acc@.len() == i,
            whole == prepend(view_entries(acc@), seq_from(b@.skip(pos as int), (n - i) as nat)),
        decreases n - i,
    {
        let ghost before = view_entries(acc@);
        let (e, next) = match read_entry(b, pos) {
            Some(x) => x,
            None => return None,
        };
        let ghost rest = seq_from(b@.skip(next as int), (n - i - 1) as nat);
        assert(seq_from(b@.skip(pos as int), (n - i) as nat) == match rest {
            None => None,
            Some(es) => Some(seq![e@] + es),
        });
        if let Some(j) = find_name(acc.as_slice(), e.name.as_slice()) {
            proof {
                if let Some(all) = whole {
                    let tail = rest->Some_0;
                    assert(all == before + (seq![e@] + tail));
                    assert(all[j as int] == before[j as int]);
                    assert(all[before.len() as int] == e@);
                }
            }
            return None;
        }
        proof {
            assert forall|k: int, l: int|
                0 <= k < before.len() + 1 && 0 <= l < before.len() + 1 && k != l implies
                #[trigger] before.push(e@)[k].name != #[trigger] before.push(e@)[l].name by {
                if k == before.len() {
                    assert(before[l] == acc@[l]@);
                } else if l == before.len() {
                    assert(before[k] == acc@[k]@);
                }
            }
            if let Some(tail) = rest {
                assert(before + (seq![e@] + tail) =~= before.push(e@) + tail);
            }
        }
        acc.push(e);
        assert(view_entries(acc@) =~= before.push(e@));
        assert(entries_fit(view_entries(acc@))) by {
            assert forall|k: int| 0 <= k < view_entries(acc@).len() implies view_entries(acc@)[k].name.len() <= u64::MAX
                && view_entries(acc@)[k].username.len() <= u64::MAX && view_entries(acc@)[k].password.len() <= u64::MAX by {
                if k < before.len() {
                    assert(view_entries(acc@)[k] == before[k]);
                }
            }
        }
        pos = next;
        i = i + 1;
    }
    if pos != b.len() {
        return None;
    }
    assert(b@.skip(pos as int) =~= Seq::<u8>::empty());
    assert(view_entries(acc@) + Seq::empty() =~= view_entries(acc@));
    Some(acc)
}

} // verus!
