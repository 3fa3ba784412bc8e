use crate::bytes::copy_bytes;
use crate::secure::SecureBuffer;
use vstd::prelude::*;

verus! {

/// One stored credential. `name` identifies the app or service and is the
/// key of the store: two names are the same exactly when their bytes are
/// equal, so comparison is case-sensitive. Fields hold UTF-8 text as bytes.
pub struct PasswordEntry {
    pub name: Vec<u8>,
    pub username: Vec<u8>,
    pub password: SecureBuffer,
}

/// The value of an entry: its three fields as byte sequences.
pub struct EntryView {
    pub name: Seq<u8>,
    pub username: Seq<u8>,
    pub password: Seq<u8>,
}

impl View for PasswordEntry {
    type V = EntryView;

    open spec fn view(&self) -> EntryView {
        EntryView { name: self.name@, username: self.username@, password: self.password@ }
    }
}

/// The values of a sequence of entries.
pub open spec fn view_entries(v: Seq<PasswordEntry>) -> Seq<EntryView> {
    v.map_values(|e: PasswordEntry| e@)
}

/// No two entries share a name.
pub open spec fn names_unique(es: Seq<EntryView>) -> bool {
    forall|i: int, j: int| 0 <= i < es.len() && 0 <= j < es.len() && i != j ==> es[i].name != es[j].name
}

/// Some entry has this name.
pub open spec fn has_name(es: Seq<EntryView>, name: Seq<u8>) -> bool {
    exists|i: int| 0 <= i < es.len() && es[i].name == name
}

impl PasswordEntry {
    /// An entry made of copies of the three fields.
    pub fn new(name: &[u8], username: &[u8], password: &[u8]) -> (r: PasswordEntry)
        ensures
            r@ == (EntryView { name: name@, username: username@, password: password@ }),
    {
        PasswordEntry {
            name: copy_bytes(name),
            username: copy_bytes(username),
            password: SecureBuffer::from_slice(password),
        }
    }

    /// An independent copy of this entry.
    pub fn duplicate(&self) -> (r: PasswordEntry)
        ensures
            r@ == self@,
    {
        PasswordEntry {
            name: copy_bytes(self.name.as_slice()),
            username: copy_bytes(self.username.as_slice()),
            password: self.password.duplicate(),
        }
    }
}

/// Independent copies of `entries`, in order.
pub fn duplicate_entries(entries: &[PasswordEntry]) -> (r: Vec<PasswordEntry>)
    ensures
        view_entries(r@) == view_entries(entries@),
{
    let mut out: Vec<PasswordEntry> = Vec::new();
    let mut i: usize = 0;
    while i < entries.len()
        invariant
            i <= entries@.len(),
            out@.len() == i,
            forall|j: int| 0 <= j < i ==> out@[j]@ == entries@[j]@,
        decreases entries@.len() - i,
    {
        let e = entries[i].duplicate();
        out.push(e);
        i += 1;
    }
    assert(view_entries(out@) =~= view_entries(entries@));
    out
}

/// Bytes equality of two slices.
pub fn bytes_equal(a: &[u8], b: &[u8]) -> (r: bool)
    ensures
        r == (a@ == b@),
{
    if a.len() != b.len() {
        return false;
    }
    let mut i: usize = 0;
    while i < a.len()
        invariant
            a@.len() == b@.len(),
            i <= a@.len(),
            forall|j: int| 0 <= j < i ==> a@[j] == b@[j],
        decreases a@.len() - i,
    {
        if a[i] != b[i] {
            return false;
        }
        i += 1;
    }
    assert(a@ =~= b@);
    true
}

/// Position of the entry named `name`, if any.
pub fn find_name(entries: &[PasswordEntry], name: &[u8]) -> (r: Option<usize>)
    ensures
        match r {
            Some(i) => i < entries@.len() && entries@[i as int].name@ == name@ && view_entries(
                entries@,
            )[i as int].name == name@ && has_name(view_entries(entries@), name@),
            None => !has_name(view_entries(entries@), name@),
        },
{
    let mut i: usize = 0;
    while i < entries.len()
        invariant
            i <= entries@.len(),
            forall|j: int| 0 <= j < i ==> entries@[j].name@ != name@,
        decreases entries@.len() - i,
    {
        if bytes_equal(entries[i].name.as_slice(), name) {
            assert(view_entries(entries@)[i as int] == entries@[i as int]@);
            return Some(i);
        }
        i += 1;
    }
    proof {
        let es = view_entries(entries@);
        assert forall|j: int| 0 <= j < es.len() implies es[j].name != name@ by {
            assert(es[j] == entries@[j]@);
        }
    }
    None
}

} // verus!
