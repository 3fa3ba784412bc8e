//! The unlocked store: the entry collection, keyed by name, with the master
//! password and the key material needed to write it back.
use crate::bytes::copy_bytes;
use crate::cipher::{decrypt, encrypt, lemma_decrypt_encrypt, lemma_wrong_key_refused, open, seal, IV_LEN};
use crate::codec::entries_fit;
use crate::container::{
    container_bytes, container_from, lemma_container_round_trip, legacy_params,
    parse, serialize, ContainerView, FileContainer, LEGACY_LOG2N, LEGACY_P, LEGACY_R,
    VERSION_CURRENT, VERSION_LEGACY,
};
use crate::crypto::{random_bytes, scrypt_of};
use crate::entry::{
    duplicate_entries, find_name, has_name, names_unique, view_entries, EntryView, PasswordEntry,
};
use crate::error::PasswordError;
use crate::kdf::{
    check_params, check_params_usable, default_params, derive_keys, keys_of, keys_wf,
    params_accepted, params_usable, DerivedKeys, ScryptParams, SALT_LEN,
};
use crate::secure::SecureBuffer;
use vstd::arithmetic::power2::{lemma2_to64, pow2};
use vstd::prelude::*;

verus! {

/// The value of a store.
pub struct StoreView {
    pub entries: Seq<EntryView>,
    pub master_password: Seq<u8>,
    pub params: ScryptParams,
    pub salt: Seq<u8>,
    /// Whether the keys for `master_password`, `salt` and `params` are
    /// held; if not, the next `sync` draws a new salt and derives them.
    pub keys_held: bool,
    /// Whether the store holds changes that no `sync` has written yet.
    pub modified: bool,
}

/// What every store keeps true: names are unique, lengths fit the entry
/// layout, the salt has its length, and the parameters are usable.
pub open spec fn store_wf(s: StoreView) -> bool {
    &&& names_unique(s.entries)
    &&& entries_fit(s.entries)
    &&& s.salt.len() == SALT_LEN
    &&& params_usable(s.params)
}

/// `s` with another entry list, marked as modified.
pub open spec fn with_entries(s: StoreView, es: Seq<EntryView>) -> StoreView {
    StoreView { entries: es, modified: true, ..s }
}

/// `e` with another name.
pub open spec fn renamed(e: EntryView, name: Seq<u8>) -> EntryView {
    EntryView { name, ..e }
}

/// `e` with another username.
pub open spec fn with_username(e: EntryView, username: Seq<u8>) -> EntryView {
    EntryView { username, ..e }
}

/// `e` with another password.
pub open spec fn with_password(e: EntryView, password: Seq<u8>) -> EntryView {
    EntryView { password, ..e }
}

/// The current container that `sync` writes for `es` under `password`,
/// `params` and `salt`, with counter block `iv`.
pub open spec fn current_container(
    es: Seq<EntryView>,
    password: Seq<u8>,
    params: ScryptParams,
    salt: Seq<u8>,
    iv: Seq<u8>,
) -> ContainerView {
    ContainerView {
        version: VERSION_CURRENT,
        params,
        salt,
        blob: seal(es, keys_of(password, salt, params), iv),
    }
}

/// A legacy container for `es` under `password` and `salt`.
pub open spec fn legacy_container(es: Seq<EntryView>, password: Seq<u8>, salt: Seq<u8>, iv: Seq<u8>) -> ContainerView {
    ContainerView {
        version: VERSION_LEGACY,
        params: legacy_params(),
        salt,
        blob: seal(es, keys_of(password, salt, legacy_params()), iv),
    }
}

/// The output lengths that scrypt (96 bytes) and HMAC-SHA-256 (32 bytes)
/// give when sealing `es` under `password`, `salt` and `params`.
pub open spec fn outputs_sized(
    es: Seq<EntryView>,
    password: Seq<u8>,
    params: ScryptParams,
    salt: Seq<u8>,
    iv: Seq<u8>,
) -> bool {
    &&& scrypt_of(password, salt, params.log2n, params.r, params.p).len() == 96
    &&& seal(es, keys_of(password, salt, params), iv).tag.len() == 32
}

/// What unlocking `b` with `password` gives: the container is parsed; a
/// legacy one must be migrated first; parameters that scrypt cannot use mark
/// a damaged file; otherwise the keys derived from the header open the blob.
pub open spec fn unlock_result(b: Seq<u8>, password: Seq<u8>) -> Result<Seq<EntryView>, PasswordError> {
    match container_from(b) {
        Err(e) => Err(e),
        Ok(c) => if c.version == VERSION_LEGACY {
            Err(PasswordError::NeedUpgradeErrorFromV1)
        } else if !params_usable(c.params) {
            Err(PasswordError::CorruptionError)
        } else {
            open(c.blob, keys_of(password, c.salt, c.params))
        },
    }
}

/// What migrating `b` with `password` gives: a legacy container is opened
/// with the legacy keys; any other is unlocked as usual.
pub open spec fn upgrade_result(b: Seq<u8>, password: Seq<u8>) -> Result<Seq<EntryView>, PasswordError> {
    match container_from(b) {
        Err(e) => Err(e),
        Ok(c) => if c.version == VERSION_LEGACY {
            open(c.blob, keys_of(password, c.salt, legacy_params()))
        } else {
            unlock_result(b, password)
        },
    }
}

/// The store after a `sync` that drew `fresh_salt`: the salt changes only
/// if the keys had to be derived again.
pub open spec fn synced(old: StoreView, fresh_salt: Seq<u8>) -> StoreView {
    StoreView {
        salt: if old.keys_held {
            old.salt
        } else {
            fresh_salt
        },
        keys_held: true,
        modified: false,
        ..old
    }
}

proof fn lemma_fixed_params_usable()
    ensures
        params_usable(default_params()),
        params_usable(legacy_params()),
{
    lemma2_to64();
    assert(pow2(12) == 0x1000);
    assert(pow2(10) == 0x400);
}

/// An unlocked password store.
pub struct PasswordStore {
    entries: Vec<PasswordEntry>,
    master_password: SecureBuffer,
    params: ScryptParams,
    salt: Vec<u8>,
    keys: Option<DerivedKeys>,
    modified: bool,
}

impl View for PasswordStore {
    type V = StoreView;

    closed spec fn view(&self) -> StoreView {
        StoreView {
            entries: view_entries(self.entries@),
            master_password: self.master_password@,
            params: self.params,
            salt: self.salt@,
            keys_held: self.keys is Some,
            modified: self.modified,
        }
    }
}

impl PasswordStore {
    /// The store's invariant: `store_wf`, and held keys are those of the
    /// master password, salt and parameters.
    pub closed spec fn wf(&self) -> bool {
        &&& store_wf(self@)
        &&& self.keys matches Some(k) ==> k@ == keys_of(self.master_password@, self.salt@, self.params)
            && keys_wf(k@)
    }

    /// An empty store under `master_password` with the default parameters.
    /// Its salt is drawn, and its keys derived, at the first `sync`.
    pub fn new(master_password: SecureBuffer) -> (r: PasswordStore)
        ensures
            r@ == (StoreView {
                entries: Seq::empty(),
                master_password: master_password@,
                params: default_params(),
                salt: Seq::new(SALT_LEN as nat, |i: int| 0u8),
                keys_held: false,
                modified: true,
            }),
            store_wf(r@),
            r.wf(),
    {
        proof {
            lemma_fixed_params_usable();
        }
        let mut salt: Vec<u8> = Vec::new();
        let mut i: usize = 0;
        while i < SALT_LEN
            invariant
                i <= SALT_LEN,
                salt@ == Seq::new(i as nat, |j: int| 0u8),
            decreases SALT_LEN - i,
        {
            salt.push(0);
            i += 1;
            assert(salt@ =~= Seq::new(i as nat, |j: int| 0u8));
        }
        let entries: Vec<PasswordEntry> = Vec::new();
        assert(view_entries(entries@) =~= Seq::<EntryView>::empty());
        PasswordStore {
            entries,
            master_password,
            params: ScryptParams::default_params(),
            salt,
            keys: None,
            modified: true,
        }
    }

    /// Opens the container `bytes` with `master_password` (see
    /// `unlock_result`). The password is scrubbed when this returns an
    /// error, and when the store is dropped.
    pub fn unlock(bytes: &[u8], master_password: SecureBuffer) -> (r: Result<PasswordStore, PasswordError>)
        ensures
            match r {
                Ok(s) => {
                    &&& unlock_result(bytes@, master_password@) == Ok::<Seq<EntryView>, PasswordError>(s@.entries)
                    &&& s@.master_password == master_password@
                    &&& container_from(bytes@) matches Ok(c) && s@.params == c.params && s@.salt == c.salt
                    &&& s@.keys_held
                    &&& !s@.modified
                    &&& store_wf(s@)
                    &&& s.wf()
                },
                Err(e) => unlock_result(bytes@, master_password@) == Err::<Seq<EntryView>, PasswordError>(e),
            },
    {
        let c = match parse(bytes) {
            Ok(c) => c,
            Err(e) => return Err(e),
        };
        if c.version == VERSION_LEGACY {
            return Err(PasswordError::NeedUpgradeErrorFromV1);
        }
        if !check_params_usable(c.params) {
            return Err(PasswordError::CorruptionError);
        }
        let keys = derive_keys(&master_password, c.salt.as_slice(), c.params);
        let entries = match decrypt(&c.blob, &keys) {
            Ok(v) => v,
            Err(e) => return Err(e),
        };
        Ok(
            PasswordStore {
                entries,
                master_password,
                params: c.params,
                salt: c.salt,
                keys: Some(keys),
                modified: false,
            },
        )
    }

    /// Migrates the container `bytes` with `master_password` (see
    /// `upgrade_result`). A legacy container gives a store with the default
    /// parameters whose next `sync` draws a new salt and writes a current
    /// container; `bytes` is not touched.
    pub fn upgrade(bytes: &[u8], master_password: SecureBuffer) -> (r: Result<PasswordStore, PasswordError>)
        ensures
            match r {
                Ok(s) => {
                    &&& upgrade_result(bytes@, master_password@) == Ok::<Seq<EntryView>, PasswordError>(s@.entries)
                    &&& s@.master_password == master_password@
                    &&& container_from(bytes@) matches Ok(c) && (c.version == VERSION_LEGACY ==> s@.params
                        == default_params() && !s@.keys_held && s@.modified)
                    &&& store_wf(s@)
                    &&& s.wf()
                },
                Err(e) => upgrade_result(bytes@, master_password@) == Err::<Seq<EntryView>, PasswordError>(e),
            },
    {
        let c = match parse(bytes) {
            Ok(c) => c,
            Err(e) => return Err(e),
        };
        if c.version != VERSION_LEGACY {
            return PasswordStore::unlock(bytes, master_password);
        }
        proof {
            lemma_fixed_params_usable();
        }
        let legacy = ScryptParams { log2n: LEGACY_LOG2N, r: LEGACY_R, p: LEGACY_P };
        let keys = derive_keys(&master_password, c.salt.as_slice(), legacy);
        let entries = match decrypt(&c.blob, &keys) {
            Ok(v) => v,
            Err(e) => return Err(e),
        };
        Ok(
            PasswordStore {
                entries,
                master_password,
                params: ScryptParams::default_params(),
                salt: c.salt,
                keys: None,
                modified: true,
            },
        )
    }

    /// Writes the whole entry collection as a current container, with `iv`
    /// as the counter block. If the keys are not held (new store, new
    /// parameters or new master password), `fresh_salt` becomes the salt
    /// and the keys are derived; otherwise the held keys and salt are used.
    pub fn sync_with(&mut self, fresh_salt: &[u8], iv: &[u8]) -> (r: Vec<u8>)
        requires
            old(self).wf(),
            fresh_salt@.len() == SALT_LEN,
            iv@.len() == IV_LEN,
        ensures
            final(self).wf(),
            final(self)@ == synced(old(self)@, fresh_salt@),
            r@ == container_bytes(
                current_container(
                    final(self)@.entries,
                    final(self)@.master_password,
                    final(self)@.params,
                    final(self)@.salt,
                    iv@,
                ),
            ),
            container_from(r@) == Ok::<ContainerView, PasswordError>(
                current_container(
                    final(self)@.entries,
                    final(self)@.master_password,
                    final(self)@.params,
                    final(self)@.salt,
                    iv@,
                ),
            ),
            unlock_result(r@, final(self)@.master_password) == Ok::<Seq<EntryView>, PasswordError>(
                final(self)@.entries,
            ),
            store_wf(final(self)@),
    {
        if self.keys.is_none() {
            let salt = copy_bytes(fresh_salt);
            let keys = derive_keys(&self.master_password, salt.as_slice(), self.params);
            self.salt = salt;
            self.keys = Some(keys);
        }
        self.modified = false;
        let out = match &self.keys {
            Some(keys) => {
                let blob = encrypt(self.entries.as_slice(), keys, iv);
                let c = FileContainer {
                    version: VERSION_CURRENT,
                    params: self.params,
                    salt: copy_bytes(self.salt.as_slice()),
                    blob,
                };
                proof {
                    lemma_container_round_trip(c@);
                    lemma_decrypt_encrypt(view_entries(self.entries@), keys@, iv@);
                }
                serialize(&c)
            },
            None => {
                proof {
                    assert(false);
                }
                Vec::new()
            },
        };
        assert(self@ == synced(old(self)@, fresh_salt@));
        out
    }

    /// Writes the whole entry collection as a current container with a fresh
    /// counter block (and a fresh salt when the keys must be derived again).
    /// Fails with `Io`, changing nothing, when randomness is unavailable.
    pub fn sync(&mut self) -> (r: Result<Vec<u8>, PasswordError>)
        requires
            old(self).wf(),
        ensures
            final(self).wf(),
            match r {
                Ok(b) => {
                    &&& final(self)@.entries == old(self)@.entries
                    &&& final(self)@.master_password == old(self)@.master_password
                    &&& final(self)@.params == old(self)@.params
                    &&& final(self)@.keys_held
                    &&& !final(self)@.modified
                    &&& old(self)@.keys_held ==> final(self)@.salt == old(self)@.salt
                    &&& unlock_result(b@, final(self)@.master_password) == Ok::<Seq<EntryView>, PasswordError>(
                        final(self)@.entries,
                    )
                    &&& container_from(b@) matches Ok(c) && c.version == VERSION_CURRENT && c.params
                        == final(self)@.params && c.salt == final(self)@.salt
                },
                Err(e) => e == PasswordError::Io && final(self)@ == old(self)@,
            },
            store_wf(final(self)@),
    {
        let salt = match random_bytes(SALT_LEN) {
            Some(s) => s,
            None => return Err(PasswordError::Io),
        };
        let iv = match random_bytes(IV_LEN) {
            Some(v) => v,
            None => return Err(PasswordError::Io),
        };
        let out = self.sync_with(salt.as_slice(), iv.as_slice());
        Ok(out)
    }

    /// Adds `entry`. Fails with `DuplicateEntry`, changing nothing, if an
    /// entry already has its name.
    pub fn add_password(&mut self, entry: PasswordEntry) -> (r: Result<(), PasswordError>)
        requires
            old(self).wf(),
        ensures
            final(self).wf(),
            has_name(old(self)@.entries, entry@.name) ==> r == Err::<(), PasswordError>(
                PasswordError::DuplicateEntry,
            ) && final(self)@ == old(self)@,
            !has_name(old(self)@.entries, entry@.name) ==> r == Ok::<(), PasswordError>(())
                && final(self)@ == with_entries(old(self)@, old(self)@.entries.push(entry@)),
            store_wf(final(self)@),
    {
        if find_name(self.entries.as_slice(), entry.name.as_slice()).is_some() {
            return Err(PasswordError::DuplicateEntry);
        }
        let _lengths = (entry.name.len(), entry.username.len(), entry.password.len());
        let ghost es = view_entries(self.entries@);
        let ghost e = entry@;
        self.entries.push(entry);
        self.modified = true;
        let _count = self.entries.len();
        proof {
            let after = view_entries(self.entries@);
            assert(after =~= es.push(e));
            assert forall|k: int, l: int|
                0 <= k < after.len() && 0 <= l < after.len() && k != l implies after[k].name
                != after[l].name by {
                if k == es.len() {
                    assert(after[l] == es[l]);
                } else if l == es.len() {
                    assert(after[k] == es[k]);
                } else {
                    assert(after[k] == es[k] && after[l] == es[l]);
                }
            }
            assert forall|k: int| 0 <= k < after.len() implies after[k].name.len() <= u64::MAX
                && after[k].username.len() <= u64::MAX && after[k].password.len() <= u64::MAX by {
                if k < es.len() {
                    assert(after[k] == es[k]);
                }
            }
        }
        Ok(())
    }

    /// Removes the entry named `name`. Fails with `NotFound`, changing
    /// nothing, if there is none.
    pub fn delete_password(&mut self, name: &[u8]) -> (r: Result<(), PasswordError>)
        requires
            old(self).wf(),
        ensures
            final(self).wf(),
            !has_name(old(self)@.entries, name@) ==> r == Err::<(), PasswordError>(
                PasswordError::NotFound,
            ) && final(self)@ == old(self)@,
            has_name(old(self)@.entries, name@) ==> r == Ok::<(), PasswordError>(()) && exists|i: int|
                0 <= i < old(self)@.entries.len() && old(self)@.entries[i].name == name@
                    && final(self)@ == with_entries(old(self)@, old(self)@.entries.remove(i)),
            store_wf(final(self)@),
    {
        let i = match find_name(self.entries.as_slice(), name) {
            Some(i) => i,
            None => return Err(PasswordError::NotFound),
        };
        let ghost es = view_entries(self.entries@);
        let _removed = self.entries.remove(i);
        self.modified = true;
        proof {
            let after = view_entries(self.entries@);
            assert(after =~= es.remove(i as int));
            assert(es[i as int].name == name@);
            assert(has_name(es, name@));
            assert forall|k: int, l: int|
                0 <= k < after.len() && 0 <= l < after.len() && k != l implies after[k].name
                != after[l].name by {
                let k2 = if k < i { k } else { k + 1 };
                let l2 = if l < i { l } else { l + 1 };
                assert(after[k] == es[k2] && after[l] == es[l2]);
            }
            assert forall|k: int| 0 <= k < after.len() implies after[k].name.len() <= u64::MAX
                && after[k].username.len() <= u64::MAX && after[k].password.len() <= u64::MAX by {
                let k2 = if k < i { k } else { k + 1 };
                assert(after[k] == es[k2]);
            }
        }
        Ok(())
    }

    /// Puts `e` in place of the entry at `i`, whose name it keeps unless
    /// no other entry has the new one.
    fn replace_at(&mut self, i: usize, e: PasswordEntry)
        requires
            old(self).wf(),
            i < old(self)@.entries.len(),
            forall|k: int|
                0 <= k < old(self)@.entries.len() && k != i ==> old(self)@.entries[k].name != e@.name,
            e@.name.len() <= u64::MAX,
            e@.username.len() <= u64::MAX,
            e@.password.len() <= u64::MAX,
        ensures
            final(self).wf(),
            final(self)@ == with_entries(old(self)@, old(self)@.entries.update(i as int, e@)),
            store_wf(final(self)@),
    {
        let ghost es = view_entries(self.entries@);
        let _old = self.entries.remove(i);
        self.entries.insert(i, e);
        self.modified = true;
        proof {
            let after = view_entries(self.entries@);
            assert(after =~= es.update(i as int, e@));
            assert forall|k: int, l: int|
                0 <= k < after.len() && 0 <= l < after.len() && k != l implies after[k].name
                != after[l].name by {
                if k != i && l != i {
                    assert(after[k] == es[k] && after[l] == es[l]);
                }
            }
        }
    }

    /// Gives the entry named `old_name` the name `new_name`. Fails with
    /// `NotFound` if there is no such entry, then with `DuplicateEntry` if an
    /// entry is already named `new_name`; either way nothing changes.
    pub fn rename(&mut self, old_name: &[u8], new_name: &[u8]) -> (r: Result<(), PasswordError>)
        requires
            old(self).wf(),
        ensures
            final(self).wf(),
            !has_name(old(self)@.entries, old_name@) ==> r == Err::<(), PasswordError>(
                PasswordError::NotFound,
            ) && final(self)@ == old(self)@,
            has_name(old(self)@.entries, old_name@) && has_name(old(self)@.entries, new_name@) ==> r
                == Err::<(), PasswordError>(PasswordError::DuplicateEntry) && final(self)@ == old(self)@,
            has_name(old(self)@.entries, old_name@) && !has_name(old(self)@.entries, new_name@) ==> r
                == Ok::<(), PasswordError>(()) && exists|i: int|
                0 <= i < old(self)@.entries.len() && old(self)@.entries[i].name == old_name@
                    && final(self)@ == with_entries(
                    old(self)@,
                    old(self)@.entries.update(i, renamed(old(self)@.entries[i], new_name@)),
                ),
            store_wf(final(self)@),
    {
        let i = match find_name(self.entries.as_slice(), old_name) {
            Some(i) => i,
            None => return Err(PasswordError::NotFound),
        };
        if find_name(self.entries.as_slice(), new_name).is_some() {
            proof {
                assert(view_entries(self.entries@)[i as int].name == old_name@);
            }
            return Err(PasswordError::DuplicateEntry);
        }
        let current = &self.entries[i];
        let e = PasswordEntry {
            name: copy_bytes(new_name),
            username: copy_bytes(current.username.as_slice()),
            password: current.password.duplicate(),
        };
        proof {
            let es = view_entries(self.entries@);
            assert(es[i as int] == current@);
            assert(e@ == renamed(es[i as int], new_name@));
            assert forall|k: int| 0 <= k < es.len() && k != i implies es[k].name != e@.name by {
                if es[k].name == e@.name {
                    assert(has_name(es, new_name@));
                }
            }
        }
        self.replace_at(i, e);
        Ok(())
    }

    /// Sets the username of the entry named `name`. Fails with `NotFound`,
    /// changing nothing, if there is none.
    pub fn transfer(&mut self, name: &[u8], new_username: &[u8]) -> (r: Result<(), PasswordError>)
        requires
            old(self).wf(),
        ensures
            final(self).wf(),
            !has_name(old(self)@.entries, name@) ==> r == Err::<(), PasswordError>(
                PasswordError::NotFound,
            ) && final(self)@ == old(self)@,
            has_name(old(self)@.entries, name@) ==> r == Ok::<(), PasswordError>(()) && exists|i: int|
                0 <= i < old(self)@.entries.len() && old(self)@.entries[i].name == name@
                    && final(self)@ == with_entries(
                    old(self)@,
                    old(self)@.entries.update(i, with_username(old(self)@.entries[i], new_username@)),
                ),
            store_wf(final(self)@),
    {
        let i = match find_name(self.entries.as_slice(), name) {
            Some(i) => i,
            None => return Err(PasswordError::NotFound),
        };
        let current = &self.entries[i];
        let e = PasswordEntry {
            name: copy_bytes(current.name.as_slice()),
            username: copy_bytes(new_username),
            password: current.password.duplicate(),
        };
        proof {
            let es = view_entries(self.entries@);
            assert(es[i as int] == current@);
            assert forall|k: int| 0 <= k < es.len() && k != i implies es[k].name != e@.name by {
                assert(es[k].name != es[i as int].name);
            }
        }
        self.replace_at(i, e);
        Ok(())
    }

    /// Sets the password of the entry named `name`. Fails with `NotFound`,
    /// changing nothing, if there is none.
    pub fn change_password(&mut self, name: &[u8], new_password: &[u8]) -> (r: Result<(), PasswordError>)
        requires
            old(self).wf(),
        ensures
            final(self).wf(),
            !has_name(old(self)@.entries, name@) ==> r == Err::<(), PasswordError>(
                PasswordError::NotFound,
            ) && final(self)@ == old(self)@,
            has_name(old(self)@.entries, name@) ==> r == Ok::<(), PasswordError>(()) && exists|i: int|
                0 <= i < old(self)@.entries.len() && old(self)@.entries[i].name == name@
                    && final(self)@ == with_entries(
                    old(self)@,
                    old(self)@.entries.update(i, with_password(old(self)@.entries[i], new_password@)),
                ),
            store_wf(final(self)@),
    {
        let i = match find_name(self.entries.as_slice(), name) {
            Some(i) => i,
            None => return Err(PasswordError::NotFound),
        };
        let current = &self.entries[i];
        let e = PasswordEntry {
            name: copy_bytes(current.name.as_slice()),
            username: copy_bytes(current.username.as_slice()),
            password: SecureBuffer::from_slice(new_password),
        };
        proof {
            let es = view_entries(self.entries@);
            assert(es[i as int] == current@);
            assert forall|k: int| 0 <= k < es.len() && k != i implies es[k].name != e@.name by {
                assert(es[k].name != es[i as int].name);
            }
        }
        self.replace_at(i, e);
        Ok(())
    }

    /// Whether an entry is named `name`.
    pub fn has_password(&self, name: &[u8]) -> (r: bool)
        ensures
            r == has_name(self@.entries, name@),
    {
        find_name(self.entries.as_slice(), name).is_some()
    }

    /// A copy of the entry named `name`, if there is one.
    pub fn get_password(&self, name: &[u8]) -> (r: Option<PasswordEntry>)
        ensures
            match r {
                Some(e) => exists|i: int| 0 <= i < self@.entries.len() && self@.entries[i] == e@ && e@.name == name@,
                None => !has_name(self@.entries, name@),
            },
    {
        match find_name(self.entries.as_slice(), name) {
            Some(i) => {
                let e = self.entries[i].duplicate();
                assert(view_entries(self.entries@)[i as int] == e@);
                assert(self@.entries[i as int] == e@);
                Some(e)
            },
            None => None,
        }
    }

    /// An independent copy of every entry, in order.
    pub fn get_all_passwords(&self) -> (r: Vec<PasswordEntry>)
        ensures
            view_entries(r@) == self@.entries,
    {
        duplicate_entries(self.entries.as_slice())
    }

    /// Whether the store holds changes that no `sync` has written yet.
    pub fn is_modified(&self) -> (r: bool)
        ensures
            r == self@.modified,
    {
        self.modified
    }

    /// The current key-stretching parameters.
    pub fn scrypt_params(&self) -> (r: ScryptParams)
        ensures
            r == self@.params,
    {
        self.params
    }

    /// Sets the key-stretching parameters; the next `sync` draws a new salt
    /// and derives the keys again. Fails with `InvalidScryptParams`,
    /// changing nothing, unless `params_accepted(params, force)`.
    pub fn set_scrypt_params(&mut self, params: ScryptParams, force: bool) -> (r: Result<(), PasswordError>)
        requires
            old(self).wf(),
        ensures
            final(self).wf(),
            params_accepted(params, force) ==> r == Ok::<(), PasswordError>(()) && final(self)@ == (
            StoreView { params, keys_held: false, modified: true, ..old(self)@ }),
            !params_accepted(params, force) ==> r == Err::<(), PasswordError>(
                PasswordError::InvalidScryptParams,
            ) && final(self)@ == old(self)@,
            store_wf(final(self)@),
    {
        if !check_params(params, force) {
            return Err(PasswordError::InvalidScryptParams);
        }
        self.keys = None;
        self.params = params;
        self.modified = true;
        Ok(())
    }

    /// Replaces the master password (the old one is scrubbed); the next
    /// `sync` draws a new salt and derives the keys again.
    pub fn set_master_password(&mut self, master_password: SecureBuffer)
        requires
            old(self).wf(),
        ensures
            final(self).wf(),
            final(self)@ == (StoreView {
                master_password: master_password@,
                keys_held: false,
                modified: true,
                ..old(self)@
            }),
            store_wf(final(self)@),
    {
        self.keys = None;
        self.master_password = master_password;
        self.modified = true;
    }
}

/// Writes `entries` as a legacy container under `master_password` and
/// `salt`, with `iv` as the counter block; the keys come from the fixed
/// legacy parameters.
pub fn write_legacy(entries: &[PasswordEntry], master_password: &SecureBuffer, salt: &[u8], iv: &[u8]) -> (r: Vec<u8>)
    requires
        salt@.len() == SALT_LEN,
        iv@.len() == IV_LEN,
    ensures
        r@ == container_bytes(legacy_container(view_entries(entries@), master_password@, salt@, iv@)),
        container_from(r@) == Ok::<ContainerView, PasswordError>(
            legacy_container(view_entries(entries@), master_password@, salt@, iv@),
        ),
{
    proof {
        lemma_fixed_params_usable();
    }
    let legacy = ScryptParams { log2n: LEGACY_LOG2N, r: LEGACY_R, p: LEGACY_P };
    let keys = derive_keys(master_password, salt, legacy);
    let blob = encrypt(entries, &keys, iv);
    let c = FileContainer { version: VERSION_LEGACY, params: legacy, salt: copy_bytes(salt), blob };
    proof {
        lemma_container_round_trip(c@);
    }
    serialize(&c)
}

/// Migration keeps every entry: upgrading a legacy container that holds a
/// list of entries with distinct names gives exactly that list.
pub proof fn lemma_upgrade_preserves_entries(
    es: Seq<EntryView>,
    password: Seq<u8>,
    salt: Seq<u8>,
    iv: Seq<u8>,
)
    requires
        names_unique(es),
        entries_fit(es),
        salt.len() == SALT_LEN,
        iv.len() == IV_LEN,
        outputs_sized(es, password, legacy_params(), salt, iv),
    ensures
        upgrade_result(container_bytes(legacy_container(es, password, salt, iv)), password) == Ok::<
            Seq<EntryView>,
            PasswordError,
        >(es),
{
    let c = legacy_container(es, password, salt, iv);
    lemma_container_round_trip(c);
    lemma_decrypt_encrypt(es, keys_of(password, salt, legacy_params()), iv);
}

/// A container written under any usable parameters opens again with the
/// same master password: the parameters are read back from its header.
pub proof fn lemma_new_params_unlock(
    es: Seq<EntryView>,
    password: Seq<u8>,
    params: ScryptParams,
    salt: Seq<u8>,
    iv: Seq<u8>,
)
    requires
        names_unique(es),
        entries_fit(es),
        params_usable(params),
        salt.len() == SALT_LEN,
        iv.len() == IV_LEN,
        outputs_sized(es, password, params, salt, iv),
    ensures
        container_from(container_bytes(current_container(es, password, params, salt, iv))) matches Ok(c)
            && c.params == params,
        unlock_result(container_bytes(current_container(es, password, params, salt, iv)), password)
            == Ok::<Seq<EntryView>, PasswordError>(es),
{
    let c = current_container(es, password, params, salt, iv);
    lemma_container_round_trip(c);
    lemma_decrypt_encrypt(es, keys_of(password, salt, params), iv);
}

/// Keys derived with stale parameters do not open a container written
/// under new ones, whenever the two sets of keys have different check
/// values.
pub proof fn lemma_stale_params_refused(
    es: Seq<EntryView>,
    password: Seq<u8>,
    params: ScryptParams,
    stale: ScryptParams,
    salt: Seq<u8>,
    iv: Seq<u8>,
)
    requires
        keys_of(password, salt, stale).check != keys_of(password, salt, params).check,
    ensures
        open(current_container(es, password, params, salt, iv).blob, keys_of(password, salt, stale))
            == Err::<Seq<EntryView>, PasswordError>(PasswordError::WrongMasterPasswordError),
{
    lemma_wrong_key_refused(es, keys_of(password, salt, params), keys_of(password, salt, stale), iv);
}

} // verus!
