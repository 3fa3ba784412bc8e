//! What the command-line front end decides: argument validation, the
//! example configuration line, opening a store with optional migration, and
//! the steps of the interactive unlock loop (the loop itself, which prompts
//! and prints, runs outside the library).
use crate::entry::EntryView;
use crate::error::PasswordError;
use crate::secure::SecureBuffer;
use crate::store::{unlock_result, upgrade_result, PasswordStore};
use vstd::prelude::*;
use vstd::string::StringSliceAdditionalSpecFns;

verus! {

/// An ASCII digit, `'0'` to `'9'`.
pub open spec fn is_ascii_digit(b: u8) -> bool {
    48 <= b <= 57
}

/// Some byte of `b` is not an ASCII digit. On UTF-8 text this is the same as
/// some character not being one, as every byte of a non-ASCII character is
/// at least 128.
pub open spec fn has_non_digit(b: Seq<u8>) -> bool {
    exists|i: int| 0 <= i < b.len() && !is_ascii_digit(b[i])
}

/// The number that the decimal digits `b` spell.
pub open spec fn decimal_value(b: Seq<u8>) -> int
    decreases b.len(),
{
    if b.len() == 0 {
        0
    } else {
        decimal_value(b.drop_last()) * 10 + (b.last() - 48)
    }
}

/// What validating `b` as a number at most `max` gives: the number, or the
/// message that explains the refusal.
pub open spec fn decimal_result(b: Seq<u8>, max: int) -> Result<int, Seq<char>> {
    if has_non_digit(b) {
        Err("The value must be made of digits"@)
    } else if b.len() == 0 {
        Err("The value must not be empty"@)
    } else if decimal_value(b) > max {
        Err("The value is too large"@)
    } else {
        Ok(decimal_value(b))
    }
}

/// The line that shows how to point the program at a password file.
pub fn example_environment_variable_configuration() -> (r: &'static str)
    ensures
        r@ == "export ROOSTER_FILE=$HOME/path/to/rooster.file"@,
{
    "export ROOSTER_FILE=$HOME/path/to/rooster.file"
}

/// True when `s` holds a character that is not an ASCII digit; the
/// validators refuse such values.
pub fn only_digits(s: &str) -> (r: bool)
    ensures
        r == has_non_digit(s.spec_bytes()),
{
    let b = s.as_bytes();
    let mut i: usize = 0;
    while i < b.len()
        invariant
            b@ == s.spec_bytes(),
            i <= b@.len(),
            forall|j: int| 0 <= j < i ==> is_ascii_digit(b@[j]),
        decreases b@.len() - i,
    {
        if b[i] < 48 || b[i] > 57 {
            return true;
        }
        i += 1;
    }
    false
}

proof fn lemma_decimal_nonneg(b: Seq<u8>)
    requires
        !has_non_digit(b),
    ensures
        decimal_value(b) >= 0,
    decreases b.len(),
{
    if b.len() > 0 {
        assert(is_ascii_digit(b[b.len() - 1]));
        assert(!has_non_digit(b.drop_last())) by {
            assert forall|i: int| 0 <= i < b.drop_last().len() implies is_ascii_digit(
                b.drop_last()[i],
            ) by {
                assert(b.drop_last()[i] == b[i]);
            }
        }
        lemma_decimal_nonneg(b.drop_last());
    }
}

fn parse_decimal(v: &str, max: u64) -> (r: Result<u64, String>)
    ensures
        match r {
            Ok(n) => decimal_result(v.spec_bytes(), max as int) == Ok::<int, Seq<char>>(n as int),
            Err(m) => decimal_result(v.spec_bytes(), max as int) == Err::<int, Seq<char>>(m@),
        },
{
    if only_digits(v) {
        return Err("The value must be made of digits".to_owned());
    }
    let b = v.as_bytes();
    if b.len() == 0 {
        return Err("The value must not be empty".to_owned());
    }
    let cap: u128 = max as u128 + 1;
    let mut acc: u128 = 0;
    let mut i: usize = 0;
    assert(b@.take(0) =~= Seq::<u8>::empty());
    while i < b.len()
        invariant
            b@ == v.spec_bytes(),
            !has_non_digit(b@),
            i <= b@.len(),
            cap == max as int + 1,
            acc as int == if decimal_value(b@.take(i as int)) < cap {
                decimal_value(b@.take(i as int))
            } else {
                cap as int
            },
        decreases b@.len() - i,
    {
        let d = (b[i] - 48) as u128;
        let ghost prev = decimal_value(b@.take(i as int));
        proof {
            assert(b@.take(i + 1).drop_last() =~= b@.take(i as int));
            assert(is_ascii_digit(b@[i as int]));
            assert(!has_non_digit(b@.take(i as int))) by {
                assert forall|j: int| 0 <= j < i implies is_ascii_digit(b@.take(i as int)[j]) by {
                    assert(is_ascii_digit(b@[j]));
                }
            }
            lemma_decimal_nonneg(b@.take(i as int));
        }
        let next = acc * 10 + d;
        if next >= cap {
            acc = cap;
        } else {
            acc = next;
        }
        proof {
            let now = decimal_value(b@.take(i + 1));
            assert(now == prev * 10 + d);
            if prev >= cap {
                assert(now >= cap) by (nonlinear_arith)
                    requires now == prev * 10 + d, prev >= cap, cap >= 1, d >= 0;
            }
        }
        i += 1;
    }
    assert(b@.take(b@.len() as int) =~= b@);
    if acc >= cap {
        return Err("The value is too large".to_owned());
    }
    Ok(acc as u64)
}

/// Validates a `usize` argument: digits only, at least one, and in range.
pub fn validate_arg_usize(v: &str) -> (r: Result<usize, String>)
    ensures
        match r {
            Ok(n) => decimal_result(v.spec_bytes(), usize::MAX as int) == Ok::<int, Seq<char>>(n as int),
            Err(m) => decimal_result(v.spec_bytes(), usize::MAX as int) == Err::<int, Seq<char>>(m@),
        },
{
    match parse_decimal(v, usize::MAX as u64) {
        Ok(n) => Ok(n as usize),
        Err(m) => Err(m),
    }
}

/// Validates a `u8` argument: digits only, at least one, and in range.
pub fn validate_arg_u8(v: &str) -> (r: Result<u8, String>)
    ensures
        match r {
            Ok(n) => decimal_result(v.spec_bytes(), u8::MAX as int) == Ok::<int, Seq<char>>(n as int),
            Err(m) => decimal_result(v.spec_bytes(), u8::MAX as int) == Err::<int, Seq<char>>(m@),
        },
{
    match parse_decimal(v, u8::MAX as u64) {
        Ok(n) => Ok(n as u8),
        Err(m) => Err(m),
    }
}

/// Validates a `u32` argument: digits only, at least one, and in range.
pub fn validate_arg_u32(v: &str) -> (r: Result<u32, String>)
    ensures
        match r {
            Ok(n) => decimal_result(v.spec_bytes(), u32::MAX as int) == Ok::<int, Seq<char>>(n as int),
            Err(m) => decimal_result(v.spec_bytes(), u32::MAX as int) == Err::<int, Seq<char>>(m@),
        },
{
    match parse_decimal(v, u32::MAX as u64) {
        Ok(n) => Ok(n as u32),
        Err(m) => Err(m),
    }
}

/// What opening `b` with `password` gives when migration of a legacy
/// container is allowed (`upgrade`) or not.
pub open spec fn load_result(b: Seq<u8>, password: Seq<u8>, upgrade: bool) -> Result<Seq<EntryView>, PasswordError> {
    match unlock_result(b, password) {
        Err(PasswordError::NeedUpgradeErrorFromV1) => if upgrade {
            upgrade_result(b, password)
        } else {
            Err(PasswordError::NeedUpgradeErrorFromV1)
        },
        r => r,
    }
}

/// Opens the container `input` with `master_password`, migrating it if it
/// is legacy and `upgrade` allows it (see `load_result`).
pub fn get_password_store_from_input(input: &[u8], master_password: &SecureBuffer, upgrade: bool) -> (r: Result<PasswordStore, PasswordError>)
    ensures
        match r {
            Ok(s) => load_result(input@, master_password@, upgrade) == Ok::<Seq<EntryView>, PasswordError>(
                s@.entries,
            ) && s@.master_password == master_password@ && s.wf(),
            Err(e) => load_result(input@, master_password@, upgrade) == Err::<Seq<EntryView>, PasswordError>(e),
        },
{
    match PasswordStore::unlock(input, master_password.duplicate()) {
        Ok(store) => Ok(store),
        Err(PasswordError::NeedUpgradeErrorFromV1) => {
            if !upgrade {
                return Err(PasswordError::NeedUpgradeErrorFromV1);
            }
            PasswordStore::upgrade(input, master_password.duplicate())
        },
        Err(e) => Err(e),
    }
}

/// Where the interactive unlock loop stands: the attempts left, whether
/// migration was accepted, and whether the last attempt had a wrong
/// password.
#[derive(Clone, Copy, Debug, PartialEq, Eq, Structural)]
pub struct LoadState {
    pub retries: u32,
    pub force_upgrade: bool,
    pub retry: bool,
}

/// What the loop does after a failed attempt.
#[derive(Clone, Copy, Debug, PartialEq, Eq, Structural)]
pub enum LoadDecision {
    /// Stop with this error.
    Fail(PasswordError),
    /// Ask whether to migrate the legacy container.
    AskUpgrade,
    /// Prompt for the master password again, in this state.
    Retry(LoadState),
}

/// What the loop does with the answer to the migration question.
#[derive(Clone, Copy, Debug, PartialEq, Eq, Structural)]
pub enum UpgradeReply {
    /// Try again, migrating, in this state.
    Proceed(LoadState),
    /// Stop with `NoUpgradeError`.
    Decline(PasswordError),
    /// Ask the question again.
    AskAgain,
}

/// The loop's first state: three attempts, no migration yet.
pub open spec fn initial_load_state() -> LoadState {
    LoadState { retries: 3, force_upgrade: false, retry: false }
}

/// The decision after an attempt failed with `err`: a damaged file, a newer
/// format or an I/O failure ends the loop; a legacy file asks about
/// migration; anything else (a wrong password) uses up one attempt.
pub open spec fn after_error(state: LoadState, err: PasswordError) -> LoadDecision {
    match err {
        PasswordError::NeedUpgradeErrorFromV1 => LoadDecision::AskUpgrade,
        PasswordError::CorruptionError => LoadDecision::Fail(err),
        PasswordError::OutdatedRoosterBinaryError => LoadDecision::Fail(err),
        PasswordError::Io => LoadDecision::Fail(err),
        _ => LoadDecision::Retry(
            LoadState { retries: (state.retries - 1) as u32, force_upgrade: false, retry: true },
        ),
    }
}

impl LoadState {
    /// The loop's first state.
    pub fn initial() -> (r: LoadState)
        ensures
            r == initial_load_state(),
    {
        LoadState { retries: 3, force_upgrade: false, retry: false }
    }

    /// Whether another attempt may start: once the attempts are used up,
    /// the file is probably damaged.
    pub fn check_attempt(&self) -> (r: Result<(), PasswordError>)
        ensures
            self.retries == 0 ==> r == Err::<(), PasswordError>(PasswordError::CorruptionLikelyError),
            self.retries != 0 ==> r == Ok::<(), PasswordError>(()),
    {
        if self.retries == 0 {
            Err(PasswordError::CorruptionLikelyError)
        } else {
            Ok(())
        }
    }

    /// The decision after an attempt failed with `err` (see `after_error`).
    pub fn decide_after_error(&self, err: PasswordError) -> (d: LoadDecision)
        requires
            self.retries > 0,
        ensures
            d == after_error(*self, err),
    {
        match err {
            PasswordError::NeedUpgradeErrorFromV1 => LoadDecision::AskUpgrade,
            PasswordError::CorruptionError => LoadDecision::Fail(err),
            PasswordError::OutdatedRoosterBinaryError => LoadDecision::Fail(err),
            PasswordError::Io => LoadDecision::Fail(err),
            _ => LoadDecision::Retry(
                LoadState { retries: self.retries - 1, force_upgrade: false, retry: true },
            ),
        }
    }

    /// The reply to the migration question, given the answer line: one
    /// starting with `y` proceeds with migration, with the same attempts;
    /// one starting with `n` declines; anything else asks again.
    pub fn upgrade_answer(&self, line: &str) -> (r: UpgradeReply)
        ensures
            line.spec_bytes().len() > 0 && line.spec_bytes()[0] == 121 ==> r == UpgradeReply::Proceed(
                LoadState { retries: self.retries, force_upgrade: true, retry: false },
            ),
            line.spec_bytes().len() > 0 && line.spec_bytes()[0] == 110 ==> r == UpgradeReply::Decline(
                PasswordError::NoUpgradeError,
            ),
            line.spec_bytes().len() == 0 || (line.spec_bytes()[0] != 121 && line.spec_bytes()[0] != 110)
                ==> r == UpgradeReply::AskAgain,
    {
        let b = line.as_bytes();
        if b.len() == 0 {
            UpgradeReply::AskAgain
        } else if b[0] == 121 {
            UpgradeReply::Proceed(LoadState { retries: self.retries, force_upgrade: true, retry: false })
        } else if b[0] == 110 {
            UpgradeReply::Decline(PasswordError::NoUpgradeError)
        } else {
            UpgradeReply::AskAgain
        }
    }
}

} // verus!
