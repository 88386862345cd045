//! Keyring abstraction and the session cache in front of it.
//!
//! Every access to the OS keychain can raise a password prompt (macOS), so
//! `CachedKeyringStore` remembers, per account, either the secret or the
//! fact that there is none, and answers from that memory until told to
//! forget it.

use vstd::prelude::*;

use crate::error::CoreError;
use crate::text::{chars_of, contains, contains_exec, push_str, str_eq};

verus! {

/// Service name used for every entry (the desktop bundle identifier).
pub const SERVICE: &'static str = "com.mango.app";

/// `api_account:{account_id}`: the keyring `user` of an account's entry.
pub fn user_id(account_id: &str) -> (s: String)
    ensures
        s@ == "api_account:"@ + account_id@,
{
    let mut s = String::new();
    push_str(&mut s, "api_account:");
    push_str(&mut s, account_id);
    s
}

/// `{account_id}:oss_secret`: the storage id of an account's separate OSS
/// secret entry.
pub fn oss_secret_storage_id(account_id: &str) -> (s: String)
    ensures
        s@ == account_id@ + ":oss_secret"@,
{
    let mut s = String::new();
    push_str(&mut s, account_id);
    push_str(&mut s, ":oss_secret");
    s
}

/// A credential store, keyed by account id. Implemented by the OS keychain
/// binding in the application and by in-memory stores in tests.
pub trait KeyringStore {
    fn store(&self, account_id: &str, key: &str) -> Result<(), CoreError>;

    fn fetch(&self, account_id: &str) -> Result<String, CoreError>;

    fn remove(&self, account_id: &str) -> Result<(), CoreError>;
}

/// An entry of the platform credential store.
#[verifier::external_type_specification]
#[verifier::external_body]
pub struct ExKeyringEntry(keyring_core::Entry);

/// A failure of the platform credential store.
#[verifier::external_type_specification]
#[verifier::external_body]
pub struct ExKeyringFailure(keyring_core::Error);

/// A failure of the platform credential store, as the library sees it: the
/// missing-entry variant of `keyring_core::Error`, or any other variant,
/// each with the error's display text.
#[derive(Debug, Clone, PartialEq, Eq)]
pub enum KeyringFailure {
    NoEntry(String),
    Other(String),
}

/// The display text a failure carries.
pub open spec fn failure_message(f: KeyringFailure) -> Seq<char> {
    match f {
        KeyringFailure::NoEntry(t) => t@,
        KeyringFailure::Other(t) => t@,
    }
}

/// Converts a `keyring_core::Error`: `Error::NoEntry` becomes `NoEntry`, every
/// other variant `Other`, each with the text of the error's `Display`. The
/// error is opaque here, so no clause states which variant comes out.
#[verifier::external_body]
fn failure_of(e: keyring_core::Error) -> KeyringFailure {
    match &e {
        keyring_core::Error::NoEntry => KeyringFailure::NoEntry(e.to_string()),
        _ => KeyringFailure::Other(e.to_string()),
    }
}

/// Calls `keyring_core::Entry::new` on the default credential store. What
/// it answers depends on which store the process registered, so nothing is
/// stated of it.
#[verifier::external_body]
fn open_entry(service: &str, user: &str) -> Result<keyring_core::Entry, KeyringFailure> {
    keyring_core::Entry::new(service, user).map_err(failure_of)
}

/// Calls `keyring_core::Entry::set_password`; the outcome depends on the
/// platform store.
#[verifier::external_body]
fn set_password(entry: &keyring_core::Entry, password: &str) -> Result<(), KeyringFailure> {
    entry.set_password(password).map_err(failure_of)
}

/// Calls `keyring_core::Entry::get_password`; what it reads depends on the
/// platform store.
#[verifier::external_body]
fn get_password(entry: &keyring_core::Entry) -> Result<String, KeyringFailure> {
    entry.get_password().map_err(failure_of)
}

/// Calls `keyring_core::Entry::delete_credential`; the outcome depends on
/// the platform store.
#[verifier::external_body]
fn delete_credential(entry: &keyring_core::Entry) -> Result<(), KeyringFailure> {
    entry.delete_credential().map_err(failure_of)
}

/// A failure of the store as a library error: a keyring error with the
/// failure's text.
pub fn failure_error(f: KeyringFailure) -> (e: CoreError)
    ensures
        e matches CoreError::Keyring(m) && m@ == failure_message(f),
{
    match f {
        KeyringFailure::NoEntry(t) => CoreError::Keyring(t),
        KeyringFailure::Other(t) => CoreError::Keyring(t),
    }
}

/// The answer of a store call as a library result: the value on success,
/// the failure as a keyring error otherwise.
pub fn keyring_result<T>(answer: Result<T, KeyringFailure>) -> (r: Result<T, CoreError>)
    ensures
        answer matches Ok(v) ==> r == Ok::<T, CoreError>(v),
        answer matches Err(f) ==> r matches Err(CoreError::Keyring(m)) && m@ == failure_message(f),
{
    match answer {
        Ok(v) => Ok(v),
        Err(f) => Err(failure_error(f)),
    }
}

/// What a removal answers once the store answered the delete (`None` for
/// success): a missing entry counts as removed, any other failure is a
/// keyring error with its text.
pub fn removal_outcome(f: Option<KeyringFailure>) -> (r: Result<(), CoreError>)
    ensures
        f is None ==> r is Ok,
        f matches Some(KeyringFailure::NoEntry(_)) ==> r is Ok,
        f matches Some(KeyringFailure::Other(t)) ==> r matches Err(CoreError::Keyring(m)) && m@ == t@,
{
    match f {
        None => Ok(()),
        Some(KeyringFailure::NoEntry(_)) => Ok(()),
        Some(KeyringFailure::Other(t)) => Err(CoreError::Keyring(t)),
    }
}

/// The production store: the platform credential store the process
/// registered, with one entry per account under `SERVICE` and the user
/// `api_account:{account_id}`.
pub struct SystemKeyring;

impl SystemKeyring {
    /// The account's entry under `SERVICE` and `user_id(account_id)`.
    fn entry(account_id: &str) -> (r: Result<keyring_core::Entry, CoreError>)
        ensures
            r matches Err(e) ==> e is Keyring,
    {
        keyring_result(open_entry(SERVICE, user_id(account_id).as_str()))
    }
}

impl KeyringStore for SystemKeyring {
    /// Writes the secret to the account's entry. Whether that succeeds is the
    /// platform store's answer; every failure is reported as a keyring error
    /// (see `keyring_result`).
    fn store(&self, account_id: &str, key: &str) -> (r: Result<(), CoreError>)
        ensures
            r matches Err(e) ==> e is Keyring,
    {
        let entry = match Self::entry(account_id) {
            Ok(e) => e,
            Err(e) => return Err(e),
        };
        keyring_result(set_password(&entry, key))
    }

    /// Reads the account's secret. What is read, and whether the read
    /// succeeds, is the platform store's answer; every failure is reported as
    /// a keyring error (see `keyring_result`).
    fn fetch(&self, account_id: &str) -> (r: Result<String, CoreError>)
        ensures
            r matches Err(e) ==> e is Keyring,
    {
        let entry = match Self::entry(account_id) {
            Ok(e) => e,
            Err(e) => return Err(e),
        };
        keyring_result(get_password(&entry))
    }

    /// Deletes the account's entry and answers as `removal_outcome` says: a
    /// missing entry counts as removed, other failures are keyring errors.
    fn remove(&self, account_id: &str) -> (r: Result<(), CoreError>)
        ensures
            r matches Err(e) ==> e is Keyring,
    {
        let entry = match Self::entry(account_id) {
            Ok(e) => e,
            Err(e) => return Err(e),
        };
        match delete_credential(&entry) {
            Ok(()) => removal_outcome(None),
            Err(f) => removal_outcome(Some(f)),
        }
    }
}

/// The lower-case form of a text, as `str::to_lowercase` gives it.
pub uninterp spec fn lowercase_of(s: Seq<char>) -> Seq<char>;

/// Calls `str::to_lowercase`; the result is a function of the text alone.
#[verifier::external_body]
fn to_lowercase(s: &str) -> (r: String)
    ensures
        r@ == lowercase_of(s@),
{
    s.to_lowercase()
}

/// Whether an error means "there is no such entry", as opposed to a
/// transient or authorisation failure worth retrying.
pub open spec fn not_found_error(e: CoreError) -> bool {
    e matches CoreError::Keyring(msg) && {
        let lower = lowercase_of(msg@);
        contains(lower, "no entry"@) || contains(lower, "not found"@)
    }
}

/// Tells a missing-entry error from other keyring failures.
pub fn is_keyring_not_found(err: &CoreError) -> (b: bool)
    ensures
        b == not_found_error(*err),
{
    match err {
        CoreError::Keyring(msg) => {
            let lower = chars_of(to_lowercase(msg.as_str()).as_str());
            let p1 = chars_of("no entry");
            let p2 = chars_of("not found");
            contains_exec(lower.as_slice(), p1.as_slice()) || contains_exec(lower.as_slice(), p2.as_slice())
        },
        _ => false,
    }
}

/// What the cache knows of one account.
pub enum CacheEntry {
    /// The secret exists and is this value.
    Present(String),
    /// The entry is known to be absent.
    Absent,
}

/// The model of the cache: for each cached account, `Some(secret)` when
/// the secret is known and `None` when the entry is known to be absent.
pub type CacheModel = Map<Seq<char>, Option<Seq<char>>>;

pub open spec fn entry_model(e: CacheEntry) -> Option<Seq<char>> {
    match e {
        CacheEntry::Present(s) => Some(s@),
        CacheEntry::Absent => None,
    }
}

/// The error a cached absence answers with: `not found: {account_id}`.
pub open spec fn absent_message(account_id: Seq<char>) -> Seq<char> {
    "not found: "@ + account_id
}

/// What a fetch answers from the cache alone: `Some(Ok(secret))`,
/// `Some(Err(message))` for a known absence, `None` when the account is not
/// cached and the store must be asked.
pub open spec fn cached_fetch(m: CacheModel, id: Seq<char>) -> Option<Result<Seq<char>, Seq<char>>> {
    if m.contains_key(id) {
        match m[id] {
            Some(v) => Some(Ok(v)),
            None => Some(Err(absent_message(id))),
        }
    } else {
        None
    }
}

/// The cache after the store answered a fetch of `id` with `r`: a secret is
/// remembered, a missing entry is remembered as absent, any other failure
/// is forgotten so that it can be retried.
pub open spec fn after_fetch(m: CacheModel, id: Seq<char>, r: Result<String, CoreError>) -> CacheModel {
    match r {
        Ok(v) => m.insert(id, Some(v@)),
        Err(e) => if not_found_error(e) { m.insert(id, None) } else { m },
    }
}

/// A session-level caching wrapper around a `KeyringStore`.
pub struct CachedKeyringStore<S: KeyringStore> {
    inner: S,
    cache: Vec<(String, CacheEntry)>,
    /// How many calls reached the wrapped store.
    asked: Ghost<nat>,
}

impl<S: KeyringStore> CachedKeyringStore<S> {
    /// Every account appears at most once in the cache.
    pub closed spec fn wf(&self) -> bool {
        forall|i: int, j: int|
            0 <= i < j < self.cache@.len() ==> #[trigger] self.cache@[i].0@ != #[trigger] self.cache@[j].0@
    }

    /// What the cache knows, account by account.
    pub closed spec fn model(&self) -> CacheModel {
        Map::new(
            |k: Seq<char>| exists|i: int| 0 <= i < self.cache@.len() && #[trigger] self.cache@[i].0@ == k,
            |k: Seq<char>| {
                let i = choose|i: int| 0 <= i < self.cache@.len() && #[trigger] self.cache@[i].0@ == k;
                entry_model(self.cache@[i].1)
            },
        )
    }

    /// The wrapped store.
    pub closed spec fn inner_store(&self) -> S {
        self.inner
    }

    /// How many calls have reached the wrapped store since the cache was made.
    pub closed spec fn store_calls(&self) -> nat {
        self.asked@
    }

    /// Wraps a store with an empty cache.
    pub fn new(inner: S) -> (c: Self)
        ensures
            c.wf(),
            c.model() == Map::<Seq<char>, Option<Seq<char>>>::empty(),
            c.inner_store() == inner,
            c.store_calls() == 0,
    {
        let c = CachedKeyringStore { inner, cache: Vec::new(), asked: Ghost(0) };
        assert(c.model() =~= Map::<Seq<char>, Option<Seq<char>>>::empty());
        c
    }

    /// The position of `id` in the cache.
    fn position(&self, id: &str) -> (r: Option<usize>)
        requires
            self.wf(),
        ensures
            r matches Some(i) ==> i < self.cache@.len() && self.cache@[i as int].0@ == id@,
            r is None ==> !self.model().contains_key(id@),
            r matches Some(i) ==> self.model().contains_key(id@) && self.model()[id@] == entry_model(
                self.cache@[i as int].1,
            ),
    {
        let mut i: usize = 0;
        while i < self.cache.len()
            invariant
                self.wf(),
                i <= self.cache@.len(),
                forall|k: int| 0 <= k < i ==> self.cache@[k].0@ != id@,
            decreases self.cache@.len() - i,
        {
            if str_eq(self.cache[i].0.as_str(), id) {
                proof {
                    let k = choose|k: int| 0 <= k < self.cache@.len() && #[trigger] self.cache@[k].0@ == id@;
                    assert(self.cache@[i as int].0@ == id@);
                    if k != i as int {
                        if k < i as int {
                            assert(self.cache@[k].0@ != self.cache@[i as int].0@);
                        } else {
                            assert(self.cache@[i as int].0@ != self.cache@[k].0@);
                        }
                    }
                }
                return Some(i);
            }
            i = i + 1;
        }
        None
    }

    /// Remembers `entry` for `id`, replacing what was known.
    fn remember(&mut self, id: &str, entry: CacheEntry)
        requires
            old(self).wf(),
        ensures
            final(self).wf(),
            final(self).model() == old(self).model().insert(id@, entry_model(entry)),
            final(self).inner_store() == old(self).inner_store(),
            final(self).store_calls() == old(self).store_calls(),
    {
        let ghost e = entry_model(entry);
        match self.position(id) {
            Some(i) => {
                let ghost before = self.cache@;
                self.cache.set(i, (id.to_owned(), entry));
                proof {
                    assert forall|a: int, b: int|
                        0 <= a < b < self.cache@.len() implies #[trigger] self.cache@[a].0@
                        != #[trigger] self.cache@[b].0@ by {
                        assert(before[a].0@ != before[b].0@);
                    }
                    assert forall|k: Seq<char>| #[trigger] self.model().contains_key(k)
                        == old(self).model().insert(id@, e).contains_key(k) by {
                        if k != id@ {
                            if self.model().contains_key(k) {
                                let j = choose|j: int| 0 <= j < self.cache@.len() && #[trigger] self.cache@[j].0@ == k;
                                assert(before[j].0@ == k);
                            }
                            if old(self).model().contains_key(k) {
                                let j = choose|j: int| 0 <= j < before.len() && #[trigger] before[j].0@ == k;
                                assert(self.cache@[j].0@ == k);
                            }
                        } else {
                            assert(self.cache@[i as int].0@ == id@);
                        }
                    }
                    assert forall|k: Seq<char>| #[trigger] self.model().contains_key(k) implies self.model()[k]
                        == old(self).model().insert(id@, e)[k] by {
                        let j = choose|j: int| 0 <= j < self.cache@.len() && #[trigger] self.cache@[j].0@ == k;
                        if k == id@ {
                            if j != i as int {
                                if j < i as int {
                                    assert(self.cache@[j].0@ != self.cache@[i as int].0@);
                                } else {
                                    assert(self.cache@[i as int].0@ != self.cache@[j].0@);
                                }
                            }
                        } else {
                            assert(before[j].0@ == k);
                            let j2 = choose|j2: int| 0 <= j2 < before.len() && #[trigger] before[j2].0@ == k;
                            if j2 != j {
                                if j2 < j {
                                    assert(before[j2].0@ != before[j].0@);
                                } else {
                                    assert(before[j].0@ != before[j2].0@);
                                }
                            }
                        }
                    }
                    assert(self.model() =~= old(self).model().insert(id@, e));
                }
            },
            None => {
                let ghost before = self.cache@;
                self.cache.push((id.to_owned(), entry));
                proof {
                    let n = before.len() as int;
                    assert(self.cache@[n].0@ == id@);
                    assert forall|a: int, b: int|
                        0 <= a < b < self.cache@.len() implies #[trigger] self.cache@[a].0@
                        != #[trigger] self.cache@[b].0@ by {
                        if b < n {
                            assert(before[a].0@ != before[b].0@);
                        } else {
                            assert(!old(self).model().contains_key(id@));
                            if before[a].0@ == id@ {
                                assert(old(self).model().contains_key(id@));
                            }
                        }
                    }
                    assert forall|k: Seq<char>| #[trigger] self.model().contains_key(k)
                        == old(self).model().insert(id@, e).contains_key(k) by {
                        if self.model().contains_key(k) && k != id@ {
                            let j = choose|j: int| 0 <= j < self.cache@.len() && #[trigger] self.cache@[j].0@ == k;
                            assert(j < n);
                            assert(before[j].0@ == k);
                        }
                        if old(self).model().contains_key(k) {
                            let j = choose|j: int| 0 <= j < before.len() && #[trigger] before[j].0@ == k;
                            assert(self.cache@[j].0@ == k);
                        }
                    }
                    assert forall|k: Seq<char>| #[trigger] self.model().contains_key(k) implies self.model()[k]
                        == old(self).model().insert(id@, e)[k] by {
                        let j = choose|j: int| 0 <= j < self.cache@.len() && #[trigger] self.cache@[j].0@ == k;
                        if k == id@ {
                            if j != n {
                                assert(before[j].0@ == id@);
                                assert(old(self).model().contains_key(id@));
                            }
                        } else {
                            assert(j < n);
                            assert(before[j].0@ == k);
                            let j2 = choose|j2: int| 0 <= j2 < before.len() && #[trigger] before[j2].0@ == k;
                            if j2 != j {
                                if j2 < j {
                                    assert(before[j2].0@ != before[j].0@);
                                } else {
                                    assert(before[j].0@ != before[j2].0@);
                                }
                            }
                        }
                    }
                    assert(self.model() =~= old(self).model().insert(id@, e));
                }
            },
        }
    }

    /// Forgets what the cache knows of one account, so that the next access
    /// asks the store again.
    pub fn invalidate(&mut self, account_id: &str)
        requires
            old(self).wf(),
        ensures
            final(self).wf(),
            final(self).model() == old(self).model().remove(account_id@),
            final(self).inner_store() == old(self).inner_store(),
            final(self).store_calls() == old(self).store_calls(),
    {
        match self.position(account_id) {
            None => {
                assert(self.model() =~= old(self).model().remove(account_id@));
            },
            Some(i) => {
                let ghost before = self.cache@;
                let _ = self.cache.remove(i);
                proof {
                    assert forall|a: int, b: int|
                        0 <= a < b < self.cache@.len() implies #[trigger] self.cache@[a].0@
                        != #[trigger] self.cache@[b].0@ by {
                        let a0 = if a < i as int { a } else { a + 1 };
                        let b0 = if b < i as int { b } else { b + 1 };
                        assert(self.cache@[a] == before[a0]);
                        assert(self.cache@[b] == before[b0]);
                        assert(before[a0].0@ != before[b0].0@);
                    }
                    assert forall|k: Seq<char>| #[trigger] self.model().contains_key(k)
                        == old(self).model().remove(account_id@).contains_key(k) by {
                        if self.model().contains_key(k) {
                            let j = choose|j: int| 0 <= j < self.cache@.len() && #[trigger] self.cache@[j].0@ == k;
                            let j0 = if j < i as int { j } else { j + 1 };
                            assert(self.cache@[j] == before[j0]);
                            assert(before[j0].0@ == k);
                            if k == account_id@ {
                                assert(before[i as int].0@ == account_id@);
                                if j0 < i as int {
                                    assert(before[j0].0@ != before[i as int].0@);
                                } else {
                                    assert(before[i as int].0@ != before[j0].0@);
                                }
                            }
                        }
                        if old(self).model().contains_key(k) && k != account_id@ {
                            let j = choose|j: int| 0 <= j < before.len() && #[trigger] before[j].0@ == k;
                            assert(j != i as int);
                            let j1 = if j < i as int { j } else { j - 1 };
                            assert(self.cache@[j1] == before[j]);
                            assert(self.cache@[j1].0@ == k);
                        }
                    }
                    assert forall|k: Seq<char>| #[trigger] self.model().contains_key(k) implies self.model()[k]
                        == old(self).model().remove(account_id@)[k] by {
                        let j = choose|j: int| 0 <= j < self.cache@.len() && #[trigger] self.cache@[j].0@ == k;
                        let j0 = if j < i as int { j } else { j + 1 };
                        assert(self.cache@[j] == before[j0]);
                        let j2 = choose|j2: int| 0 <= j2 < before.len() && #[trigger] before[j2].0@ == k;
                        if j2 != j0 {
                            if j2 < j0 {
                                assert(before[j2].0@ != before[j0].0@);
                            } else {
                                assert(before[j0].0@ != before[j2].0@);
                            }
                        }
                    }
                    assert(self.model() =~= old(self).model().remove(account_id@));
                }
            },
        }
    }

    /// Forgets everything; every later access asks the store again.
    pub fn clear_cache(&mut self)
        requires
            old(self).wf(),
        ensures
            final(self).wf(),
            final(self).model() == Map::<Seq<char>, Option<Seq<char>>>::empty(),
            final(self).inner_store() == old(self).inner_store(),
            final(self).store_calls() == old(self).store_calls(),
    {
        self.cache.clear();
        assert(self.model() =~= Map::<Seq<char>, Option<Seq<char>>>::empty());
    }

    fn absent_error(account_id: &str) -> (e: CoreError)
        ensures
            e matches CoreError::Keyring(m) && m@ == absent_message(account_id@),
    {
        let mut m = String::new();
        push_str(&mut m, "not found: ");
        push_str(&mut m, account_id);
        CoreError::Keyring(m)
    }

    /// What the cache alone answers for an account: `Some` of the cached
    /// secret, `Some` of the `not found: {id}` error for a known absence, and
    /// `None` when the store must be asked.
    pub fn lookup(&self, account_id: &str) -> (r: Option<Result<String, CoreError>>)
        requires
            self.wf(),
        ensures
            match cached_fetch(self.model(), account_id@) {
                Some(Ok(v)) => r matches Some(Ok(s)) && s@ == v,
                Some(Err(m)) => r matches Some(Err(CoreError::Keyring(msg))) && msg@ == m,
                None => r is None,
            },
    {
        match self.position(account_id) {
            Some(i) => match &self.cache[i].1 {
                CacheEntry::Present(v) => Some(Ok(v.clone())),
                CacheEntry::Absent => Some(Err(Self::absent_error(account_id))),
            },
            None => None,
        }
    }

    /// Takes the store's answer to a fetch of an account the cache did not
    /// know, remembers it as `after_fetch` says, and hands it back unchanged.
    pub fn record_fetch(&mut self, account_id: &str, answer: Result<String, CoreError>) -> (r: Result<
        String,
        CoreError,
    >)
        requires
            old(self).wf(),
        ensures
            final(self).wf(),
            final(self).inner_store() == old(self).inner_store(),
            final(self).store_calls() == old(self).store_calls(),
            r == answer,
            final(self).model() == after_fetch(old(self).model(), account_id@, answer),
    {
        match answer {
            Ok(v) => {
                self.remember(account_id, CacheEntry::Present(v.clone()));
                Ok(v)
            },
            Err(e) => {
                if is_keyring_not_found(&e) {
                    self.remember(account_id, CacheEntry::Absent);
                }
                Err(e)
            },
        }
    }

    /// The secret of an account: from the cache when it is known there,
    /// otherwise the store's answer, which `record_fetch` remembers (a
    /// secret, or a missing entry; other failures are not remembered).
    pub fn fetch(&mut self, account_id: &str) -> (r: Result<String, CoreError>)
        requires
            old(self).wf(),
        ensures
            final(self).wf(),
            final(self).inner_store() == old(self).inner_store(),
            final(self).store_calls() == old(self).store_calls() + (if cached_fetch(old(self).model(), account_id@)
                is Some { 0int } else { 1int }),
            cached_fetch(old(self).model(), account_id@) matches Some(c) ==> {
                &&& final(self).model() == old(self).model()
                &&& match c {
                    Ok(v) => r matches Ok(s) && s@ == v,
                    Err(m) => r matches Err(CoreError::Keyring(msg)) && msg@ == m,
                }
            },
            cached_fetch(old(self).model(), account_id@) is None ==> final(self).model() == after_fetch(
                old(self).model(),
                account_id@,
                r,
            ),
    {
        match self.lookup(account_id) {
            Some(r) => r,
            None => {
                let answer = self.inner.fetch(account_id);
                self.asked = Ghost(self.asked@ + 1);
                self.record_fetch(account_id, answer)
            },
        }
    }

    /// Takes the store's answer to storing `secret` for an account: on
    /// success the secret is remembered, on failure the cache stays as it
    /// was; the answer is handed back unchanged.
    pub fn record_store(&mut self, account_id: &str, secret: &str, answer: Result<(), CoreError>) -> (r: Result<
        (),
        CoreError,
    >)
        requires
            old(self).wf(),
        ensures
            final(self).wf(),
            final(self).inner_store() == old(self).inner_store(),
            final(self).store_calls() == old(self).store_calls(),
            r == answer,
            answer is Ok ==> final(self).model() == old(self).model().insert(account_id@, Some(secret@)),
            answer is Err ==> final(self).model() == old(self).model(),
    {
        if answer.is_ok() {
            self.remember(account_id, CacheEntry::Present(secret.to_owned()));
        }
        answer
    }

    /// Stores a secret in the store and hands its answer to `record_store`.
    /// Whether it succeeds is the wrapped store's answer.
    pub fn store(&mut self, account_id: &str, secret: &str) -> (r: Result<(), CoreError>)
        requires
            old(self).wf(),
        ensures
            final(self).wf(),
            final(self).inner_store() == old(self).inner_store(),
            final(self).store_calls() == old(self).store_calls() + 1,
            r is Ok ==> final(self).model() == old(self).model().insert(account_id@, Some(secret@)),
            r is Err ==> final(self).model() == old(self).model(),
    {
        let answer = self.inner.store(account_id, secret);
        self.asked = Ghost(self.asked@ + 1);
        self.record_store(account_id, secret, answer)
    }

    /// Takes the store's answer to removing an account's entry: success, or
    /// a missing entry, counts as removed and an absence is remembered; any
    /// other failure is handed back with the cache unchanged.
    pub fn record_remove(&mut self, account_id: &str, answer: Result<(), CoreError>) -> (r: Result<
        (),
        CoreError,
    >)
        requires
            old(self).wf(),
        ensures
            final(self).wf(),
            final(self).inner_store() == old(self).inner_store(),
            final(self).store_calls() == old(self).store_calls(),
            removal_counts(answer) ==> r is Ok && final(self).model() == old(self).model().insert(
                account_id@,
                None,
            ),
            !removal_counts(answer) ==> r == answer && final(self).model() == old(self).model(),
    {
        match answer {
            Ok(()) => {
                self.remember(account_id, CacheEntry::Absent);
                Ok(())
            },
            Err(e) => {
                if is_keyring_not_found(&e) {
                    self.remember(account_id, CacheEntry::Absent);
                    Ok(())
                } else {
                    Err(e)
                }
            },
        }
    }

    /// Removes an account's entry. A known absence skips the store; otherwise
    /// the store's answer goes to `record_remove`.
    pub fn remove(&mut self, account_id: &str) -> (r: Result<(), CoreError>)
        requires
            old(self).wf(),
        ensures
            final(self).wf(),
            final(self).inner_store() == old(self).inner_store(),
            final(self).store_calls() == old(self).store_calls() + (if cached_fetch(old(self).model(), account_id@)
                matches Some(Err(_)) { 0int } else { 1int }),
            cached_fetch(old(self).model(), account_id@) matches Some(Err(_)) ==> r is Ok && final(self).model()
                == old(self).model(),
            r is Ok ==> final(self).model() == old(self).model().insert(account_id@, None),
            r matches Err(e) ==> final(self).model() == old(self).model() && !not_found_error(e),
    {
        match self.position(account_id) {
            Some(i) => {
                if let CacheEntry::Absent = &self.cache[i].1 {
                    proof {
                        assert(old(self).model().insert(account_id@, None) =~= old(self).model());
                    }
                    return Ok(());
                }
            },
            None => {},
        }
        let answer = self.inner.remove(account_id);
        self.asked = Ghost(self.asked@ + 1);
        self.record_remove(account_id, answer)
    }
}

/// Whether the store's answer to a removal counts as removed: success, or
/// a missing entry.
pub open spec fn removal_counts(answer: Result<(), CoreError>) -> bool {
    match answer {
        Ok(()) => true,
        Err(e) => not_found_error(e),
    }
}

/// A secret that was just stored is what the next fetch of that account
/// answers, from the cache; by `fetch`'s contract that fetch makes no call
/// to the store.
pub proof fn law_store_then_fetch(m: CacheModel, id: Seq<char>, secret: Seq<char>)
    ensures
        cached_fetch(m.insert(id, Some(secret)), id) == Some(Ok::<Seq<char>, Seq<char>>(secret)),
{
}

/// After an entry was removed (or found missing), the next fetch of that
/// account fails with the cached absence without calling the store, and a
/// second removal succeeds without the store.
pub proof fn law_remove_then_fetch(m: CacheModel, id: Seq<char>)
    ensures
        cached_fetch(m.insert(id, None), id) == Some(Err::<Seq<char>, Seq<char>>(absent_message(id))),
{
}

/// Recording one account leaves what the cache answers for every other
/// account unchanged.
pub proof fn law_other_accounts_untouched(m: CacheModel, id: Seq<char>, v: Option<Seq<char>>, other: Seq<char>)
    requires
        other != id,
    ensures
        cached_fetch(m.insert(id, v), other) == cached_fetch(m, other),
        cached_fetch(m.remove(id), other) == cached_fetch(m, other),
{
}

/// After an account is invalidated, or the whole cache cleared, the next
/// fetch of it asks the store again, and answers what the store answered
/// (see `fetch` and `record_fetch`).
pub proof fn law_forget_then_fetch(m: CacheModel, id: Seq<char>)
    ensures
        cached_fetch(m.remove(id), id) is None,
        cached_fetch(Map::<Seq<char>, Option<Seq<char>>>::empty(), id) is None,
{
}

} // verus!
