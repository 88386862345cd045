use std::cell::{Cell, RefCell};
use std::collections::HashMap;
use std::rc::Rc;

use mango_core::account::keyring::{
    failure_error, is_keyring_not_found, keyring_result, oss_secret_storage_id, removal_outcome, user_id,
    CachedKeyringStore, KeyringFailure, KeyringStore,
};
use mango_core::error::CoreError;

/// Process-local stand-in for the OS keyring.
#[derive(Default)]
struct InMemoryKeyring {
    inner: RefCell<HashMap<String, String>>,
}

impl KeyringStore for InMemoryKeyring {
    fn store(&self, id: &str, key: &str) -> Result<(), CoreError> {
        self.inner.borrow_mut().insert(id.to_string(), key.to_string());
        Ok(())
    }

    fn fetch(&self, id: &str) -> Result<String, CoreError> {
        self.inner
            .borrow()
            .get(id)
            .cloned()
            .ok_or_else(|| CoreError::Keyring(format!("not found: {id}")))
    }

    fn remove(&self, id: &str) -> Result<(), CoreError> {
        self.inner.borrow_mut().remove(id);
        Ok(())
    }
}

/// Shared-state mock: the test can change the store behind the cache and
/// count the calls that reach it.
#[derive(Clone, Default)]
struct SharedMockKeyring {
    data: Rc<RefCell<HashMap<String, String>>>,
    fetch_calls: Rc<Cell<usize>>,
    store_calls: Rc<Cell<usize>>,
    remove_calls: Rc<Cell<usize>>,
}

impl SharedMockKeyring {
    fn set_raw(&self, id: &str, key: &str) {
        self.data.borrow_mut().insert(id.to_string(), key.to_string());
    }

    fn remove_raw(&self, id: &str) {
        self.data.borrow_mut().remove(id);
    }
}

impl KeyringStore for SharedMockKeyring {
    fn store(&self, id: &str, key: &str) -> Result<(), CoreError> {
        self.store_calls.set(self.store_calls.get() + 1);
        self.data.borrow_mut().insert(id.to_string(), key.to_string());
        Ok(())
    }

    fn fetch(&self, id: &str) -> Result<String, CoreError> {
        self.fetch_calls.set(self.fetch_calls.get() + 1);
        self.data
            .borrow()
            .get(id)
            .cloned()
            .ok_or_else(|| CoreError::Keyring(format!("not found: {id}")))
    }

    fn remove(&self, id: &str) -> Result<(), CoreError> {
        self.remove_calls.set(self.remove_calls.get() + 1);
        self.data.borrow_mut().remove(id);
        Ok(())
    }
}

/// A store whose every call fails with a transient error.
struct FlakyKeyring {
    fetch_calls: Rc<Cell<usize>>,
}

impl KeyringStore for FlakyKeyring {
    fn store(&self, _id: &str, _key: &str) -> Result<(), CoreError> {
        Err(CoreError::Keyring("platform locked".to_string()))
    }

    fn fetch(&self, _id: &str) -> Result<String, CoreError> {
        self.fetch_calls.set(self.fetch_calls.get() + 1);
        Err(CoreError::Keyring("platform locked".to_string()))
    }

    fn remove(&self, _id: &str) -> Result<(), CoreError> {
        Err(CoreError::Keyring("platform locked".to_string()))
    }
}

#[test]
fn user_id_uses_account_prefix() {
    assert_eq!(user_id("abc"), "api_account:abc");
}

#[test]
fn oss_secret_storage_id_distinct_from_user_id() {
    assert_eq!(oss_secret_storage_id("abc"), "abc:oss_secret");
    assert_ne!(user_id("abc"), user_id(&oss_secret_storage_id("abc")));
}

#[test]
fn in_memory_roundtrip() {
    let k = InMemoryKeyring::default();
    k.store("a", "secret").unwrap();
    assert_eq!(k.fetch("a").unwrap(), "secret");
    k.remove("a").unwrap();
    assert!(matches!(k.fetch("a"), Err(CoreError::Keyring(_))));
}

#[test]
fn in_memory_remove_is_idempotent() {
    let k = InMemoryKeyring::default();
    k.remove("never-stored").unwrap();
}

#[test]
fn cached_fetch_hits_cache_and_skips_inner() {
    let mock = SharedMockKeyring::default();
    let mut cache = CachedKeyringStore::new(mock.clone());

    cache.store("acc1", "secret1").unwrap();
    assert_eq!(mock.store_calls.get(), 1);

    mock.remove_raw("acc1");

    let val = cache.fetch("acc1").unwrap();
    assert_eq!(val, "secret1");
    assert_eq!(mock.fetch_calls.get(), 0);
}

#[test]
fn cached_fetch_absent_skips_subsequent_inner_calls() {
    let mock = SharedMockKeyring::default();
    let mut cache = CachedKeyringStore::new(mock.clone());

    let err = cache.fetch("missing").unwrap_err();
    assert!(is_keyring_not_found(&err));
    assert_eq!(mock.fetch_calls.get(), 1);

    mock.set_raw("missing", "now-present");

    let err = cache.fetch("missing").unwrap_err();
    assert!(is_keyring_not_found(&err));
    assert_eq!(mock.fetch_calls.get(), 1);
}

#[test]
fn cached_store_then_fetch_returns_cached_value() {
    let mock = SharedMockKeyring::default();
    let mut cache = CachedKeyringStore::new(mock.clone());

    cache.store("acc1", "secret1").unwrap();
    let val = cache.fetch("acc1").unwrap();
    assert_eq!(val, "secret1");
    assert_eq!(mock.store_calls.get(), 1);
    assert_eq!(mock.fetch_calls.get(), 0);
}

#[test]
fn cached_remove_skips_inner_for_absent_entries() {
    let mock = SharedMockKeyring::default();
    let mut cache = CachedKeyringStore::new(mock.clone());

    let _ = cache.fetch("ghost").unwrap_err();
    assert_eq!(mock.fetch_calls.get(), 1);

    cache.remove("ghost").unwrap();
    assert_eq!(mock.remove_calls.get(), 0);
}

#[test]
fn cached_remove_existing_then_fetch_returns_not_found() {
    let mock = SharedMockKeyring::default();
    let mut cache = CachedKeyringStore::new(mock.clone());

    cache.store("acc1", "secret1").unwrap();
    cache.remove("acc1").unwrap();
    assert_eq!(mock.remove_calls.get(), 1);

    let err = cache.fetch("acc1").unwrap_err();
    assert!(is_keyring_not_found(&err));
    assert_eq!(mock.fetch_calls.get(), 0);
}

#[test]
fn cached_invalidate_clears_single_entry() {
    let mock = SharedMockKeyring::default();
    let mut cache = CachedKeyringStore::new(mock.clone());

    cache.store("acc1", "secret1").unwrap();

    cache.invalidate("acc1");
    mock.set_raw("acc1", "rotated");

    let val = cache.fetch("acc1").unwrap();
    assert_eq!(val, "rotated");
    assert_eq!(mock.fetch_calls.get(), 1);
}

#[test]
fn cached_clear_cache_drops_all_entries() {
    let mock = SharedMockKeyring::default();
    let mut cache = CachedKeyringStore::new(mock.clone());

    cache.store("acc1", "s1").unwrap();
    cache.store("acc2", "s2").unwrap();

    cache.clear_cache();

    assert_eq!(cache.fetch("acc1").unwrap(), "s1");
    assert_eq!(cache.fetch("acc2").unwrap(), "s2");
    assert_eq!(mock.fetch_calls.get(), 2);
}

#[test]
fn cached_absence_message_names_the_account() {
    let mock = SharedMockKeyring::default();
    let mut cache = CachedKeyringStore::new(mock.clone());
    let _ = cache.fetch("ghost").unwrap_err();
    match cache.fetch("ghost") {
        Err(CoreError::Keyring(m)) => assert_eq!(m, "not found: ghost"),
        other => panic!("unexpected: {other:?}"),
    }
}

#[test]
fn transient_failures_are_not_cached() {
    let calls = Rc::new(Cell::new(0));
    let mut cache = CachedKeyringStore::new(FlakyKeyring { fetch_calls: calls.clone() });
    assert!(cache.fetch("acc").is_err());
    assert!(cache.fetch("acc").is_err());
    assert_eq!(calls.get(), 2);
    assert!(cache.remove("acc").is_err());
    assert!(cache.store("acc", "s").is_err());
}

#[test]
fn not_found_detection_is_case_insensitive() {
    assert!(is_keyring_not_found(&CoreError::Keyring("No Entry for user".to_string())));
    assert!(is_keyring_not_found(&CoreError::Keyring("Secret NOT FOUND".to_string())));
    assert!(!is_keyring_not_found(&CoreError::Keyring("platform locked".to_string())));
    assert!(!is_keyring_not_found(&CoreError::Validation("not found".to_string())));
}

#[test]
fn other_accounts_untouched_by_invalidate() {
    let mock = SharedMockKeyring::default();
    let mut cache = CachedKeyringStore::new(mock.clone());
    cache.store("a", "1").unwrap();
    cache.store("b", "2").unwrap();
    cache.invalidate("a");
    assert_eq!(cache.fetch("b").unwrap(), "2");
    assert_eq!(mock.fetch_calls.get(), 0);
}

#[test]
fn removal_outcome_counts_missing_entry_as_removed() {
    assert!(removal_outcome(None).is_ok());
    assert!(removal_outcome(Some(KeyringFailure::NoEntry("No matching credential found".into()))).is_ok());
    match removal_outcome(Some(KeyringFailure::Other("locked".into()))) {
        Err(CoreError::Keyring(m)) => assert_eq!(m, "locked"),
        other => panic!("unexpected {other:?}"),
    }
}

#[test]
fn store_failures_become_keyring_errors_with_their_text() {
    match failure_error(KeyringFailure::NoEntry("No matching credential found".into())) {
        CoreError::Keyring(m) => assert_eq!(m, "No matching credential found"),
        other => panic!("unexpected {other:?}"),
    }
    assert_eq!(keyring_result::<u32>(Ok(7)).unwrap(), 7);
    match keyring_result::<String>(Err(KeyringFailure::Other("denied".into()))) {
        Err(CoreError::Keyring(m)) => assert_eq!(m, "denied"),
        other => panic!("unexpected {other:?}"),
    }
}

#[test]
fn recorded_fetch_answers_hand_back_the_store_answer() {
    let mut c = CachedKeyringStore::new(InMemoryKeyring::default());
    assert_eq!(c.record_fetch("a", Ok("s".into())).unwrap(), "s");
    assert_eq!(c.lookup("a").unwrap().unwrap(), "s");
    match c.record_fetch("b", Err(CoreError::Keyring("timeout".into()))) {
        Err(CoreError::Keyring(m)) => assert_eq!(m, "timeout"),
        other => panic!("unexpected {other:?}"),
    }
    assert!(c.lookup("b").is_none());
    assert!(c.record_fetch("d", Err(CoreError::Keyring("Not Found".into()))).is_err());
    assert!(matches!(c.lookup("d"), Some(Err(CoreError::Keyring(_)))));
}

#[test]
fn recorded_store_and_remove_answers() {
    let mut c = CachedKeyringStore::new(InMemoryKeyring::default());
    assert!(c.record_store("a", "s", Err(CoreError::Keyring("denied".into()))).is_err());
    assert!(c.lookup("a").is_none());
    assert!(c.record_store("a", "s", Ok(())).is_ok());
    assert_eq!(c.lookup("a").unwrap().unwrap(), "s");
    assert!(c.record_remove("a", Err(CoreError::Keyring("locked".into()))).is_err());
    assert_eq!(c.lookup("a").unwrap().unwrap(), "s");
    assert!(c.record_remove("a", Err(CoreError::Keyring("no entry".into()))).is_ok());
    assert!(matches!(c.lookup("a"), Some(Err(_))));
}
