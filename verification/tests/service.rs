use std::cell::RefCell;
use std::collections::HashMap;

use mango_core::account::keyring::{oss_secret_storage_id, KeyringStore};
use mango_core::account::service::{
    check_stored_key, combined_secret_json, credentials_extra_json, last4, merged_secrets, secrets_after_fetch,
    validate_account_update, validate_new_account, validate_oss, OssConfigInput,
};

#[derive(Default)]
struct MemoryKeyring {
    inner: RefCell<HashMap<String, String>>,
}

impl KeyringStore for MemoryKeyring {
    fn store(&self, id: &str, key: &str) -> Result<(), CoreError> {
        self.inner.borrow_mut().insert(id.to_string(), key.to_string());
        Ok(())
    }

    fn fetch(&self, id: &str) -> Result<String, CoreError> {
        self.inner
            .borrow()
            .get(id)
            .cloned()
            .ok_or_else(|| CoreError::Keyring(format!("not found: {id}")))
    }

    fn remove(&self, id: &str) -> Result<(), CoreError> {
        self.inner.borrow_mut().remove(id);
        Ok(())
    }
}
use mango_core::error::CoreError;

fn sample_oss() -> OssConfigInput {
    OssConfigInput {
        endpoint: "oss-cn-hangzhou.aliyuncs.com".into(),
        bucket: "mango-test".into(),
        access_key_id: "LTAI5tFAKE".into(),
        access_key_secret: "secret-zzzz".into(),
        region: Some("cn-hangzhou".into()),
        url_expires_seconds: 3600,
    }
}

fn validation_message(r: Result<(), CoreError>) -> String {
    match r {
        Err(CoreError::Validation(m)) => m,
        other => panic!("expected a validation error, got {other:?}"),
    }
}

#[test]
fn last4_handles_short_and_unicode() {
    assert_eq!(last4("abc"), "abc");
    assert_eq!(last4("abcd"), "abcd");
    assert_eq!(last4("abcdef"), "cdef");
    assert_eq!(last4("一二三四五"), "二三四五");
}

#[test]
fn create_rejects_empty_key() {
    let r = validate_new_account("", "x", None);
    assert!(matches!(r, Err(CoreError::Validation(_))));
}

#[test]
fn create_rejects_blank_label() {
    let r = validate_new_account("k", "   ", None);
    assert!(matches!(r, Err(CoreError::Validation(_))));
}

#[test]
fn create_rejects_bad_oss_endpoint() {
    let mut bad = sample_oss();
    bad.endpoint = "https://example.com".into();
    let r = validate_new_account("k", "x", Some(&bad));
    assert!(matches!(r, Err(CoreError::Validation(_))));
}

#[test]
fn valid_new_account_passes() {
    assert!(validate_new_account("k", "x", None).is_ok());
    assert!(validate_new_account("k", "x", Some(&sample_oss())).is_ok());
}

#[test]
fn oss_checks_report_the_first_problem() {
    let mut o = sample_oss();
    o.endpoint = String::new();
    assert_eq!(validation_message(validate_oss(&o)), "oss.endpoint required");
    let mut o = sample_oss();
    o.endpoint = "oss-cn-hangzhou.example.com".into();
    assert_eq!(
        validation_message(validate_oss(&o)),
        "oss.endpoint must look like 'oss-<region>.aliyuncs.com'"
    );
    let mut o = sample_oss();
    o.bucket = String::new();
    assert_eq!(validation_message(validate_oss(&o)), "oss.bucket required");
    let mut o = sample_oss();
    o.access_key_secret = String::new();
    assert_eq!(validation_message(validate_oss(&o)), "oss credentials required");
    let mut o = sample_oss();
    o.url_expires_seconds = 59;
    assert_eq!(
        validation_message(validate_oss(&o)),
        "oss.url_expires_seconds out of [60, 86400]"
    );
    let mut o = sample_oss();
    o.url_expires_seconds = 86400;
    assert!(validate_oss(&o).is_ok());
}

#[test]
fn update_checks_only_given_fields() {
    assert!(validate_account_update(None, None, None).is_ok());
    assert_eq!(
        validation_message(validate_account_update(Some(""), None, None)),
        "api_key cannot be empty"
    );
    assert_eq!(
        validation_message(validate_account_update(None, Some("  "), None)),
        "label cannot be empty"
    );
    assert!(validate_account_update(Some("k2"), Some("y"), Some(&sample_oss())).is_ok());
}

#[test]
fn verify_storage_fails_on_empty_key() {
    assert!(matches!(check_stored_key("", None), Err(CoreError::Validation(_))));
    assert!(matches!(check_stored_key("{\"api_key\":\"\"}", Some("")), Err(CoreError::Validation(_))));
    assert!(check_stored_key("{\"api_key\":\"k\"}", Some("k")).is_ok());
    assert!(check_stored_key("sk-legacy", None).is_ok());
}

#[test]
fn combined_payload_is_one_json_object() {
    assert_eq!(combined_secret_json("sk-1", None), "{\"api_key\":\"sk-1\"}");
    assert_eq!(
        combined_secret_json("sk-1", Some("se\"cret")),
        "{\"api_key\":\"sk-1\",\"oss_secret\":\"se\\\"cret\"}"
    );
    let v: serde_json::Value = serde_json::from_str(&combined_secret_json("k\u{4e00}", Some("s"))).unwrap();
    assert_eq!(v["api_key"], "k\u{4e00}");
    assert_eq!(v["oss_secret"], "s");
}

#[test]
fn update_keeps_the_half_it_does_not_touch() {
    assert_eq!(
        merged_secrets(Some("sk-rotated".into()), None, "sk-old".into(), Some("legacy-oss".into())),
        ("sk-rotated".to_string(), Some("legacy-oss".to_string()))
    );
    assert_eq!(
        merged_secrets(None, Some("new-oss".into()), "sk-old".into(), None),
        ("sk-old".to_string(), Some("new-oss".to_string()))
    );
}

#[test]
fn legacy_payload_pulls_the_separate_oss_entry_only_when_needed() {
    let k = MemoryKeyring::default();
    k.store(&oss_secret_storage_id("a1"), "legacy-oss").unwrap();
    let combined = secrets_after_fetch(&k, "a1", "{..}".into(), Some(("sk".into(), None)), true).unwrap();
    assert_eq!(combined, ("sk".to_string(), None));
    let legacy = secrets_after_fetch(&k, "a1", "sk-plain".into(), None, true).unwrap();
    assert_eq!(legacy, ("sk-plain".to_string(), Some("legacy-oss".to_string())));
    let no_oss = secrets_after_fetch(&k, "a1", "sk-plain".into(), None, false).unwrap();
    assert_eq!(no_oss, ("sk-plain".to_string(), None));
    assert!(secrets_after_fetch(&k, "b2", "sk-plain".into(), None, true).is_err());
}

#[test]
fn combined_payload_escapes_as_serde_json_does() {
    let key = "a\"b\\c\u{8}\t\n\u{c}\r\u{1}\u{1f}\u{7f}é/";
    let text = combined_secret_json(key, None);
    assert_eq!(text, format!("{{\"api_key\":{}}}", serde_json::to_string(key).unwrap()));
    assert_eq!(text, "{\"api_key\":\"a\\\"b\\\\c\\b\\t\\n\\f\\r\\u0001\\u001f\u{7f}é/\"}");
}

#[test]
fn extra_json_injects_the_oss_secret() {
    assert_eq!(credentials_extra_json("", None).unwrap(), None);
    assert_eq!(credentials_extra_json("{}", Some("s")).unwrap(), None);
    let params = r#"{"oss": {"endpoint": "oss-cn-hangzhou.aliyuncs.com", "bucket": "b", "access_key_id": "id"}}"#;
    let out = credentials_extra_json(params, Some("sec")).unwrap().unwrap();
    let v: serde_json::Value = serde_json::from_str(&out).unwrap();
    assert_eq!(v["oss"]["access_key_secret"], "sec");
    assert_eq!(v["oss"]["bucket"], "b");
    assert_eq!(
        out,
        r#"{"oss":{"access_key_id":"id","access_key_secret":"sec","bucket":"b","endpoint":"oss-cn-hangzhou.aliyuncs.com"}}"#
    );
    match credentials_extra_json(params, None) {
        Err(CoreError::Keyring(m)) => assert_eq!(m, "oss secret missing for account"),
        other => panic!("unexpected {other:?}"),
    }
    assert_eq!(credentials_extra_json(r#"{"model": "x"}"#, None).unwrap().unwrap(), r#"{"model":"x"}"#);
    match credentials_extra_json("{not json", Some("s")) {
        Err(CoreError::Validation(m)) => assert!(m.starts_with("api_account.params_json: ")),
        other => panic!("unexpected {other:?}"),
    }
}

#[test]
fn params_have_oss_only_with_an_oss_member() {
    assert!(!mango_core::account::service::params_has_oss(""));
    assert!(!mango_core::account::service::params_has_oss("{}"));
    assert!(!mango_core::account::service::params_has_oss("{bad"));
    assert!(!mango_core::account::service::params_has_oss(r#"{"model":"x"}"#));
    assert!(mango_core::account::service::params_has_oss(r#"{"oss":{"bucket":"b"}}"#));
}
