//! The checks an account goes through before anything is written, and the
//! masked form of its key.

use vstd::prelude::*;

use crate::account::keyring::{oss_secret_storage_id, KeyringStore};
use crate::error::{fails_validation, is_validation, validation, CoreError};
use crate::text::{chars_of, push_str, str_eq, ends_with, ends_with_exec, slice_chars, starts_with, starts_with_exec, string_from_chars, trim, trim_str};

verus! {

/// The object storage settings of an account.
#[derive(Debug, Clone)]
pub struct OssConfigInput {
    pub endpoint: String,
    pub bucket: String,
    pub access_key_id: String,
    pub access_key_secret: String,
    pub region: Option<String>,
    pub url_expires_seconds: i64,
}

/// The message of the first check an OSS configuration fails, if any.
pub open spec fn oss_problem(oss: OssConfigInput) -> Option<Seq<char>> {
    if oss.endpoint@.len() == 0 {
        Some("oss.endpoint required"@)
    } else if !starts_with(oss.endpoint@, "oss-"@) || !ends_with(oss.endpoint@, ".aliyuncs.com"@) {
        Some("oss.endpoint must look like 'oss-<region>.aliyuncs.com'"@)
    } else if oss.bucket@.len() == 0 {
        Some("oss.bucket required"@)
    } else if oss.access_key_id@.len() == 0 || oss.access_key_secret@.len() == 0 {
        Some("oss credentials required"@)
    } else if oss.url_expires_seconds < 60 || oss.url_expires_seconds > 86400 {
        Some("oss.url_expires_seconds out of [60, 86400]"@)
    } else {
        None
    }
}

/// Whether `r` answers a check whose first failure is `problem`.
pub open spec fn answers(r: Result<(), CoreError>, problem: Option<Seq<char>>) -> bool {
    match problem {
        None => r is Ok,
        Some(m) => is_validation(r, m),
    }
}

/// Rejects obviously invalid OSS settings; the endpoint must look like
/// `oss-<region>.aliyuncs.com`.
pub fn validate_oss(oss: &OssConfigInput) -> (r: Result<(), CoreError>)
    ensures
        answers(r, oss_problem(*oss)),
{
    let endpoint = chars_of(oss.endpoint.as_str());
    if endpoint.len() == 0 {
        return Err(validation("oss.endpoint required"));
    }
    let pre = chars_of("oss-");
    let suf = chars_of(".aliyuncs.com");
    if !starts_with_exec(endpoint.as_slice(), pre.as_slice()) || !ends_with_exec(endpoint.as_slice(), suf.as_slice()) {
        return Err(validation("oss.endpoint must look like 'oss-<region>.aliyuncs.com'"));
    }
    if oss.bucket.as_str().is_empty() {
        return Err(validation("oss.bucket required"));
    }
    if oss.access_key_id.as_str().is_empty() || oss.access_key_secret.as_str().is_empty() {
        return Err(validation("oss credentials required"));
    }
    if oss.url_expires_seconds < 60 || oss.url_expires_seconds > 86400 {
        return Err(validation("oss.url_expires_seconds out of [60, 86400]"));
    }
    Ok(())
}

/// The first problem of a new account's input: an empty key, a blank
/// label, then the OSS settings.
pub open spec fn new_account_problem(api_key: Seq<char>, label: Seq<char>, oss: Option<OssConfigInput>) -> Option<Seq<char>> {
    if api_key.len() == 0 {
        Some("api_key cannot be empty"@)
    } else if trim(label).len() == 0 {
        Some("label cannot be empty"@)
    } else {
        match oss {
            Some(o) => oss_problem(o),
            None => None,
        }
    }
}

/// The checks `create` makes before it touches the keyring or the database.
pub fn validate_new_account(api_key: &str, label: &str, oss: Option<&OssConfigInput>) -> (r: Result<(), CoreError>)
    ensures
        answers(r, new_account_problem(api_key@, label@, match oss {
            Some(o) => Some(*o),
            None => None,
        })),
{
    if api_key.is_empty() {
        return Err(validation("api_key cannot be empty"));
    }
    if trim_str(label).is_empty() {
        return Err(validation("label cannot be empty"));
    }
    match oss {
        Some(o) => validate_oss(o),
        None => Ok(()),
    }
}

/// The first problem of an account update: a new key that is empty, a new
/// label that is blank, then new OSS settings.
pub open spec fn update_problem(api_key: Option<Seq<char>>, label: Option<Seq<char>>, oss: Option<OssConfigInput>) -> Option<Seq<char>> {
    if api_key matches Some(k) && k.len() == 0 {
        Some("api_key cannot be empty"@)
    } else if label matches Some(l) && trim(l).len() == 0 {
        Some("label cannot be empty"@)
    } else {
        match oss {
            Some(o) => oss_problem(o),
            None => None,
        }
    }
}

/// The checks `update` makes before it applies anything.
pub fn validate_account_update(api_key: Option<&str>, label: Option<&str>, oss: Option<&OssConfigInput>) -> (r: Result<(), CoreError>)
    ensures
        answers(r, update_problem(
            match api_key { Some(k) => Some(k@), None => None },
            match label { Some(l) => Some(l@), None => None },
            match oss { Some(o) => Some(*o), None => None },
        )),
{
    if let Some(k) = api_key {
        if k.is_empty() {
            return Err(validation("api_key cannot be empty"));
        }
    }
    if let Some(l) = label {
        if trim_str(l).is_empty() {
            return Err(validation("label cannot be empty"));
        }
    }
    match oss {
        Some(o) => validate_oss(o),
        None => Ok(()),
    }
}

/// The last four characters of a secret (all of it when shorter).
pub open spec fn last4_of(s: Seq<char>) -> Seq<char> {
    if s.len() <= 4 { s } else { s.skip(s.len() - 4) }
}

/// The last four characters (not bytes) of a key, shown in listings.
pub fn last4(s: &str) -> (r: String)
    ensures
        r@ == last4_of(s@),
{
    let cs = chars_of(s);
    let n = cs.len();
    if n <= 4 {
        return string_from_chars(cs.as_slice());
    }
    let tail = slice_chars(cs.as_slice(), n - 4, n);
    assert(tail@ =~= s@.skip(n - 4));
    string_from_chars(tail.as_slice())
}

/// A lower-case hexadecimal digit.
pub open spec fn hex_lower(d: int) -> char {
    if d < 10 { ((d + 48) as u8) as char } else { ((d + 87) as u8) as char }
}

/// How serde_json writes one character inside a JSON string: `"` and `\`
/// and the control characters below 0x20 escaped (`\b \t \n \f \r` by
/// name, the others as `\u00XX` in lower-case hex), every other character
/// as it is.
pub open spec fn json_escape_char(c: char) -> Seq<char> {
    let v = c as u32;
    if c == '"' {
        seq!['\\', '"']
    } else if c == '\\' {
        seq!['\\', '\\']
    } else if v == 0x08 {
        seq!['\\', 'b']
    } else if v == 0x09 {
        seq!['\\', 't']
    } else if v == 0x0A {
        seq!['\\', 'n']
    } else if v == 0x0C {
        seq!['\\', 'f']
    } else if v == 0x0D {
        seq!['\\', 'r']
    } else if v < 0x20 {
        seq!['\\', 'u', '0', '0', hex_lower(v as int / 16), hex_lower(v as int % 16)]
    } else {
        seq![c]
    }
}

/// The escaped characters of a text.
pub open spec fn json_escaped(s: Seq<char>) -> Seq<char>
    decreases s.len(),
{
    if s.len() == 0 {
        seq![]
    } else {
        json_escaped(s.drop_last()) + json_escape_char(s.last())
    }
}

/// The JSON text serde_json writes for a string value: the escaped text
/// between double quotes.
pub open spec fn json_string_of(s: Seq<char>) -> Seq<char> {
    seq!['"'] + json_escaped(s) + seq!['"']
}

/// Calls `serde_json::to_string` on a string slice: the quoted, escaped
/// JSON string (see `json_escape_char`, after serde_json's `ESCAPE` table
/// and `write_char_escape`). Serialising a `str` into a `String` cannot
/// fail.
#[verifier::external_body]
pub(crate) fn json_quote(s: &str) -> (r: String)
    ensures
        r@ == json_string_of(s@),
{
    serde_json::to_string(s).unwrap_or_default()
}

/// The combined keyring payload of an account: one JSON object holding the
/// API key and, when the account has object storage, its secret, in the
/// field order `api_key`, `oss_secret` (an absent secret is left out).
pub open spec fn combined_secret_text(api_key: Seq<char>, oss_secret: Option<Seq<char>>) -> Seq<char> {
    "{\"api_key\":"@ + json_string_of(api_key) + match oss_secret {
        Some(s) => ",\"oss_secret\":"@ + json_string_of(s),
        None => seq![],
    } + seq!['}']
}

/// Writes the combined keyring payload (see `combined_secret_text`).
pub fn combined_secret_json(api_key: &str, oss_secret: Option<&str>) -> (r: String)
    ensures
        r@ == combined_secret_text(api_key@, match oss_secret { Some(s) => Some(s@), None => None }),
{
    let mut r = String::new();
    push_str(&mut r, "{\"api_key\":");
    push_str(&mut r, json_quote(api_key).as_str());
    if let Some(sec) = oss_secret {
        push_str(&mut r, ",\"oss_secret\":");
        push_str(&mut r, json_quote(sec).as_str());
    }
    crate::text::push_char(&mut r, '}');
    r
}

/// The secrets an update stores: the new key, or the stored one when none
/// is given; the new object-storage secret, or the stored one when the
/// update leaves object storage alone.
pub fn merged_secrets(
    new_api_key: Option<String>,
    new_oss_secret: Option<String>,
    stored_api_key: String,
    stored_oss_secret: Option<String>,
) -> (r: (String, Option<String>))
    ensures
        r.0@ == (match new_api_key { Some(k) => k@, None => stored_api_key@ }),
        crate::text::opt_string_view(r.1) == (match new_oss_secret {
            Some(s) => Some(s@),
            None => crate::text::opt_string_view(stored_oss_secret),
        }),
{
    let key = match new_api_key {
        Some(k) => k,
        None => stored_api_key,
    };
    let oss = match new_oss_secret {
        Some(s) => Some(s),
        None => stored_oss_secret,
    };
    (key, oss)
}

/// The secrets of an account once its primary entry `raw` has been read
/// and decoded (`decoded` is the combined payload when `raw` is one): a
/// combined payload answers at once; a legacy bare key is paired with the
/// separate object-storage entry, fetched only when the account `needs_oss`.
pub fn secrets_after_fetch<K: KeyringStore>(
    keyring: &K,
    account_id: &str,
    raw: String,
    decoded: Option<(String, Option<String>)>,
    needs_oss: bool,
) -> (r: Result<(String, Option<String>), CoreError>)
    ensures
        decoded matches Some(d) ==> (r matches Ok(v) && v.0@ == d.0@ && crate::text::opt_string_view(v.1)
            == crate::text::opt_string_view(d.1)),
        decoded is None && !needs_oss ==> (r matches Ok(v) && v.0@ == raw@ && v.1 is None),
        decoded is None && needs_oss ==> (r matches Ok(v) ==> v.0@ == raw@ && v.1 is Some),
{
    match decoded {
        Some(d) => Ok(d),
        None => {
            if needs_oss {
                match keyring.fetch(oss_secret_storage_id(account_id).as_str()) {
                    Ok(s) => Ok((raw, Some(s))),
                    Err(e) => Err(e),
                }
            } else {
                Ok((raw, None))
            }
        },
    }
}

/// The check `verify_storage` makes on a stored payload: the API key it
/// holds (the decoded combined payload's, or the bare legacy text) must
/// not be empty.
pub fn check_stored_key(raw: &str, decoded_api_key: Option<&str>) -> (r: Result<(), CoreError>)
    ensures
        r is Ok <==> (match decoded_api_key { Some(k) => k@.len() > 0, None => raw@.len() > 0 }),
        r is Err ==> is_validation(r, "stored api key is empty"@),
{
    let key = match decoded_api_key {
        Some(k) => k,
        None => raw,
    };
    if key.is_empty() {
        return Err(validation("stored api key is empty"));
    }
    Ok(())
}

/// What serde_json makes of `text` when, in the object under `outer` (if
/// the document has such a member and it is an object), the member `key` is
/// set to the string `value`: the error's text when `text` does not parse,
/// otherwise whether the document has a member `outer`, and the document
/// written back (compact, keys in order).
pub uninterp spec fn json_set_member_of(text: Seq<char>, outer: Seq<char>, key: Seq<char>, value: Seq<char>)
    -> Result<(bool, Seq<char>), Seq<char>>;

pub open spec fn set_member_view(r: Result<(bool, String), String>) -> Result<(bool, Seq<char>), Seq<char>> {
    match r {
        Ok((present, t)) => Ok((present, t@)),
        Err(m) => Err(m@),
    }
}

/// Calls `serde_json::from_str` into a `serde_json::Value`, and through
/// `get_mut(outer)` and `as_object_mut` inserts `key` with the string
/// `value`; then writes the value with its `Display`. The answer depends on
/// the four texts alone.
#[verifier::external_body]
fn json_set_member(text: &str, outer: &str, key: &str, value: &str) -> (r: Result<(bool, String), String>)
    ensures
        set_member_view(r) == json_set_member_of(text@, outer@, key@, value@),
{
    match serde_json::from_str::<serde_json::Value>(text) {
        Err(e) => Err(e.to_string()),
        Ok(mut v) => {
            let present = match v.get_mut(outer) {
                Some(inner) => {
                    if let Some(obj) = inner.as_object_mut() {
                        obj.insert(key.to_string(), serde_json::Value::String(value.to_string()));
                    }
                    true
                },
                None => false,
            };
            Ok((present, v.to_string()))
        },
    }
}

/// The `extra_json` handed to a provider with an account's credentials: none
/// for empty parameters (`""` or `{}`); otherwise the parameters written
/// back by serde_json with the object-storage secret set as
/// `oss.access_key_secret`. Parameters that are not JSON are a validation
/// error `api_account.params_json: {error}`; an `oss` block without a stored
/// secret is the keyring error `oss secret missing for account`.
pub fn credentials_extra_json(params_json: &str, oss_secret: Option<&str>) -> (r: Result<Option<String>, CoreError>)
    ensures
        params_json@ == ""@ || params_json@ == "{}"@ ==> r matches Ok(None),
        !(params_json@ == ""@ || params_json@ == "{}"@) ==> match json_set_member_of(
            params_json@,
            "oss"@,
            "access_key_secret"@,
            match oss_secret { Some(s) => s@, None => ""@ },
        ) {
            Err(m) => fails_validation(r, "api_account.params_json: "@ + m),
            Ok((present, t)) => if present && oss_secret is None {
                r matches Err(CoreError::Keyring(msg)) && msg@ == "oss secret missing for account"@
            } else {
                r matches Ok(Some(out)) && out@ == t
            },
        },
{
    if str_eq(params_json, "") || str_eq(params_json, "{}") {
        return Ok(None);
    }
    let value = match oss_secret {
        Some(s) => s,
        None => "",
    };
    match json_set_member(params_json, "oss", "access_key_secret", value) {
        Err(m) => {
            let mut msg = String::new();
            push_str(&mut msg, "api_account.params_json: ");
            push_str(&mut msg, m.as_str());
            Err(CoreError::Validation(msg))
        },
        Ok((present, t)) => {
            if present && oss_secret.is_none() {
                Err(CoreError::Keyring("oss secret missing for account".to_owned()))
            } else {
                Ok(Some(t))
            }
        },
    }
}

/// Whether an account's parameters carry an `oss` member: never for empty
/// parameters (`""` or `{}`) nor for a text that is not JSON.
pub open spec fn has_oss_spec(params_json: Seq<char>) -> bool {
    !(params_json == ""@ || params_json == "{}"@) && json_set_member_of(
        params_json,
        "oss"@,
        "access_key_secret"@,
        ""@,
    ) matches Ok((true, _))
}

/// Whether the account's parameters carry an `oss` member (see
/// `has_oss_spec`), as serde_json reads them.
pub fn params_has_oss(params_json: &str) -> (b: bool)
    ensures
        b == has_oss_spec(params_json@),
{
    if str_eq(params_json, "") || str_eq(params_json, "{}") {
        return false;
    }
    match json_set_member(params_json, "oss", "access_key_secret", "") {
        Ok((present, _)) => present,
        Err(_) => false,
    }
}

/// An OSS configuration passes exactly when its endpoint is a non-empty
/// `oss-….aliyuncs.com` host, its bucket, access key id and secret are all
/// non-empty, and its link lifetime lies in `[60, 86400]` seconds; with a
/// good endpoint and bucket, a missing access key id or secret is reported
/// as missing credentials.
pub proof fn law_oss_settings_complete(oss: OssConfigInput)
    ensures
        oss_problem(oss) is None <==> {
            &&& oss.endpoint@.len() > 0
            &&& starts_with(oss.endpoint@, "oss-"@)
            &&& ends_with(oss.endpoint@, ".aliyuncs.com"@)
            &&& oss.bucket@.len() > 0
            &&& oss.access_key_id@.len() > 0
            &&& oss.access_key_secret@.len() > 0
            &&& 60 <= oss.url_expires_seconds <= 86400
        },
        oss.access_key_id@.len() == 0 ==> oss_problem(oss) is Some,
        oss.access_key_secret@.len() == 0 ==> oss_problem(oss) is Some,
        oss.endpoint@.len() > 0 && starts_with(oss.endpoint@, "oss-"@) && ends_with(oss.endpoint@, ".aliyuncs.com"@)
            && oss.bucket@.len() > 0 && (oss.access_key_id@.len() == 0 || oss.access_key_secret@.len() == 0)
            ==> oss_problem(oss) == Some("oss credentials required"@),
{
}

} // verus!
