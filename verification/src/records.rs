//! The checks the library's records go through before they are written:
//! names and titles, required references, the adoption of a task's result
//! by a shot, the one-per-shot audio roles, and page sizes.

use vstd::prelude::*;

use crate::error::{fails_validation, validation, CoreError};
use crate::export::AudioRole;
use crate::task::GenerationTaskStatus;
use crate::ffmpeg::filter_graph::strs_view;
use crate::text::{nat_digits, push_str, push_u64, str_eq, trim, trim_str};

verus! {

/// A display name as stored: trimmed, and refused when nothing is left.
pub fn check_name(name: &str) -> (r: Result<&str, CoreError>)
    ensures
        trim(name@).len() > 0 <==> r is Ok,
        r matches Ok(n) ==> n@ == trim(name@),
        trim(name@).len() == 0 ==> fails_validation(r, "name cannot be empty"@),
{
    let t = trim_str(name);
    if t.is_empty() {
        return Err(validation("name cannot be empty"));
    }
    Ok(t)
}

/// An episode title as stored: trimmed, and refused when nothing is left.
pub fn check_title(title: &str) -> (r: Result<&str, CoreError>)
    ensures
        trim(title@).len() > 0 <==> r is Ok,
        r matches Ok(t) ==> t@ == trim(title@),
        trim(title@).len() == 0 ==> fails_validation(r, "title cannot be empty"@),
{
    let t = trim_str(title);
    if t.is_empty() {
        return Err(validation("title cannot be empty"));
    }
    Ok(t)
}

/// The text of a missing-reference error: `{field} is required`.
pub open spec fn required_message(field: Seq<char>) -> Seq<char> {
    field + " is required"@
}

/// Refuses a reference (`project_id`, `episode_id`, ...) that is blank.
pub fn check_required(value: &str, field: &str) -> (r: Result<(), CoreError>)
    ensures
        r is Ok <==> trim(value@).len() > 0,
        trim(value@).len() == 0 ==> fails_validation(r, required_message(field@)),
{
    if trim_str(value).is_empty() {
        let mut m = String::new();
        push_str(&mut m, field);
        push_str(&mut m, " is required");
        return Err(CoreError::Validation(m));
    }
    Ok(())
}

/// Which result a shot may adopt from a task: only a successful task of
/// that very shot, and only when the task produced an asset; that asset's id.
pub fn check_adoption(
    status: GenerationTaskStatus,
    task_shot_id: Option<&str>,
    shot_id: &str,
    result_asset_id: Option<String>,
) -> (r: Result<String, CoreError>)
    ensures
        status != GenerationTaskStatus::Success ==> fails_validation(r, "only successful tasks can be adopted"@),
        status == GenerationTaskStatus::Success && !(task_shot_id matches Some(t) && t@ == shot_id@)
            ==> fails_validation(r, "task does not belong to this shot"@),
        status == GenerationTaskStatus::Success && (task_shot_id matches Some(t) && t@ == shot_id@)
            ==> match result_asset_id {
                Some(a) => r matches Ok(x) && x@ == a@,
                None => fails_validation(r, "task has no result asset"@),
            },
{
    match status {
        GenerationTaskStatus::Success => {},
        _ => {
            return Err(validation("only successful tasks can be adopted"));
        },
    }
    let belongs = match task_shot_id {
        Some(t) => str_eq(t, shot_id),
        None => false,
    };
    if !belongs {
        return Err(validation("task does not belong to this shot"));
    }
    match result_asset_id {
        Some(a) => Ok(a),
        None => Err(validation("task has no result asset")),
    }
}

/// The word a role is stored under.
pub open spec fn role_text(r: AudioRole) -> Seq<char> {
    match r {
        AudioRole::Voice => "voice"@,
        AudioRole::Sfx => "sfx"@,
        AudioRole::Bgm => "bgm"@,
    }
}

impl AudioRole {
    /// The word the role is stored under.
    pub fn as_str(self) -> (s: &'static str)
        ensures
            s@ == role_text(self),
    {
        match self {
            AudioRole::Voice => "voice",
            AudioRole::Sfx => "sfx",
            AudioRole::Bgm => "bgm",
        }
    }

    /// A shot has at most one voice and one background track; sound
    /// effects may be stacked.
    pub fn is_unique(self) -> (b: bool)
        ensures
            b == (self != AudioRole::Sfx),
    {
        match self {
            AudioRole::Sfx => false,
            _ => true,
        }
    }
}

/// Refuses a second binding of a one-per-shot role: `existing` is how many
/// bindings of `role` the shot already has.
pub fn check_role_free(role: AudioRole, existing: i64) -> (r: Result<(), CoreError>)
    ensures
        r is Ok <==> (role == AudioRole::Sfx || existing <= 0),
        r is Err ==> fails_validation(r, "shot already has a "@ + role_text(role) + " binding"@),
{
    if role.is_unique() && existing > 0 {
        let mut m = String::new();
        push_str(&mut m, "shot already has a ");
        push_str(&mut m, role.as_str());
        push_str(&mut m, " binding");
        return Err(CoreError::Validation(m));
    }
    Ok(())
}

/// The offset of a library listing: 0 by default, never negative.
pub fn page_offset(offset: Option<i64>) -> (r: i64)
    ensures
        r == (match offset { Some(o) => if o < 0 { 0 } else { o }, None => 0 }),
{
    match offset {
        Some(o) => if o < 0 { 0 } else { o },
        None => 0,
    }
}

/// What a timeline track carries.
#[derive(Debug, Clone, Copy, PartialEq, Eq)]
pub enum TrackType {
    Video,
    Overlay,
    Text,
    Audio,
}

/// The tracks a new episode timeline starts with, top to bottom: video,
/// overlays, text, then voice, music and sound-effect audio.
pub open spec fn default_track_table() -> Seq<(TrackType, Seq<char>)> {
    seq![
        (TrackType::Video, "视频"@),
        (TrackType::Overlay, "贴片/特效"@),
        (TrackType::Text, "文字"@),
        (TrackType::Audio, "配音"@),
        (TrackType::Audio, "BGM"@),
        (TrackType::Audio, "音效"@),
    ]
}

/// The default tracks of a new timeline, in order (see `default_track_table`).
pub fn default_tracks() -> (r: Vec<(TrackType, String)>)
    ensures
        r@.len() == default_track_table().len(),
        forall|i: int| 0 <= i < r@.len() ==> #[trigger] r@[i].0 == default_track_table()[i].0
            && r@[i].1@ == default_track_table()[i].1,
{
    let mut r: Vec<(TrackType, String)> = Vec::new();
    r.push((TrackType::Video, "视频".to_owned()));
    r.push((TrackType::Overlay, "贴片/特效".to_owned()));
    r.push((TrackType::Text, "文字".to_owned()));
    r.push((TrackType::Audio, "配音".to_owned()));
    r.push((TrackType::Audio, "BGM".to_owned()));
    r.push((TrackType::Audio, "音效".to_owned()));
    r
}

/// What serde_json reads of `text` as a generic JSON value: the message of
/// its error when `text` is not a JSON document, otherwise the string held
/// under `key` when the document is an object with a string there.
pub uninterp spec fn json_read_of(text: Seq<char>, key: Seq<char>) -> Result<Option<Seq<char>>, Seq<char>>;

/// The view of what `read_json_string` answers.
pub open spec fn json_read_view(r: Result<Option<String>, String>) -> Result<Option<Seq<char>>, Seq<char>> {
    match r {
        Ok(v) => Ok(crate::text::opt_string_view(v)),
        Err(m) => Err(m@),
    }
}

/// Calls `serde_json::from_str` into a generic `serde_json::Value`, keeping
/// the error's text, or else the string under `key` (`Value` indexing and
/// `as_str`, which give nothing for a non-object or a non-string). The answer
/// depends on the two texts alone.
#[verifier::external_body]
fn read_json_string(text: &str, key: &str) -> (r: Result<Option<String>, String>)
    ensures
        json_read_view(r) == json_read_of(text@, key@),
{
    match serde_json::from_str::<serde_json::Value>(text) {
        Ok(v) => Ok(v[key].as_str().map(|s| s.to_string())),
        Err(e) => Err(e.to_string()),
    }
}

/// The message serde_json gives when `text` is not a JSON document, or
/// none when it is one (asked with the empty key; whether a text parses
/// does not depend on the key).
pub open spec fn json_error_of(text: Seq<char>) -> Option<Seq<char>> {
    match json_read_of(text, ""@) {
        Ok(_) => None,
        Err(m) => Some(m),
    }
}

/// The string under `key` of a JSON object text, when it parses and holds
/// one.
pub open spec fn json_string_of_key(text: Seq<char>, key: Seq<char>) -> Option<Seq<char>> {
    match json_read_of(text, key) {
        Ok(v) => v,
        Err(_) => None,
    }
}

/// The string under `key` of a JSON text, if it has one.
pub fn json_string_field(text: &str, key: &str) -> (r: Option<String>)
    ensures
        crate::text::opt_string_view(r) == json_string_of_key(text@, key@),
{
    match read_json_string(text, key) {
        Ok(v) => v,
        Err(_) => None,
    }
}

/// The parser's error message for a text that is not JSON.
fn json_syntax_error(text: &str) -> (r: Option<String>)
    ensures
        crate::text::opt_string_view(r) == json_error_of(text@),
{
    match read_json_string(text, "") {
        Ok(_) => None,
        Err(m) => Some(m),
    }
}

/// The verdict on a JSON field from the parser's answer: accepted without
/// an error, refused as `{field} is not valid JSON: {error}` with one.
pub fn json_field_verdict(field: &str, error: Option<String>) -> (r: Result<(), CoreError>)
    ensures
        error is None <==> r is Ok,
        error matches Some(e) ==> fails_validation(r, field@ + " is not valid JSON: "@ + e@),
{
    match error {
        None => Ok(()),
        Some(e) => {
            let mut m = String::new();
            push_str(&mut m, field);
            push_str(&mut m, " is not valid JSON: ");
            push_str(&mut m, e.as_str());
            Err(CoreError::Validation(m))
        },
    }
}

/// Refuses a field that is not a JSON document.
pub fn validate_json(text: &str, field: &str) -> (r: Result<(), CoreError>)
    ensures
        json_error_of(text@) is None <==> r is Ok,
        json_error_of(text@) matches Some(e) ==> fails_validation(r, field@ + " is not valid JSON: "@ + e),
{
    let error = json_syntax_error(text);
    json_field_verdict(field, error)
}

/// The parameters a task is stored with: `{}` when none (or an empty text)
/// is given, the given text once it is known to be JSON.
pub fn task_params_json(raw: Option<&str>) -> (r: Result<String, CoreError>)
    ensures
        (raw is None || raw->0@.len() == 0) ==> (r matches Ok(p) && p@ == "{}"@),
        raw is Some && raw->0@.len() > 0 && json_error_of(raw->0@) is None ==> (r matches Ok(p) && p@ == raw->0@),
        raw is Some && raw->0@.len() > 0 && json_error_of(raw->0@) is Some ==> fails_validation(
            r,
            "params_json is not valid JSON: "@ + json_error_of(raw->0@)->0,
        ),
{
    match raw {
        None => Ok("{}".to_owned()),
        Some(t) => {
            if t.is_empty() {
                return Ok("{}".to_owned());
            }
            proof {
                reveal_strlit("params_json");
                reveal_strlit(" is not valid JSON: ");
                reveal_strlit("params_json is not valid JSON: ");
                assert("params_json"@ + " is not valid JSON: "@ =~= "params_json is not valid JSON: "@);
            }
            match validate_json(t, "params_json") {
                Ok(()) => Ok(t.to_owned()),
                Err(e) => {
                    proof {
                        let m = json_error_of(t@)->0;
                        assert("params_json"@ + " is not valid JSON: "@ + m =~= "params_json is not valid JSON: "@ + m);
                    }
                    Err(e)
                },
            }
        },
    }
}

/// The page size of a library listing: 50 by default, kept within 1..=200.
pub fn page_limit(limit: Option<i64>) -> (r: i64)
    ensures
        r == ({
            let l = match limit { Some(l) => l, None => 50 };
            if l < 1 { 1 } else if l > 200 { 200 } else { l }
        }),
{
    let l = match limit {
        Some(l) => l,
        None => 50,
    };
    if l < 1 {
        1
    } else if l > 200 {
        200
    } else {
        l
    }
}

/// The assignments of an update statement after the first `n` given
/// columns: `updated_at` is always refreshed, then each column takes the
/// next numbered parameter.
pub open spec fn set_clauses(columns: Seq<Seq<char>>, n: nat) -> Seq<char>
    decreases n,
{
    if n == 0 {
        "updated_at = datetime('now')"@
    } else {
        set_clauses(columns, (n - 1) as nat) + ", "@ + columns[n - 1] + " = ?"@ + nat_digits(n)
    }
}

/// The update statement of a record: the given columns set from parameters
/// `?1`, `?2`, … in order, and the record's id the parameter after them.
pub open spec fn update_sql_text(table: Seq<char>, columns: Seq<Seq<char>>) -> Seq<char> {
    "UPDATE "@ + table + " SET "@ + set_clauses(columns, columns.len()) + " WHERE id = ?"@ + nat_digits(
        columns.len() + 1,
    )
}

/// Writes the update statement of a record for the columns an update
/// changes (see `update_sql_text`).
pub fn update_sql(table: &str, columns: &[&str]) -> (r: String)
    requires
        columns@.len() < u64::MAX,
    ensures
        r@ == update_sql_text(table@, strs_view(columns@)),
{
    let ghost cols = strs_view(columns@);
    let mut r = String::new();
    push_str(&mut r, "UPDATE ");
    push_str(&mut r, table);
    push_str(&mut r, " SET ");
    let ghost head = r@;
    push_str(&mut r, "updated_at = datetime('now')");
    let mut i: usize = 0;
    while i < columns.len()
        invariant
            i <= columns@.len(),
            columns@.len() < u64::MAX,
            cols == strs_view(columns@),
            r@ == head + set_clauses(cols, i as nat),
        decreases columns@.len() - i,
    {
        push_str(&mut r, ", ");
        push_str(&mut r, columns[i]);
        push_str(&mut r, " = ?");
        push_u64(&mut r, (i + 1) as u64);
        assert(r@ =~= head + set_clauses(cols, (i + 1) as nat));
        i = i + 1;
    }
    push_str(&mut r, " WHERE id = ?");
    push_u64(&mut r, columns.len() as u64 + 1);
    assert(r@ =~= update_sql_text(table@, cols));
    r
}

} // verus!
