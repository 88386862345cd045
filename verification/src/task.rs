//! Generation tasks: their status machine, the rows of their diagnostic
//! event log, and how the command line renders both.

use vstd::prelude::*;

use crate::error::CoreError;
use crate::text::{
    chars_of, find, find_exec, int_digits, push_char, push_i64, push_str, slice_chars, split_on,
    opt_string_view, str_eq, string_from_chars, byte_len, is_char_boundary, lemma_byte_prefix, prefix_char_count,
    prefix_chars,
};

verus! {

/// The life cycle of a generation task.
#[derive(Clone, Copy, Debug, PartialEq, Eq)]
pub enum GenerationTaskStatus {
    Pending,
    Running,
    Success,
    Failed,
    Cancelled,
}

pub open spec fn status_text(s: GenerationTaskStatus) -> Seq<char> {
    match s {
        GenerationTaskStatus::Pending => "pending"@,
        GenerationTaskStatus::Running => "running"@,
        GenerationTaskStatus::Success => "success"@,
        GenerationTaskStatus::Failed => "failed"@,
        GenerationTaskStatus::Cancelled => "cancelled"@,
    }
}

/// Success, failure and cancellation end a task.
pub open spec fn terminal(s: GenerationTaskStatus) -> bool {
    s == GenerationTaskStatus::Success || s == GenerationTaskStatus::Failed
        || s == GenerationTaskStatus::Cancelled
}

/// The allowed moves: pending → running | failed | cancelled, and
/// running → success | failed | cancelled.
pub open spec fn valid_transition(from: GenerationTaskStatus, to: GenerationTaskStatus) -> bool {
    match (from, to) {
        (GenerationTaskStatus::Pending, GenerationTaskStatus::Running) => true,
        (GenerationTaskStatus::Pending, GenerationTaskStatus::Failed) => true,
        (GenerationTaskStatus::Pending, GenerationTaskStatus::Cancelled) => true,
        (GenerationTaskStatus::Running, GenerationTaskStatus::Success) => true,
        (GenerationTaskStatus::Running, GenerationTaskStatus::Failed) => true,
        (GenerationTaskStatus::Running, GenerationTaskStatus::Cancelled) => true,
        _ => false,
    }
}

/// The status named by a database / command-line word.
pub open spec fn status_from_text(s: Seq<char>) -> Option<GenerationTaskStatus> {
    if s == "pending"@ {
        Some(GenerationTaskStatus::Pending)
    } else if s == "running"@ {
        Some(GenerationTaskStatus::Running)
    } else if s == "success"@ {
        Some(GenerationTaskStatus::Success)
    } else if s == "failed"@ {
        Some(GenerationTaskStatus::Failed)
    } else if s == "cancelled"@ {
        Some(GenerationTaskStatus::Cancelled)
    } else {
        None
    }
}

impl GenerationTaskStatus {
    pub fn as_str(self) -> (s: &'static str)
        ensures
            s@ == status_text(self),
    {
        match self {
            GenerationTaskStatus::Pending => "pending",
            GenerationTaskStatus::Running => "running",
            GenerationTaskStatus::Success => "success",
            GenerationTaskStatus::Failed => "failed",
            GenerationTaskStatus::Cancelled => "cancelled",
        }
    }

    pub fn from_db_str(s: &str) -> (r: Option<GenerationTaskStatus>)
        ensures
            r == status_from_text(s@),
    {
        if str_eq(s, "pending") {
            Some(GenerationTaskStatus::Pending)
        } else if str_eq(s, "running") {
            Some(GenerationTaskStatus::Running)
        } else if str_eq(s, "success") {
            Some(GenerationTaskStatus::Success)
        } else if str_eq(s, "failed") {
            Some(GenerationTaskStatus::Failed)
        } else if str_eq(s, "cancelled") {
            Some(GenerationTaskStatus::Cancelled)
        } else {
            None
        }
    }

    pub fn is_terminal(self) -> (b: bool)
        ensures
            b == terminal(self),
    {
        match self {
            GenerationTaskStatus::Success | GenerationTaskStatus::Failed
            | GenerationTaskStatus::Cancelled => true,
            _ => false,
        }
    }
}

/// What a task generates.
#[derive(Clone, Copy, Debug, PartialEq, Eq)]
pub enum TaskKind {
    Text,
    Image,
    Video,
    Audio,
}

pub open spec fn kind_text(k: TaskKind) -> Seq<char> {
    match k {
        TaskKind::Text => "text"@,
        TaskKind::Image => "image"@,
        TaskKind::Video => "video"@,
        TaskKind::Audio => "audio"@,
    }
}

impl TaskKind {
    pub fn as_str(self) -> (s: &'static str)
        ensures
            s@ == kind_text(self),
    {
        match self {
            TaskKind::Text => "text",
            TaskKind::Image => "image",
            TaskKind::Video => "video",
            TaskKind::Audio => "audio",
        }
    }

    pub fn from_db_str(s: &str) -> (r: Option<TaskKind>)
        ensures
            r matches Some(k) ==> kind_text(k) == s@,
            r is None ==> (forall|k: TaskKind| kind_text(k) != s@),
    {
        if str_eq(s, "text") {
            Some(TaskKind::Text)
        } else if str_eq(s, "image") {
            Some(TaskKind::Image)
        } else if str_eq(s, "video") {
            Some(TaskKind::Video)
        } else if str_eq(s, "audio") {
            Some(TaskKind::Audio)
        } else {
            assert forall|k: TaskKind| kind_text(k) != s@ by {
                match k {
                    TaskKind::Text => {},
                    TaskKind::Image => {},
                    TaskKind::Video => {},
                    TaskKind::Audio => {},
                }
            }
            None
        }
    }
}

/// Whether the state machine allows moving a task from `from` to `to`.
pub fn is_valid_transition(from: GenerationTaskStatus, to: GenerationTaskStatus) -> (b: bool)
    ensures
        b == valid_transition(from, to),
{
    match (from, to) {
        (GenerationTaskStatus::Pending, GenerationTaskStatus::Running) => true,
        (GenerationTaskStatus::Pending, GenerationTaskStatus::Failed) => true,
        (GenerationTaskStatus::Pending, GenerationTaskStatus::Cancelled) => true,
        (GenerationTaskStatus::Running, GenerationTaskStatus::Success) => true,
        (GenerationTaskStatus::Running, GenerationTaskStatus::Failed) => true,
        (GenerationTaskStatus::Running, GenerationTaskStatus::Cancelled) => true,
        _ => false,
    }
}

pub open spec fn invalid_transition_message(from: GenerationTaskStatus, to: GenerationTaskStatus) -> Seq<char> {
    "invalid transition: "@ + status_text(from) + " → "@ + status_text(to)
}

/// The `UPDATE` that records a transition to `to`: it stamps `started_at`
/// when entering running, `finished_at` when entering a terminal state, and
/// writes the error message when one is given.
pub open spec fn transition_sql(to: GenerationTaskStatus, has_error: bool) -> Seq<char> {
    "UPDATE generation_task SET status = ?1"@
        + (if to == GenerationTaskStatus::Running { ", started_at = datetime('now')"@ } else { seq![] })
        + (if terminal(to) { ", finished_at = datetime('now')"@ } else { seq![] })
        + (if has_error { ", error_message = ?2"@ } else { seq![] })
        + " WHERE id = ?"@ + (if has_error { seq!['3'] } else { seq!['2'] })
}

/// Checks a transition and, when it is allowed, gives the statement that
/// records it (see `transition_sql`).
pub fn plan_transition(from: GenerationTaskStatus, to: GenerationTaskStatus, has_error: bool) -> (r: Result<
    String,
    CoreError,
>)
    ensures
        r is Ok <==> valid_transition(from, to),
        r matches Ok(sql) ==> sql@ == transition_sql(to, has_error),
        r matches Err(e) ==> (e matches CoreError::TaskEngine(m) && m@ == invalid_transition_message(from, to)),
{
    if !is_valid_transition(from, to) {
        let mut m = String::new();
        push_str(&mut m, "invalid transition: ");
        push_str(&mut m, from.as_str());
        push_str(&mut m, " → ");
        push_str(&mut m, to.as_str());
        return Err(CoreError::TaskEngine(m));
    }
    let mut sql = String::new();
    push_str(&mut sql, "UPDATE generation_task SET status = ?1");
    let ghost a = sql@;
    if let GenerationTaskStatus::Running = to {
        push_str(&mut sql, ", started_at = datetime('now')");
    }
    let ghost b = sql@;
    if to.is_terminal() {
        push_str(&mut sql, ", finished_at = datetime('now')");
    }
    let ghost c = sql@;
    if has_error {
        push_str(&mut sql, ", error_message = ?2");
    }
    push_str(&mut sql, " WHERE id = ?");
    if has_error {
        push_char(&mut sql, '3');
    } else {
        push_char(&mut sql, '2');
    }
    assert(sql@ =~= transition_sql(to, has_error));
    Ok(sql)
}

/// The page size of a task listing: 100 by default, kept within 1..=500.
pub open spec fn list_limit(limit: Option<u32>) -> u32 {
    let l: u32 = match limit { Some(l) => l, None => 100 };
    if l < 1 { 1 } else if l > 500 { 500 } else { l }
}

pub fn clamp_list_limit(limit: Option<u32>) -> (r: u32)
    ensures
        r == list_limit(limit),
{
    let l = match limit {
        Some(l) => l,
        None => 100,
    };
    if l < 1 {
        1
    } else if l > 500 {
        500
    } else {
        l
    }
}

/// The process exit code once a watched task has ended: 0 on success, 10
/// on failure, 11 on cancellation; `other` for a status that is not
/// terminal.
pub open spec fn exit_code_for(s: GenerationTaskStatus, other: i32) -> i32 {
    match s {
        GenerationTaskStatus::Success => 0,
        GenerationTaskStatus::Failed => 10,
        GenerationTaskStatus::Cancelled => 11,
        _ => other,
    }
}

pub fn exit_code(status: GenerationTaskStatus, other: i32) -> (c: i32)
    ensures
        c == exit_code_for(status, other),
{
    match status {
        GenerationTaskStatus::Success => 0,
        GenerationTaskStatus::Failed => 10,
        GenerationTaskStatus::Cancelled => 11,
        _ => other,
    }
}

/// What watching a task's status remembers between two polls: the status
/// last shown and the ids of the events already printed.
pub struct StatusWatch {
    pub last_status: GenerationTaskStatus,
    pub printed: Vec<i64>,
}

/// What one poll of a watched task calls for: the events to print (indices
/// into the polled events), whether the status changed and is shown again,
/// and the exit code once the task has ended.
pub struct WatchTick {
    pub new_events: Vec<usize>,
    pub status_changed: bool,
    pub exit_code: Option<i32>,
}

/// Among the first `n` polled event ids, the indices of those not printed
/// yet (each id once, at its first occurrence), and the printed ids after
/// them.
pub open spec fn fresh_events(printed: Seq<i64>, ids: Seq<i64>, n: nat) -> (Seq<usize>, Seq<i64>)
    decreases n,
{
    if n == 0 {
        (seq![], printed)
    } else {
        let (idx, p) = fresh_events(printed, ids, (n - 1) as nat);
        if p.contains(ids[n - 1]) {
            (idx, p)
        } else {
            (idx.push((n - 1) as usize), p.push(ids[n - 1]))
        }
    }
}

fn same_status(a: GenerationTaskStatus, b: GenerationTaskStatus) -> (r: bool)
    ensures
        r == (a == b),
{
    match (a, b) {
        (GenerationTaskStatus::Pending, GenerationTaskStatus::Pending) => true,
        (GenerationTaskStatus::Running, GenerationTaskStatus::Running) => true,
        (GenerationTaskStatus::Success, GenerationTaskStatus::Success) => true,
        (GenerationTaskStatus::Failed, GenerationTaskStatus::Failed) => true,
        (GenerationTaskStatus::Cancelled, GenerationTaskStatus::Cancelled) => true,
        _ => false,
    }
}

fn contains_id(v: &Vec<i64>, id: i64) -> (b: bool)
    ensures
        b == v@.contains(id),
{
    let mut i: usize = 0;
    while i < v.len()
        invariant
            i <= v@.len(),
            forall|k: int| 0 <= k < i ==> v@[k] != id,
        decreases v@.len() - i,
    {
        if v[i] == id {
            assert(v@[i as int] == id);
            return true;
        }
        i = i + 1;
    }
    false
}

impl StatusWatch {
    /// Starts watching a task shown with the given status and events: not
    /// at all when watching was not asked for or the task has already
    /// ended.
    pub fn begin(watch: bool, status: GenerationTaskStatus, shown_events: Vec<i64>) -> (r: Option<StatusWatch>)
        ensures
            r is None <==> !watch || terminal(status),
            r matches Some(w) ==> w.last_status == status && w.printed@ == shown_events@,
    {
        if !watch || status.is_terminal() {
            None
        } else {
            Some(StatusWatch { last_status: status, printed: shown_events })
        }
    }

    /// Takes one poll: the task's status and the ids of its events now.
    pub fn step(&mut self, status: GenerationTaskStatus, event_ids: &Vec<i64>) -> (t: WatchTick)
        ensures
            t.new_events@ == fresh_events(old(self).printed@, event_ids@, event_ids@.len()).0,
            final(self).printed@ == fresh_events(old(self).printed@, event_ids@, event_ids@.len()).1,
            t.status_changed == (status != old(self).last_status),
            final(self).last_status == status,
            t.exit_code == (if terminal(status) { Some(exit_code_for(status, 0)) } else { None::<i32> }),
    {
        let mut new_events: Vec<usize> = Vec::new();
        let mut i: usize = 0;
        while i < event_ids.len()
            invariant
                i <= event_ids@.len(),
                new_events@ == fresh_events(old(self).printed@, event_ids@, i as nat).0,
                self.printed@ == fresh_events(old(self).printed@, event_ids@, i as nat).1,
                self.last_status == old(self).last_status,
            decreases event_ids@.len() - i,
        {
            let id = event_ids[i];
            if !contains_id(&self.printed, id) {
                new_events.push(i);
                self.printed.push(id);
            }
            i = i + 1;
        }
        let changed = !same_status(status, self.last_status);
        self.last_status = status;
        let exit_code = if status.is_terminal() { Some(exit_code(status, 0)) } else { None };
        WatchTick { new_events, status_changed: changed, exit_code }
    }
}

/// The phase of a task an event was recorded in.
#[derive(Clone, Copy, Debug, PartialEq, Eq)]
pub enum EventPhase {
    SubmitUpload,
    SubmitCall,
    Poll,
    Download,
    Persist,
    Cleanup,
}

pub open spec fn phase_text(p: EventPhase) -> Seq<char> {
    match p {
        EventPhase::SubmitUpload => "submit_upload"@,
        EventPhase::SubmitCall => "submit_call"@,
        EventPhase::Poll => "poll"@,
        EventPhase::Download => "download"@,
        EventPhase::Persist => "persist"@,
        EventPhase::Cleanup => "cleanup"@,
    }
}

impl EventPhase {
    pub fn as_str(self) -> (s: &'static str)
        ensures
            s@ == phase_text(self),
    {
        match self {
            EventPhase::SubmitUpload => "submit_upload",
            EventPhase::SubmitCall => "submit_call",
            EventPhase::Poll => "poll",
            EventPhase::Download => "download",
            EventPhase::Persist => "persist",
            EventPhase::Cleanup => "cleanup",
        }
    }
}

#[derive(Clone, Copy, Debug, PartialEq, Eq)]
pub enum EventSeverity {
    Info,
    Warn,
    Error,
}

pub open spec fn severity_text(s: EventSeverity) -> Seq<char> {
    match s {
        EventSeverity::Info => "info"@,
        EventSeverity::Warn => "warn"@,
        EventSeverity::Error => "error"@,
    }
}

impl EventSeverity {
    pub fn as_str(self) -> (s: &'static str)
        ensures
            s@ == severity_text(self),
    {
        match self {
            EventSeverity::Info => "info",
            EventSeverity::Warn => "warn",
            EventSeverity::Error => "error",
        }
    }
}

/// One recorded event of a task.
#[derive(Debug, Clone)]
pub struct GenerationTaskEvent {
    pub id: i64,
    pub task_id: String,
    pub occurred_at: String,
    pub phase: EventPhase,
    pub severity: EventSeverity,
    pub request_id: Option<String>,
    pub http_status: Option<i64>,
    pub details_json: String,
    pub message: String,
}

/// An event about to be recorded.
pub struct NewEvent<'a> {
    pub task_id: &'a str,
    pub phase: EventPhase,
    pub severity: EventSeverity,
    pub request_id: Option<&'a str>,
    pub http_status: Option<i64>,
    pub details_json: &'a str,
    pub message: &'a str,
}

/// The most events kept per task; later ones are dropped.
pub const MAX_EVENTS_PER_TASK: i64 = 200;

/// Whether one more event may be recorded for a task that has `count`.
pub fn event_cap_allows(count: i64) -> (b: bool)
    ensures
        b == (count < MAX_EVENTS_PER_TASK),
{
    count < MAX_EVENTS_PER_TASK
}

/// `s` followed by spaces up to `width` characters, as `{:<width}` writes.
pub open spec fn pad_right(s: Seq<char>, width: nat) -> Seq<char> {
    if s.len() >= width {
        s
    } else {
        s + Seq::new((width - s.len()) as nat, |i: int| ' ')
    }
}

fn push_padded_right(out: &mut String, s: &str, width: usize)
    ensures
        final(out)@ == old(out)@ + pad_right(s@, width as nat),
{
    push_str(out, s);
    let n = s.unicode_len();
    let ghost start = old(out)@ + s@;
    let mut k = n;
    while k < width
        invariant
            n <= k,
            k == n || k <= width,
            n == s@.len(),
            out@ == start + Seq::new((k - n) as nat, |i: int| ' '),
        decreases width - k,
    {
        push_char(out, ' ');
        assert(out@ =~= start + Seq::new((k + 1 - n) as nat, |i: int| ' '));
        k = k + 1;
    }
    proof {
        if s@.len() >= width {
            assert(out@ =~= old(out)@ + s@);
        } else {
            assert(out@ =~= old(out)@ + (s@ + Seq::new((width - s@.len()) as nat, |i: int| ' ')));
        }
    }
}

/// The time part of an `occurred_at` stamp: the second space-separated
/// piece when there is one, the whole stamp otherwise.
pub open spec fn event_time(occurred_at: Seq<char>) -> Seq<char> {
    let parts = split_on(occurred_at, ' ');
    if parts.len() > 1 { parts[1] } else { occurred_at }
}

/// ` HTTP {status}` and ` request_id={id}` for what the event carries.
pub open spec fn event_suffix(http_status: Option<i64>, request_id: Option<Seq<char>>) -> Seq<char> {
    (match http_status {
        Some(s) => " HTTP "@ + int_digits(s as int),
        None => seq![],
    }) + (match request_id {
        Some(r) => " request_id="@ + r,
        None => seq![],
    })
}

pub open spec fn event_line(e: GenerationTaskEvent) -> Seq<char> {
    seq!['['] + event_time(e.occurred_at@) + seq![']', ' '] + pad_right(phase_text(e.phase), 14)
        + seq![' '] + pad_right(severity_text(e.severity), 6) + seq![' '] + e.message@ + event_suffix(
        e.http_status,
        opt_string_view(e.request_id),
    )
}

fn event_time_exec(occurred_at: &String) -> (r: String)
    ensures
        r@ == event_time(occurred_at@),
{
    let at = chars_of(occurred_at.as_str());
    let parts = crate::text::split_exec(at.as_slice(), ' ');
    if parts.len() > 1 {
        string_from_chars(parts[1].as_slice())
    } else {
        occurred_at.clone()
    }
}

fn push_event_suffix(s: &mut String, http_status: Option<i64>, request_id: &Option<String>)
    ensures
        final(s)@ == old(s)@ + event_suffix(http_status, opt_string_view(*request_id)),
{
    let ghost start = s@;
    if let Some(st) = http_status {
        push_str(s, " HTTP ");
        push_i64(s, st);
    }
    let ghost mid = s@;
    if let Some(rid) = request_id {
        push_str(s, " request_id=");
        push_str(s, rid.as_str());
    }
    assert(s@ =~= start + event_suffix(http_status, opt_string_view(*request_id)));
}

/// One event as a line of the task timeline:
/// `[10:00:01] submit_call    info   提交到云端 HTTP 401 request_id=...`.
pub fn format_event_line(event: &GenerationTaskEvent) -> (s: String)
    ensures
        s@ == event_line(*event),
{
    let time = event_time_exec(&event.occurred_at);
    let mut s = String::new();
    push_char(&mut s, '[');
    push_str(&mut s, time.as_str());
    push_char(&mut s, ']');
    push_char(&mut s, ' ');
    let ghost a = s@;
    assert(a =~= seq!['['] + event_time(event.occurred_at@) + seq![']', ' ']);
    push_padded_right(&mut s, event.phase.as_str(), 14);
    push_char(&mut s, ' ');
    push_padded_right(&mut s, event.severity.as_str(), 6);
    push_char(&mut s, ' ');
    let ghost b = s@;
    assert(b =~= a + pad_right(phase_text(event.phase), 14) + seq![' '] + pad_right(
        severity_text(event.severity),
        6,
    ) + seq![' ']);
    push_str(&mut s, event.message.as_str());
    push_event_suffix(&mut s, event.http_status, &event.request_id);
    assert(s@ =~= event_line(*event));
    s
}

/// The first eight bytes of an id (all of it when shorter), for tables.
/// Byte eight must start a character.
pub fn short_id(id: &str) -> (s: String)
    requires
        is_char_boundary(id@, if byte_len(id@) < 8 { byte_len(id@) } else { 8 }),
    ensures
        s@ == id@.take(prefix_chars(id@, 8) as int),
        byte_len(s@) == (if byte_len(id@) < 8 { byte_len(id@) } else { 8 }),
{
    proof { lemma_byte_prefix(id@, 8); }
    let cs = chars_of(id);
    let n = prefix_char_count(cs.as_slice(), 8);
    let head = slice_chars(cs.as_slice(), 0, n);
    assert(head@ =~= id@.take(n as int));
    string_from_chars(head.as_slice())
}

/// `s` when it has at most `max` characters; otherwise its first `max - 3`
/// characters (none when `max < 3`) followed by `...`.
pub open spec fn truncated(s: Seq<char>, max: nat) -> Seq<char> {
    if s.len() <= max {
        s
    } else {
        s.take(if max >= 3 { max - 3 } else { 0 }) + "..."@
    }
}

pub fn truncate(s: &str, max: usize) -> (r: String)
    ensures
        r@ == truncated(s@, max as nat),
{
    let cs = chars_of(s);
    if cs.len() <= max {
        return string_from_chars(cs.as_slice());
    }
    let keep = if max >= 3 { max - 3 } else { 0 };
    let head = slice_chars(cs.as_slice(), 0, keep);
    let mut r = string_from_chars(head.as_slice());
    push_str(&mut r, "...");
    assert(r@ =~= truncated(s@, max as nat));
    r
}

pub open spec fn status_symbol_text(s: GenerationTaskStatus) -> Seq<char> {
    match s {
        GenerationTaskStatus::Pending => "⏳"@,
        GenerationTaskStatus::Running => "↻"@,
        GenerationTaskStatus::Success => "✓"@,
        GenerationTaskStatus::Failed => "✗"@,
        GenerationTaskStatus::Cancelled => "⊘"@,
    }
}

/// The status word shown in tables.
pub fn status_display(status: GenerationTaskStatus) -> (s: &'static str)
    ensures
        s@ == status_text(status),
{
    status.as_str()
}

/// The symbol that prefixes progress lines.
pub fn status_symbol(status: GenerationTaskStatus) -> (s: &'static str)
    ensures
        s@ == status_symbol_text(status),
{
    match status {
        GenerationTaskStatus::Pending => "⏳",
        GenerationTaskStatus::Running => "↻",
        GenerationTaskStatus::Success => "✓",
        GenerationTaskStatus::Failed => "✗",
        GenerationTaskStatus::Cancelled => "⊘",
    }
}

pub fn kind_display(kind: TaskKind) -> (s: &'static str)
    ensures
        s@ == kind_text(kind),
{
    kind.as_str()
}

pub open spec fn invalid_status_message(s: Seq<char>) -> Seq<char> {
    "invalid status '"@ + s + "'. Valid: pending, running, success, failed, cancelled"@
}

/// A `--status` filter word, or the message that rejects it.
pub fn parse_status(s: &str) -> (r: Result<GenerationTaskStatus, String>)
    ensures
        r matches Ok(st) ==> status_from_text(s@) == Some(st),
        r matches Err(m) ==> status_from_text(s@) is None && m@ == invalid_status_message(s@),
{
    match GenerationTaskStatus::from_db_str(s) {
        Some(st) => Ok(st),
        None => {
            let mut m = String::new();
            push_str(&mut m, "invalid status '");
            push_str(&mut m, s);
            push_str(&mut m, "'. Valid: pending, running, success, failed, cancelled");
            Err(m)
        },
    }
}

/// What `task submit` makes of a model id and the number of `--subject`
/// options: the image model takes none, the reference-to-video model needs
/// at least one, and no other model is known.
pub open spec fn model_kind(model: Seq<char>, n_subjects: nat) -> Result<TaskKind, Seq<char>> {
    if model == "wan2.7-image-pro"@ {
        if n_subjects > 0 {
            Err("--subject is not applicable for wan2.7-image-pro"@)
        } else {
            Ok(TaskKind::Image)
        }
    } else if model == "happyhorse-1.0-r2v"@ {
        if n_subjects == 0 {
            Err("--subject is required for happyhorse-1.0-r2v"@)
        } else {
            Ok(TaskKind::Video)
        }
    } else {
        Err("unknown model id '"@ + model + "'. Supported: wan2.7-image-pro, happyhorse-1.0-r2v"@)
    }
}

/// The kind of task a submission creates, or the message that refuses it
/// (see `model_kind`).
pub fn task_kind_for_model(model: &str, n_subjects: usize) -> (r: Result<TaskKind, String>)
    ensures
        match model_kind(model@, n_subjects as nat) {
            Ok(k) => r == Ok::<TaskKind, String>(k),
            Err(m) => r matches Err(e) && e@ == m,
        },
{
    if str_eq(model, "wan2.7-image-pro") {
        if n_subjects > 0 {
            return Err("--subject is not applicable for wan2.7-image-pro".to_owned());
        }
        Ok(TaskKind::Image)
    } else if str_eq(model, "happyhorse-1.0-r2v") {
        if n_subjects == 0 {
            return Err("--subject is required for happyhorse-1.0-r2v".to_owned());
        }
        Ok(TaskKind::Video)
    } else {
        let mut m = String::new();
        push_str(&mut m, "unknown model id '");
        push_str(&mut m, model);
        push_str(&mut m, "'. Supported: wan2.7-image-pro, happyhorse-1.0-r2v");
        Err(m)
    }
}

/// Whether an answer to a `[y/N]` prompt confirms: `y` or `Y`, surrounding
/// whitespace ignored.
pub fn confirmed(answer: &str) -> (b: bool)
    ensures
        b == (crate::text::trim(answer@) == seq!['y'] || crate::text::trim(answer@) == seq!['Y']),
{
    let t = crate::text::trim_str(answer);
    proof {
        reveal_strlit("y");
        reveal_strlit("Y");
        assert("y"@ =~= seq!['y']);
        assert("Y"@ =~= seq!['Y']);
    }
    str_eq(t, "y") || str_eq(t, "Y")
}

/// The stage of a status: pending, then running, then a terminal state.
pub open spec fn stage(s: GenerationTaskStatus) -> int {
    match s {
        GenerationTaskStatus::Pending => 0,
        GenerationTaskStatus::Running => 1,
        _ => 2,
    }
}

/// A terminal task never moves again, nothing moves back to pending, and
/// every allowed move goes strictly forward, so a task makes at most two
/// moves in its life.
pub proof fn law_transitions_move_forward(from: GenerationTaskStatus, to: GenerationTaskStatus)
    ensures
        terminal(from) ==> !valid_transition(from, to),
        !valid_transition(from, GenerationTaskStatus::Pending),
        valid_transition(from, to) ==> stage(from) < stage(to),
        valid_transition(from, to) ==> (to == GenerationTaskStatus::Running || terminal(to)),
        from == GenerationTaskStatus::Running && valid_transition(from, to) ==> terminal(to),
{
}

/// Failing and cancelling are allowed from every non-terminal state.
pub proof fn law_abort_from_any_live_state(from: GenerationTaskStatus)
    ensures
        !terminal(from) ==> valid_transition(from, GenerationTaskStatus::Failed)
            && valid_transition(from, GenerationTaskStatus::Cancelled),
{
}

/// The stored word of a status reads back as that status, and distinct
/// statuses have distinct words.
pub proof fn law_status_text_round_trip(s: GenerationTaskStatus, t: GenerationTaskStatus)
    ensures
        status_from_text(status_text(s)) == Some(s),
        s != t ==> status_text(s) != status_text(t),
{
    reveal_strlit("pending");
    reveal_strlit("running");
    reveal_strlit("success");
    reveal_strlit("failed");
    reveal_strlit("cancelled");
    let w = seq!["pending"@, "running"@, "success"@, "failed"@, "cancelled"@];
    assert(w[0][0] == 'p' && w[1][0] == 'r' && w[2][0] == 's' && w[3][0] == 'f' && w[4][0] == 'c');
    assert forall|i: int, j: int| 0 <= i < 5 && 0 <= j < 5 && i != j implies #[trigger] w[i] != #[trigger] w[j] by {
        assert(w[i][0] != w[j][0]);
    }
    assert(w[0] != w[1] && w[0] != w[2] && w[0] != w[3] && w[0] != w[4]);
    assert(w[1] != w[2] && w[1] != w[3] && w[1] != w[4]);
    assert(w[2] != w[3] && w[2] != w[4] && w[3] != w[4]);
}

} // verus!
