//! Sessions: their file changes and summaries, slugs, archiving, and the
//! metadata used to list them; and the accounts of users.
use vstd::prelude::*;

use crate::json::{get, get_str, Json, JsonValue};
use crate::message::opt_view;
use crate::text::{owned, push_decimal, push_str, str_eq};

verus! {

// ---------------------------------------------------------------------------
// Time and identifiers (chrono, uuid)
// ---------------------------------------------------------------------------

/// A point in time in UTC: seconds since the Unix epoch and the
/// nanoseconds past that second. Ordered by time.
#[derive(Debug, Clone, Copy, PartialEq, Eq, Structural, PartialOrd, Ord)]
pub struct Timestamp {
    pub secs: i64,
    pub nanos: u32,
}

/// A UUID of the uuid crate, carried through unchanged.
#[verifier::external_type_specification]
#[verifier::external_body]
pub struct ExUuid(uuid::Uuid);

/// Calls `Utc::now` and reads its seconds and nanoseconds. The current
/// time is not stated.
#[verifier::external_body]
fn utc_now() -> Timestamp {
    let t = chrono::Utc::now();
    Timestamp { secs: t.timestamp(), nanos: t.timestamp_subsec_nanos() }
}

/// Calls `Uuid::new_v4`. The random value is not stated.
#[verifier::external_body]
fn new_uuid() -> uuid::Uuid {
    uuid::Uuid::new_v4()
}

/// Whether `c` is a lowercase hexadecimal digit.
pub open spec fn is_lower_hex(c: char) -> bool {
    ('0' <= c && c <= '9') || ('a' <= c && c <= 'f')
}

/// The shape of a hyphenated UUID: 36 characters, hyphens at positions 8,
/// 13, 18 and 23, lowercase hexadecimal digits elsewhere.
pub open spec fn is_hyphenated_uuid(s: Seq<char>) -> bool {
    &&& s.len() == 36
    &&& forall|i: int|
        0 <= i < 36 ==> if i == 8 || i == 13 || i == 18 || i == 23 {
            #[trigger] s[i] == '-'
        } else {
            is_lower_hex(s[i])
        }
}

/// Calls `Uuid::to_string`, which writes the hyphenated lowercase form
/// (`67e55044-10b1-426f-9247-bb680e5fe0c8`); the digits themselves are not
/// stated.
#[verifier::external_body]
fn uuid_text(u: &uuid::Uuid) -> (r: String)
    ensures
        is_hyphenated_uuid(r@),
{
    u.to_string()
}

/// The first `n` characters of a fresh UUID's text (`n` at most 36).
fn fresh_id(n: usize) -> (r: String)
    requires
        n <= 36,
    ensures
        r@.len() == n,
        forall|i: int| 0 <= i < n ==> (is_lower_hex(#[trigger] r@[i]) || r@[i] == '-'),
{
    let u = new_uuid();
    let t = uuid_text(&u);
    let cs = crate::text::chars_of(t.as_str());
    let p = crate::text::slice_range(cs.as_slice(), 0, n);
    proof {
        assert forall|i: int| 0 <= i < n implies (is_lower_hex(#[trigger] p@[i]) || p@[i] == '-') by {
            assert(p@[i] == t@[i]);
        }
    }
    crate::text::string_of(p.as_slice())
}

// ---------------------------------------------------------------------------
// File changes
// ---------------------------------------------------------------------------

/// Types of file changes.
#[derive(Debug, Clone, Copy, PartialEq, Eq, Structural)]
pub enum FileChangeType {
    Created,
    Modified,
    Deleted,
    Renamed,
}

/// A file change within a session.
#[derive(Debug, Clone)]
pub struct FileChange {
    pub id: String,
    pub change_type: FileChangeType,
    pub file_path: String,
    /// For renames.
    pub old_path: Option<String>,
    pub timestamp: Timestamp,
    pub lines_added: u64,
    pub lines_removed: u64,
    pub tool_call_id: Option<String>,
    pub session_id: Option<String>,
    /// Human-readable description.
    pub description: Option<String>,
}

/// The icon of a change type.
pub open spec fn file_icon(t: FileChangeType) -> Seq<char> {
    match t {
        FileChangeType::Created => "+"@,
        FileChangeType::Modified => "~"@,
        FileChangeType::Deleted => "-"@,
        FileChangeType::Renamed => ">"@,
    }
}

/// The status colour of a change type.
pub open spec fn status_color(t: FileChangeType) -> Seq<char> {
    match t {
        FileChangeType::Created => "green"@,
        FileChangeType::Modified => "blue"@,
        FileChangeType::Deleted => "red"@,
        FileChangeType::Renamed => "orange"@,
    }
}

/// The summary of a change: `New file`, the lines added and removed of a
/// modification, `Deleted`, or the new path of a rename.
pub open spec fn change_summary(t: FileChangeType, added: u64, removed: u64, path: Seq<char>) -> Seq<char> {
    match t {
        FileChangeType::Created => "New file"@,
        FileChangeType::Modified => if added > 0 && removed > 0 {
            "+"@ + crate::text::decimal(added as nat) + " -"@ + crate::text::decimal(removed as nat)
        } else if added > 0 {
            "+"@ + crate::text::decimal(added as nat)
        } else if removed > 0 {
            "-"@ + crate::text::decimal(removed as nat)
        } else {
            "Modified"@
        },
        FileChangeType::Deleted => "Deleted"@,
        FileChangeType::Renamed => "Renamed -> "@ + path,
    }
}

impl FileChange {
    /// A change of `file_path` now, with a fresh eight-character id and no
    /// lines counted.
    pub fn new(change_type: FileChangeType, file_path: String) -> (r: Self)
        ensures
            r.id@.len() == 8,
            r.change_type == change_type,
            r.file_path == file_path,
            r.old_path is None,
            r.lines_added == 0,
            r.lines_removed == 0,
            r.tool_call_id is None,
            r.session_id is None,
            r.description is None,
    {
        FileChange {
            id: fresh_id(8),
            change_type,
            file_path,
            old_path: None,
            timestamp: utc_now(),
            lines_added: 0,
            lines_removed: 0,
            tool_call_id: None,
            session_id: None,
            description: None,
        }
    }

    /// The icon of the change.
    pub fn get_file_icon(&self) -> (r: &'static str)
        ensures
            r@ == file_icon(self.change_type),
    {
        match self.change_type {
            FileChangeType::Created => "+",
            FileChangeType::Modified => "~",
            FileChangeType::Deleted => "-",
            FileChangeType::Renamed => ">",
        }
    }

    /// The status colour of the change.
    pub fn get_status_color(&self) -> (r: &'static str)
        ensures
            r@ == status_color(self.change_type),
    {
        match self.change_type {
            FileChangeType::Created => "green",
            FileChangeType::Modified => "blue",
            FileChangeType::Deleted => "red",
            FileChangeType::Renamed => "orange",
        }
    }

    /// The human-readable summary of the change.
    pub fn get_change_summary(&self) -> (r: String)
        ensures
            r@ == change_summary(self.change_type, self.lines_added, self.lines_removed, self.file_path@),
    {
        match self.change_type {
            FileChangeType::Created => owned("New file"),
            FileChangeType::Modified => {
                if self.lines_added > 0 && self.lines_removed > 0 {
                    let mut r = owned("+");
                    push_decimal(&mut r, self.lines_added);
                    push_str(&mut r, " -");
                    push_decimal(&mut r, self.lines_removed);
                    r
                } else if self.lines_added > 0 {
                    let mut r = owned("+");
                    push_decimal(&mut r, self.lines_added);
                    r
                } else if self.lines_removed > 0 {
                    let mut r = owned("-");
                    push_decimal(&mut r, self.lines_removed);
                    r
                } else {
                    owned("Modified")
                }
            },
            FileChangeType::Deleted => owned("Deleted"),
            FileChangeType::Renamed => {
                let mut r = owned("Renamed -> ");
                push_str(&mut r, self.file_path.as_str());
                r
            },
        }
    }
}

// ---------------------------------------------------------------------------
// Sessions
// ---------------------------------------------------------------------------

/// Summary of file changes in a session.
#[derive(Debug, Clone, Copy, PartialEq, Eq, Structural)]
pub struct FileChangesSummary {
    pub total: usize,
    pub created: usize,
    pub modified: usize,
    pub deleted: usize,
    pub renamed: usize,
    pub total_lines_added: u64,
    pub total_lines_removed: u64,
    pub net_lines: i64,
}

/// A conversation session. Maps of the session are kept as lists of
/// entries, each key once.
#[derive(Debug)]
pub struct Session {
    pub id: String,
    pub created_at: Timestamp,
    pub updated_at: Timestamp,
    pub messages: Vec<crate::validator::ChatMessage>,
    pub context_files: Vec<String>,
    pub working_directory: Option<String>,
    pub metadata: Vec<(String, JsonValue)>,
    /// The serialized playbook of learned strategies.
    pub playbook: Option<Vec<(String, JsonValue)>>,
    /// The file changes of this session.
    pub file_changes: Vec<FileChange>,
    pub channel: String,
    pub chat_type: String,
    pub channel_user_id: String,
    pub thread_id: Option<String>,
    pub delivery_context: Vec<(String, JsonValue)>,
    pub last_activity: Option<Timestamp>,
    pub workspace_confirmed: bool,
    pub owner_id: Option<String>,
    /// The session this one was forked from.
    pub parent_id: Option<String>,
    /// The child session of each sub-agent tool call.
    pub subagent_sessions: Vec<(String, String)>,
    pub time_archived: Option<Timestamp>,
    pub slug: Option<String>,
}

/// Session metadata for listing and searching.
#[derive(Debug, Clone)]
pub struct SessionMetadata {
    pub id: String,
    pub created_at: Timestamp,
    pub updated_at: Timestamp,
    pub message_count: usize,
    pub total_tokens: u64,
    pub title: Option<String>,
    pub summary: Option<String>,
    pub tags: Vec<String>,
    pub working_directory: Option<String>,
    pub has_session_model: bool,
    pub owner_id: Option<String>,
    pub summary_additions: u64,
    pub summary_deletions: u64,
    pub summary_files: u64,
    pub channel: String,
    pub channel_user_id: String,
    pub thread_id: Option<String>,
}

/// The lines added over a list of changes.
pub open spec fn lines_added_total(fcs: Seq<FileChange>) -> nat
    decreases fcs.len(),
{
    if fcs.len() == 0 {
        0
    } else {
        lines_added_total(fcs.drop_last()) + fcs.last().lines_added as nat
    }
}

/// The lines removed over a list of changes.
pub open spec fn lines_removed_total(fcs: Seq<FileChange>) -> nat
    decreases fcs.len(),
{
    if fcs.len() == 0 {
        0
    } else {
        lines_removed_total(fcs.drop_last()) + fcs.last().lines_removed as nat
    }
}

/// The number of changes of type `t`.
pub open spec fn count_of_type(fcs: Seq<FileChange>, t: FileChangeType) -> nat
    decreases fcs.len(),
{
    if fcs.len() == 0 {
        0
    } else {
        count_of_type(fcs.drop_last(), t) + if fcs.last().change_type == t {
            1nat
        } else {
            0nat
        }
    }
}

/// Whether some change of `fcs` is of file `p`.
pub open spec fn has_path(fcs: Seq<FileChange>, p: Seq<char>) -> bool {
    exists|i: int| 0 <= i < fcs.len() && (#[trigger] fcs[i]).file_path@ == p
}

/// The number of distinct files among the changes: those whose file does
/// not occur in an earlier change.
pub open spec fn distinct_files(fcs: Seq<FileChange>) -> nat
    decreases fcs.len(),
{
    if fcs.len() == 0 {
        0
    } else {
        distinct_files(fcs.drop_last()) + if has_path(fcs.drop_last(), fcs.last().file_path@) {
            0nat
        } else {
            1nat
        }
    }
}

/// The summary of a list of changes, where its totals fit.
pub open spec fn changes_summary(fcs: Seq<FileChange>) -> FileChangesSummary {
    let added = lines_added_total(fcs);
    let removed = lines_removed_total(fcs);
    FileChangesSummary {
        total: fcs.len() as usize,
        created: count_of_type(fcs, FileChangeType::Created) as usize,
        modified: count_of_type(fcs, FileChangeType::Modified) as usize,
        deleted: count_of_type(fcs, FileChangeType::Deleted) as usize,
        renamed: count_of_type(fcs, FileChangeType::Renamed) as usize,
        total_lines_added: added as u64,
        total_lines_removed: removed as u64,
        net_lines: ((added as u64) as i64 - (removed as u64) as i64) as i64,
    }
}

/// Whether the totals of the changes fit in 64 bits, and their difference,
/// each total taken as a signed number, too.
pub open spec fn summary_fits(fcs: Seq<FileChange>) -> bool {
    let added = lines_added_total(fcs);
    let removed = lines_removed_total(fcs);
    &&& added <= u64::MAX
    &&& removed <= u64::MAX
    &&& i64::MIN <= (added as u64) as i64 - (removed as u64) as i64 <= i64::MAX
}

proof fn lemma_count_bound(fcs: Seq<FileChange>, t: FileChangeType)
    ensures
        count_of_type(fcs, t) <= fcs.len(),
    decreases fcs.len(),
{
    if fcs.len() > 0 {
        lemma_count_bound(fcs.drop_last(), t);
    }
}

proof fn lemma_distinct_bound(fcs: Seq<FileChange>)
    ensures
        distinct_files(fcs) <= fcs.len(),
    decreases fcs.len(),
{
    if fcs.len() > 0 {
        lemma_distinct_bound(fcs.drop_last());
    }
}

proof fn lemma_totals_grow(fcs: Seq<FileChange>, k: int)
    requires
        0 <= k <= fcs.len(),
    ensures
        lines_added_total(fcs.take(k)) <= lines_added_total(fcs),
        lines_removed_total(fcs.take(k)) <= lines_removed_total(fcs),
    decreases fcs.len(),
{
    if k < fcs.len() {
        assert(fcs.drop_last().take(k) =~= fcs.take(k));
        lemma_totals_grow(fcs.drop_last(), k);
    } else {
        assert(fcs.take(k) =~= fcs);
    }
}

/// The first change that a new modification of the same file folds into.
pub open spec fn merge_target(fcs: Seq<FileChange>, fc: FileChange) -> Option<int>
    decreases fcs.len(),
{
    if fc.change_type != FileChangeType::Modified || fcs.len() == 0 {
        None
    } else if fcs[0].file_path@ == fc.file_path@ && fcs[0].change_type == FileChangeType::Modified {
        Some(0)
    } else {
        match merge_target(fcs.drop_first(), fc) {
            Some(i) => Some(i + 1),
            None => None,
        }
    }
}

/// `old` with the lines, time and description of modification `fc` folded in.
pub open spec fn folded(old: FileChange, fc: FileChange) -> FileChange {
    FileChange {
        lines_added: (old.lines_added + fc.lines_added) as u64,
        lines_removed: (old.lines_removed + fc.lines_removed) as u64,
        timestamp: fc.timestamp,
        description: fc.description,
        ..old
    }
}

/// The changes of `fcs` that are not of file `p`.
pub open spec fn without_file(fcs: Seq<FileChange>, p: Seq<char>) -> Seq<FileChange>
    decreases fcs.len(),
{
    if fcs.len() == 0 {
        Seq::empty()
    } else {
        let rest = without_file(fcs.drop_last(), p);
        if fcs.last().file_path@ == p {
            rest
        } else {
            rest.push(fcs.last())
        }
    }
}

/// The changes after `fc` is recorded in a session with id `id`.
pub open spec fn changes_after(fcs: Seq<FileChange>, fc: FileChange, id: String) -> Seq<FileChange> {
    match merge_target(fcs, fc) {
        Some(i) => fcs.update(i, folded(fcs[i], fc)),
        None => without_file(fcs, fc.file_path@).push(FileChange { session_id: Some(id), ..fc }),
    }
}

/// Whether no two changes are of the same file.
pub open spec fn files_distinct(fcs: Seq<FileChange>) -> bool {
    forall|i: int, j: int|
        0 <= i < j < fcs.len() ==> (#[trigger] fcs[i]).file_path@ != (#[trigger] fcs[j]).file_path@
}

proof fn lemma_without_file(fcs: Seq<FileChange>, p: Seq<char>)
    requires
        files_distinct(fcs),
    ensures
        files_distinct(without_file(fcs, p)),
        forall|k: int| 0 <= k < without_file(fcs, p).len() ==> (#[trigger] without_file(fcs, p)[k]).file_path@ != p,
        forall|k: int| 0 <= k < without_file(fcs, p).len() ==> has_path(fcs, (#[trigger] without_file(fcs, p)[k]).file_path@),
    decreases fcs.len(),
{
    if fcs.len() > 0 {
        let d = fcs.drop_last();
        assert forall|i: int, j: int| 0 <= i < j < d.len() implies (#[trigger] d[i]).file_path@ != (#[trigger] d[j]).file_path@ by {
            assert(d[i] == fcs[i] && d[j] == fcs[j]);
        }
        lemma_without_file(d, p);
        let rest = without_file(d, p);
        assert forall|k: int| 0 <= k < rest.len() implies has_path(fcs, (#[trigger] rest[k]).file_path@) by {
            let m = choose|m: int| 0 <= m < d.len() && (#[trigger] d[m]).file_path@ == rest[k].file_path@;
            assert(fcs[m] == d[m]);
        }
        if fcs.last().file_path@ != p {
            let r = rest.push(fcs.last());
            assert forall|k: int| 0 <= k < rest.len() implies (#[trigger] rest[k]).file_path@ != fcs.last().file_path@ by {
                let m = choose|m: int| 0 <= m < d.len() && (#[trigger] d[m]).file_path@ == rest[k].file_path@;
                assert(fcs[m] == d[m]);
                assert(fcs[m].file_path@ != fcs[fcs.len() - 1].file_path@);
            }
            assert forall|i: int, j: int| 0 <= i < j < r.len() implies (#[trigger] r[i]).file_path@ != (#[trigger] r[j]).file_path@ by {
                if j == r.len() - 1 {
                    assert(r[i] == rest[i]);
                } else {
                    assert(r[i] == rest[i] && r[j] == rest[j]);
                }
            }
            assert forall|k: int| 0 <= k < r.len() implies has_path(fcs, (#[trigger] r[k]).file_path@) by {
                if k == r.len() - 1 {
                    assert(fcs[fcs.len() - 1] == r[k]);
                } else {
                    assert(r[k] == rest[k]);
                }
            }
        }
    }
}

/// Recording file changes keeps at most one record per file: where no two
/// records of `fcs` are of the same file, none of the records after `fc`
/// is added are either.
pub proof fn law_one_record_per_file(fcs: Seq<FileChange>, fc: FileChange, id: String)
    requires
        files_distinct(fcs),
    ensures
        files_distinct(changes_after(fcs, fc, id)),
{
    lemma_merge_target(fcs, fc);
    match merge_target(fcs, fc) {
        Some(i) => {
            let r = fcs.update(i, folded(fcs[i], fc));
            assert forall|a: int, b: int| 0 <= a < b < r.len() implies (#[trigger] r[a]).file_path@ != (#[trigger] r[b]).file_path@ by {
                assert(r[a].file_path == fcs[a].file_path);
                assert(r[b].file_path == fcs[b].file_path);
            }
        },
        None => {
            lemma_without_file(fcs, fc.file_path@);
            let w = without_file(fcs, fc.file_path@);
            let r = w.push(FileChange { session_id: Some(id), ..fc });
            assert forall|a: int, b: int| 0 <= a < b < r.len() implies (#[trigger] r[a]).file_path@ != (#[trigger] r[b]).file_path@ by {
                if b == r.len() - 1 {
                    assert(r[a] == w[a]);
                } else {
                    assert(r[a] == w[a] && r[b] == w[b]);
                }
            }
        },
    }
}

/// The text of metadata field `key`, where it is text.
pub open spec fn meta_text(m: Seq<(String, JsonValue)>, key: Seq<char>) -> Option<Seq<char>> {
    get_str(Json::Object(crate::json::field_views(m)), key)
}

/// The texts of an array that holds only texts.
pub open spec fn all_texts(items: Seq<Json>) -> Option<Seq<Seq<char>>>
    decreases items.len(),
{
    if items.len() == 0 {
        Some(Seq::empty())
    } else {
        match (all_texts(items.drop_last()), items.last()) {
            (Some(ts), Json::Str(t)) => Some(ts.push(t)),
            _ => None,
        }
    }
}

/// The tags that a session's metadata lists: its `tags` field where that is
/// an array of texts, none otherwise.
pub open spec fn meta_tags(m: Seq<(String, JsonValue)>) -> Seq<Seq<char>> {
    match get(Json::Object(crate::json::field_views(m)), "tags"@) {
        Some(Json::Array(items)) => match all_texts(items) {
            Some(ts) => ts,
            None => Seq::empty(),
        },
        _ => Seq::empty(),
    }
}

// ---------------------------------------------------------------------------
// Slugs
// ---------------------------------------------------------------------------

/// The characters that a slug keeps.
pub open spec fn is_slug_char(c: char) -> bool {
    ('a' <= c && c <= 'z') || ('0' <= c && c <= '9')
}

/// The length of the run of characters that a slug drops at the start of `s`.
pub open spec fn dropped_run(s: Seq<char>) -> nat
    decreases s.len(),
{
    if s.len() > 0 && !is_slug_char(s[0]) {
        1 + dropped_run(s.drop_first())
    } else {
        0
    }
}

/// `s` with each run of characters other than `a`-`z` and `0`-`9` replaced
/// by one `-`.
pub open spec fn dash_runs(s: Seq<char>) -> Seq<char>
    decreases s.len(),
{
    if s.len() == 0 {
        s
    } else if is_slug_char(s[0]) {
        seq![s[0]] + dash_runs(s.drop_first())
    } else {
        proof {
            lemma_dropped_run(s);
        }
        seq!['-'] + dash_runs(s.skip(dropped_run(s) as int))
    }
}

pub proof fn lemma_dropped_run(s: Seq<char>)
    ensures
        dropped_run(s) <= s.len(),
        s.len() > 0 && !is_slug_char(s[0]) ==> dropped_run(s) >= 1,
        forall|i: int| 0 <= i < dropped_run(s) ==> !is_slug_char(#[trigger] s[i]),
        dropped_run(s) < s.len() ==> is_slug_char(s[dropped_run(s) as int]),
    decreases s.len(),
{
    if s.len() > 0 && !is_slug_char(s[0]) {
        let t = s.drop_first();
        lemma_dropped_run(t);
        assert forall|i: int| 0 <= i < dropped_run(s) implies !is_slug_char(#[trigger] s[i]) by {
            if i > 0 {
                assert(s[i] == t[i - 1]);
            }
        }
        if dropped_run(s) < s.len() {
            assert(s[dropped_run(s) as int] == t[dropped_run(t) as int]);
        }
    }
}

/// `s` without its leading `-`.
pub open spec fn strip_leading_dashes(s: Seq<char>) -> Seq<char>
    decreases s.len(),
{
    if s.len() > 0 && s[0] == '-' {
        strip_leading_dashes(s.drop_first())
    } else {
        s
    }
}

/// `s` without its trailing `-`.
pub open spec fn strip_trailing_dashes(s: Seq<char>) -> Seq<char>
    decreases s.len(),
{
    if s.len() > 0 && s.last() == '-' {
        strip_trailing_dashes(s.drop_last())
    } else {
        s
    }
}

/// The slug of a text: lower-cased, each run of other characters than
/// `a`-`z` and `0`-`9` made one `-`, no `-` at either end, at most 50
/// characters (and again no `-` at the end).
pub open spec fn slug_of(text: Seq<char>) -> Seq<char> {
    let s = strip_trailing_dashes(strip_leading_dashes(dash_runs(crate::text::lowercase(text))));
    if s.len() > 50 {
        strip_trailing_dashes(s.take(50))
    } else {
        s
    }
}

/// `dash_runs(s)`.
fn dash_runs_chars(s: &[char]) -> (r: Vec<char>)
    ensures
        r@ == dash_runs(s@),
{
    let mut out: Vec<char> = Vec::new();
    let mut i: usize = 0;
    assert(s@.skip(0) =~= s@);
    while i < s.len()
        invariant
            i <= s@.len(),
            out@ + dash_runs(s@.skip(i as int)) == dash_runs(s@),
        decreases s@.len() - i,
    {
        let ghost t = s@.skip(i as int);
        let ghost o = out@;
        let c = s[i];
        assert(t[0] == c);
        if ('a' <= c && c <= 'z') || ('0' <= c && c <= '9') {
            out.push(c);
            proof {
                assert(t.drop_first() =~= s@.skip(i + 1));
                assert(o + (seq![c] + dash_runs(s@.skip(i + 1))) =~= out@ + dash_runs(s@.skip(i + 1)));
            }
            i = i + 1;
        } else {
            let mut j = i + 1;
            proof {
                lemma_dropped_run(t);
            }
            while j < s.len() && !(('a' <= s[j] && s[j] <= 'z') || ('0' <= s[j] && s[j] <= '9'))
                invariant
                    i < j <= s@.len(),
                    t == s@.skip(i as int),
                    forall|k: int| i <= k < j ==> !is_slug_char(#[trigger] s@[k]),
                decreases s@.len() - j,
            {
                j = j + 1;
            }
            proof {
                lemma_dropped_run(t);
                lemma_dropped_run_is(t, (j - i) as int);
                assert(t.skip((j - i) as int) =~= s@.skip(j as int));
            }
            out.push('-');
            proof {
                assert(o + (seq!['-'] + dash_runs(s@.skip(j as int))) =~= out@ + dash_runs(
                    s@.skip(j as int),
                ));
            }
            i = j;
        }
    }
    proof {
        assert(out@ + dash_runs(s@.skip(i as int)) =~= out@);
    }
    out
}

proof fn lemma_dropped_run_is(t: Seq<char>, n: int)
    requires
        0 <= n <= t.len(),
        forall|k: int| 0 <= k < n ==> !is_slug_char(#[trigger] t[k]),
        n == t.len() || is_slug_char(t[n]),
    ensures
        dropped_run(t) == n,
    decreases n,
{
    if n > 0 {
        assert forall|k: int| 0 <= k < n - 1 implies !is_slug_char(#[trigger] t.drop_first()[k]) by {
            assert(t.drop_first()[k] == t[k + 1]);
        }
        if n < t.len() {
            assert(t.drop_first()[n - 1] == t[n]);
        }
        lemma_dropped_run_is(t.drop_first(), n - 1);
    } else if t.len() > 0 {
        assert(is_slug_char(t[0]));
    }
}

/// The number of leading `-` of `s`.
fn leading_dashes(s: &[char]) -> (n: usize)
    ensures
        n <= s@.len(),
        strip_leading_dashes(s@) == s@.skip(n as int),
{
    let mut n: usize = 0;
    assert(s@.skip(0) =~= s@);
    while n < s.len() && s[n] == '-'
        invariant
            n <= s@.len(),
            strip_leading_dashes(s@) == strip_leading_dashes(s@.skip(n as int)),
        decreases s@.len() - n,
    {
        assert(s@.skip(n as int).drop_first() =~= s@.skip(n + 1));
        n = n + 1;
    }
    n
}

/// The length of `s` without its trailing `-`.
fn trailing_dash_cut(s: &[char], end: usize) -> (n: usize)
    requires
        end <= s@.len(),
    ensures
        n <= end,
        strip_trailing_dashes(s@.take(end as int)) == s@.take(n as int),
{
    let mut n = end;
    while n > 0 && s[n - 1] == '-'
        invariant
            n <= end <= s@.len(),
            strip_trailing_dashes(s@.take(end as int)) == strip_trailing_dashes(s@.take(n as int)),
        decreases n,
    {
        assert(s@.take(n as int).drop_last() =~= s@.take(n - 1));
        n = n - 1;
    }
    n
}

/// The slug of `text`.
fn slug_text(text: &str) -> (r: Vec<char>)
    ensures
        r@ == slug_of(text@),
{
    let lowered = crate::text::to_lowercase(text);
    let lc = crate::text::chars_of(lowered.as_str());
    let d = dash_runs_chars(lc.as_slice());
    let a = leading_dashes(d.as_slice());
    let rest = crate::text::slice_range(d.as_slice(), a, d.len());
    assert(rest@ =~= d@.skip(a as int));
    let b = trailing_dash_cut(rest.as_slice(), rest.len());
    assert(rest@.take(rest@.len() as int) =~= rest@);
    let s = crate::text::slice_range(rest.as_slice(), 0, b);
    assert(s@ =~= rest@.take(b as int));
    if s.len() > 50 {
        let c = trailing_dash_cut(s.as_slice(), 50);
        let r = crate::text::slice_range(s.as_slice(), 0, c);
        assert(r@ =~= s@.take(c as int));
        r
    } else {
        s
    }
}

/// The first characters of a session id that make up to eight bytes.
pub open spec fn id_prefix(id: Seq<char>) -> Seq<char> {
    let b = if crate::text::byte_len(id) < 8 {
        crate::text::byte_len(id)
    } else {
        8
    };
    id.take(crate::text::chars_for_bytes(id, b, 0))
}

/// The byte length at which an id's prefix is cut.
pub open spec fn id_cut(id: Seq<char>) -> nat {
    if crate::text::byte_len(id) < 8 {
        crate::text::byte_len(id)
    } else {
        8
    }
}

/// The slug of a session: of `title`, else of the metadata's title, else
/// the id's prefix; the id's prefix too where the slug comes out empty.
pub open spec fn session_slug(id: Seq<char>, title: Option<Seq<char>>, metadata: Seq<(String, JsonValue)>) -> Seq<char> {
    let text = match title {
        Some(t) => t,
        None => match meta_text(metadata, "title"@) {
            Some(t) => t,
            None => Seq::empty(),
        },
    };
    if text.len() == 0 {
        id_prefix(id)
    } else if slug_of(text).len() == 0 {
        id_prefix(id)
    } else {
        slug_of(text)
    }
}

/// Whether two sessions agree on all but their update and archive times.
pub open spec fn same_but_times(a: &Session, b: &Session) -> bool {
    &&& a.id == b.id
    &&& a.created_at == b.created_at
    &&& a.messages == b.messages
    &&& a.context_files == b.context_files
    &&& a.working_directory == b.working_directory
    &&& a.metadata == b.metadata
    &&& a.playbook == b.playbook
    &&& a.file_changes == b.file_changes
    &&& a.channel == b.channel
    &&& a.chat_type == b.chat_type
    &&& a.channel_user_id == b.channel_user_id
    &&& a.thread_id == b.thread_id
    &&& a.delivery_context == b.delivery_context
    &&& a.last_activity == b.last_activity
    &&& a.workspace_confirmed == b.workspace_confirmed
    &&& a.owner_id == b.owner_id
    &&& a.parent_id == b.parent_id
    &&& a.subagent_sessions == b.subagent_sessions
    &&& a.slug == b.slug
}

/// An exact copy of an optional text.
fn copy_opt(o: &Option<String>) -> (r: Option<String>)
    ensures
        r == *o,
{
    match o {
        Some(s) => Some(s.clone()),
        None => None,
    }
}

/// An exact copy of a file change.
fn copy_change(fc: &FileChange) -> (r: FileChange)
    ensures
        r == *fc,
{
    FileChange {
        id: fc.id.clone(),
        change_type: fc.change_type,
        file_path: fc.file_path.clone(),
        old_path: copy_opt(&fc.old_path),
        timestamp: fc.timestamp,
        lines_added: fc.lines_added,
        lines_removed: fc.lines_removed,
        tool_call_id: copy_opt(&fc.tool_call_id),
        session_id: copy_opt(&fc.session_id),
        description: copy_opt(&fc.description),
    }
}

proof fn lemma_merge_target(fcs: Seq<FileChange>, fc: FileChange)
    ensures
        match merge_target(fcs, fc) {
            Some(i) => 0 <= i < fcs.len() && fcs[i].file_path@ == fc.file_path@ && fcs[i].change_type
                == FileChangeType::Modified && fc.change_type == FileChangeType::Modified,
            None => true,
        },
    decreases fcs.len(),
{
    if fc.change_type == FileChangeType::Modified && fcs.len() > 0 {
        lemma_merge_target(fcs.drop_first(), fc);
    }
}

proof fn lemma_merge_target_at(fcs: Seq<FileChange>, fc: FileChange, i: int)
    requires
        fc.change_type == FileChangeType::Modified,
        0 <= i <= fcs.len(),
        forall|k: int| 0 <= k < i ==> !((#[trigger] fcs[k]).file_path@ == fc.file_path@ && fcs[k].change_type
            == FileChangeType::Modified),
    ensures
        i < fcs.len() && fcs[i].file_path@ == fc.file_path@ && fcs[i].change_type == FileChangeType::Modified
            ==> merge_target(fcs, fc) == Some(i),
        i == fcs.len() ==> merge_target(fcs, fc) is None,
    decreases i,
{
    if i > 0 {
        let t = fcs.drop_first();
        assert forall|k: int| 0 <= k < i - 1 implies !((#[trigger] t[k]).file_path@ == fc.file_path@
            && t[k].change_type == FileChangeType::Modified) by {
            assert(t[k] == fcs[k + 1]);
        }
        if i < fcs.len() {
            assert(t[i - 1] == fcs[i]);
        }
        lemma_merge_target_at(t, fc, i - 1);
        assert(!(fcs[0].file_path@ == fc.file_path@ && fcs[0].change_type == FileChangeType::Modified));
    }
}

/// Whether `a` and `b` hold the same text.
fn same_text(a: &String, b: &String) -> (r: bool)
    ensures
        r == (a@ == b@),
{
    str_eq(a.as_str(), b.as_str())
}

impl Session {
    /// A new session with a fresh twelve-character id, created now, on the
    /// `cli` channel as a direct chat, with an empty playbook and nothing
    /// else.
    pub fn new() -> (r: Self)
        ensures
            r.id@.len() == 12,
            r.messages@.len() == 0,
            r.context_files@.len() == 0,
            r.working_directory is None,
            r.metadata@.len() == 0,
            r.playbook matches Some(p) && p@.len() == 0,
            r.file_changes@.len() == 0,
            r.channel@ == "cli"@,
            r.chat_type@ == "direct"@,
            r.channel_user_id@.len() == 0,
            r.thread_id is None,
            r.delivery_context@.len() == 0,
            r.last_activity is None,
            !r.workspace_confirmed,
            r.owner_id is None,
            r.parent_id is None,
            r.subagent_sessions@.len() == 0,
            r.time_archived is None,
            r.slug is None,
    {
        Session {
            id: fresh_id(12),
            created_at: utc_now(),
            updated_at: utc_now(),
            messages: Vec::new(),
            context_files: Vec::new(),
            working_directory: None,
            metadata: Vec::new(),
            playbook: Some(Vec::new()),
            file_changes: Vec::new(),
            channel: owned("cli"),
            chat_type: owned("direct"),
            channel_user_id: String::new(),
            thread_id: None,
            delivery_context: Vec::new(),
            last_activity: None,
            workspace_confirmed: false,
            owner_id: None,
            parent_id: None,
            subagent_sessions: Vec::new(),
            time_archived: None,
            slug: None,
        }
    }

    /// Total lines added across all file changes.
    pub fn summary_additions(&self) -> (r: u64)
        requires
            lines_added_total(self.file_changes@) <= u64::MAX,
        ensures
            r == lines_added_total(self.file_changes@),
    {
        let mut total: u64 = 0;
        let mut i: usize = 0;
        while i < self.file_changes.len()
            invariant
                i <= self.file_changes@.len(),
                lines_added_total(self.file_changes@) <= u64::MAX,
                total == lines_added_total(self.file_changes@.take(i as int)),
            decreases self.file_changes@.len() - i,
        {
            proof {
                assert(self.file_changes@.take(i + 1).drop_last() =~= self.file_changes@.take(i as int));
                lemma_totals_grow(self.file_changes@, i + 1);
            }
            total = total + self.file_changes[i].lines_added;
            i = i + 1;
        }
        assert(self.file_changes@.take(i as int) =~= self.file_changes@);
        total
    }

    /// Total lines removed across all file changes.
    pub fn summary_deletions(&self) -> (r: u64)
        requires
            lines_removed_total(self.file_changes@) <= u64::MAX,
        ensures
            r == lines_removed_total(self.file_changes@),
    {
        let mut total: u64 = 0;
        let mut i: usize = 0;
        while i < self.file_changes.len()
            invariant
                i <= self.file_changes@.len(),
                lines_removed_total(self.file_changes@) <= u64::MAX,
                total == lines_removed_total(self.file_changes@.take(i as int)),
            decreases self.file_changes@.len() - i,
        {
            proof {
                assert(self.file_changes@.take(i + 1).drop_last() =~= self.file_changes@.take(i as int));
                lemma_totals_grow(self.file_changes@, i + 1);
            }
            total = total + self.file_changes[i].lines_removed;
            i = i + 1;
        }
        assert(self.file_changes@.take(i as int) =~= self.file_changes@);
        total
    }

    /// Number of distinct files changed.
    pub fn summary_files(&self) -> (r: usize)
        ensures
            r == distinct_files(self.file_changes@),
    {
        let ghost fcs = self.file_changes@;
        let mut n: usize = 0;
        let mut i: usize = 0;
        while i < self.file_changes.len()
            invariant
                i <= fcs.len(),
                fcs == self.file_changes@,
                n == distinct_files(fcs.take(i as int)),
                n <= i,
            decreases fcs.len() - i,
        {
            let ghost pre = fcs.take(i as int);
            proof {
                assert(fcs.take(i + 1).drop_last() =~= pre);
                lemma_distinct_bound(pre);
            }
            let mut seen = false;
            let mut j: usize = 0;
            while j < i
                invariant
                    j <= i < fcs.len(),
                    fcs == self.file_changes@,
                    pre == fcs.take(i as int),
                    seen == exists|k: int| 0 <= k < j && (#[trigger] fcs[k]).file_path@ == fcs[i as int].file_path@,
                decreases i - j,
            {
                if same_text(&self.file_changes[j].file_path, &self.file_changes[i].file_path) {
                    seen = true;
                }
                j = j + 1;
            }
            proof {
                if seen {
                    let k = choose|k: int| 0 <= k < i && (#[trigger] fcs[k]).file_path@ == fcs[i as int].file_path@;
                    assert(pre[k] == fcs[k]);
                    assert(has_path(pre, fcs[i as int].file_path@));
                } else {
                    assert forall|k: int| 0 <= k < pre.len() implies !((#[trigger] pre[k]).file_path@
                        == fcs[i as int].file_path@) by {
                        assert(pre[k] == fcs[k]);
                    }
                }
                assert(fcs.take(i + 1).last() == fcs[i as int]);
            }
            if !seen {
                n = n + 1;
            }
            i = i + 1;
        }
        assert(fcs.take(i as int) =~= fcs);
        n
    }

    /// Soft-archives the session now.
    pub fn archive(&mut self)
        ensures
            final(self).time_archived is Some,
            same_but_times(final(self), old(self)),
    {
        self.time_archived = Some(utc_now());
        self.updated_at = utc_now();
    }

    /// Restores an archived session.
    pub fn unarchive(&mut self)
        ensures
            final(self).time_archived is None,
            same_but_times(final(self), old(self)),
    {
        self.time_archived = None;
        self.updated_at = utc_now();
    }

    /// Whether the session is archived.
    pub fn is_archived(&self) -> (r: bool)
        ensures
            r == self.time_archived is Some,
    {
        self.time_archived.is_some()
    }

    /// A URL-friendly slug of `title`, or of the session's title where none
    /// is given; the id's first eight bytes where that yields nothing.
    pub fn generate_slug(&self, title: Option<&str>) -> (r: String)
        requires
            crate::text::is_boundary(self.id@, id_cut(self.id@)),
        ensures
            r@ == session_slug(
                self.id@,
                match title {
                    Some(t) => Some(t@),
                    None => None,
                },
                self.metadata@,
            ),
    {
        let meta = crate::json::fields_get_str(&self.metadata, "title");
        let text: &str = match title {
            Some(t) => t,
            None => match meta {
                Some(t) => t,
                None => "",
            },
        };
        proof {
            reveal_strlit("");
        }
        let idlen = crate::text::str_byte_len(self.id.as_str());
        let cut = if idlen < 8 {
            idlen
        } else {
            8
        };
        if crate::text::chars_of(text).len() == 0 {
            return match crate::text::byte_prefix(self.id.as_str(), cut) {
                Some(p) => p,
                None => String::new(),
            };
        }
        let slug = slug_text(text);
        if slug.len() == 0 {
            match crate::text::byte_prefix(self.id.as_str(), cut) {
                Some(p) => p,
                None => String::new(),
            }
        } else {
            crate::text::string_of(slug.as_slice())
        }
    }

    /// Records a file change: a modification of a file whose modification is
    /// already recorded is folded into that record (lines added up, time
    /// and description taken over); any other change replaces the records
    /// of its file and is added, stamped with this session, now.
    pub fn add_file_change(&mut self, file_change: FileChange)
        requires
            merge_target(old(self).file_changes@, file_change) matches Some(i) ==> old(self).file_changes@[i].lines_added
                + file_change.lines_added <= u64::MAX && old(self).file_changes@[i].lines_removed
                + file_change.lines_removed <= u64::MAX,
        ensures
            final(self).file_changes@ == changes_after(old(self).file_changes@, file_change, old(self).id),
            merge_target(old(self).file_changes@, file_change) is Some ==> final(self).updated_at == old(
                self,
            ).updated_at,
            final(self).id == old(self).id,
            final(self).messages == old(self).messages,
            final(self).metadata == old(self).metadata,
            final(self).time_archived == old(self).time_archived,
    {
        let ghost fcs = self.file_changes@;
        if file_change.change_type == FileChangeType::Modified {
            let mut i: usize = 0;
            while i < self.file_changes.len()
                invariant
                    i <= fcs.len(),
                    fcs == self.file_changes@,
                    fcs == old(self).file_changes@,
                    *self == *old(self),
                    file_change.change_type == FileChangeType::Modified,
                    merge_target(fcs, file_change) matches Some(j) ==> fcs[j].lines_added
                        + file_change.lines_added <= u64::MAX && fcs[j].lines_removed
                        + file_change.lines_removed <= u64::MAX,
                    forall|k: int| 0 <= k < i ==> !((#[trigger] fcs[k]).file_path@ == file_change.file_path@
                        && fcs[k].change_type == FileChangeType::Modified),
                decreases fcs.len() - i,
            {
                if same_text(&self.file_changes[i].file_path, &file_change.file_path)
                    && self.file_changes[i].change_type == FileChangeType::Modified {
                    proof {
                        lemma_merge_target_at(fcs, file_change, i as int);
                    }
                    let old_fc = copy_change(&self.file_changes[i]);
                    let merged = FileChange {
                        lines_added: old_fc.lines_added + file_change.lines_added,
                        lines_removed: old_fc.lines_removed + file_change.lines_removed,
                        timestamp: file_change.timestamp,
                        description: file_change.description,
                        ..old_fc
                    };
                    self.file_changes.set(i, merged);
                    return;
                }
                i = i + 1;
            }
            proof {
                lemma_merge_target_at(fcs, file_change, i as int);
            }
        }
        let mut kept: Vec<FileChange> = Vec::new();
        std::mem::swap(&mut kept, &mut self.file_changes);
        let mut i: usize = 0;
        while i < kept.len()
            invariant
                i <= kept@.len(),
                kept@ == fcs,
                fcs == old(self).file_changes@,
                self.file_changes@ == without_file(fcs.take(i as int), file_change.file_path@),
                self.id == old(self).id,
                self.messages == old(self).messages,
                self.metadata == old(self).metadata,
                self.time_archived == old(self).time_archived,
                merge_target(fcs, file_change) is None,
            decreases kept@.len() - i,
        {
            proof {
                assert(fcs.take(i + 1).drop_last() =~= fcs.take(i as int));
                assert(fcs.take(i + 1).last() == fcs[i as int]);
            }
            if !same_text(&kept[i].file_path, &file_change.file_path) {
                let c = copy_change(&kept[i]);
                self.file_changes.push(c);
            }
            i = i + 1;
        }
        assert(fcs.take(i as int) =~= fcs);
        let mut fc = file_change;
        fc.session_id = Some(self.id.clone());
        self.file_changes.push(fc);
        self.updated_at = utc_now();
    }

    /// The counts and line totals of the session's file changes.
    pub fn get_file_changes_summary(&self) -> (r: FileChangesSummary)
        requires
            summary_fits(self.file_changes@),
        ensures
            r == changes_summary(self.file_changes@),
    {
        let ghost fcs = self.file_changes@;
        let mut created: usize = 0;
        let mut modified: usize = 0;
        let mut deleted: usize = 0;
        let mut renamed: usize = 0;
        let mut i: usize = 0;
        while i < self.file_changes.len()
            invariant
                i <= fcs.len(),
                fcs == self.file_changes@,
                created == count_of_type(fcs.take(i as int), FileChangeType::Created),
                modified == count_of_type(fcs.take(i as int), FileChangeType::Modified),
                deleted == count_of_type(fcs.take(i as int), FileChangeType::Deleted),
                renamed == count_of_type(fcs.take(i as int), FileChangeType::Renamed),
                created <= i && modified <= i && deleted <= i && renamed <= i,
            decreases fcs.len() - i,
        {
            proof {
                assert(fcs.take(i + 1).drop_last() =~= fcs.take(i as int));
                assert(fcs.take(i + 1).last() == fcs[i as int]);
            }
            match self.file_changes[i].change_type {
                FileChangeType::Created => created = created + 1,
                FileChangeType::Modified => modified = modified + 1,
                FileChangeType::Deleted => deleted = deleted + 1,
                FileChangeType::Renamed => renamed = renamed + 1,
            }
            i = i + 1;
        }
        assert(fcs.take(i as int) =~= fcs);
        let added = self.summary_additions();
        let removed = self.summary_deletions();
        let a: i64 = added as i64;
        let b: i64 = removed as i64;
        FileChangesSummary {
            total: self.file_changes.len(),
            created,
            modified,
            deleted,
            renamed,
            total_lines_added: added,
            total_lines_removed: removed,
            net_lines: a - b,
        }
    }

    /// The metadata that lists the session, with `total_tokens` as its
    /// token count: its title, summary and tags from the session's metadata
    /// and the totals of its file changes.
    pub fn get_metadata(&self, total_tokens: u64) -> (r: SessionMetadata)
        requires
            lines_added_total(self.file_changes@) <= u64::MAX,
            lines_removed_total(self.file_changes@) <= u64::MAX,
        ensures
            r.id == self.id,
            r.created_at == self.created_at,
            r.updated_at == self.updated_at,
            r.message_count == self.messages@.len(),
            r.total_tokens == total_tokens,
            opt_view(r.title) == meta_text(self.metadata@, "title"@),
            opt_view(r.summary) == meta_text(self.metadata@, "summary"@),
            r.tags@.map_values(|t: String| t@) == meta_tags(self.metadata@),
            r.working_directory == self.working_directory,
            !r.has_session_model,
            r.owner_id == self.owner_id,
            r.summary_additions == lines_added_total(self.file_changes@),
            r.summary_deletions == lines_removed_total(self.file_changes@),
            r.summary_files == distinct_files(self.file_changes@),
            r.channel == self.channel,
            r.channel_user_id == self.channel_user_id,
            r.thread_id == self.thread_id,
    {
        let title = match crate::json::fields_get_str(&self.metadata, "title") {
            Some(t) => Some(owned(t)),
            None => None,
        };
        let summary = match crate::json::fields_get_str(&self.metadata, "summary") {
            Some(t) => Some(owned(t)),
            None => None,
        };
        let files = self.summary_files();
        proof {
            lemma_distinct_bound(self.file_changes@);
        }
        SessionMetadata {
            id: self.id.clone(),
            created_at: self.created_at,
            updated_at: self.updated_at,
            message_count: self.messages.len(),
            total_tokens,
            title,
            summary,
            tags: metadata_tags(&self.metadata),
            working_directory: copy_opt(&self.working_directory),
            has_session_model: false,
            owner_id: copy_opt(&self.owner_id),
            summary_additions: self.summary_additions(),
            summary_deletions: self.summary_deletions(),
            summary_files: files as u64,
            channel: self.channel.clone(),
            channel_user_id: self.channel_user_id.clone(),
            thread_id: copy_opt(&self.thread_id),
        }
    }
}

/// The tags that a session's metadata lists.
fn metadata_tags(m: &Vec<(String, JsonValue)>) -> (r: Vec<String>)
    ensures
        r@.map_values(|t: String| t@) == meta_tags(m@),
{
    let mut out: Vec<String> = Vec::new();
    match crate::json::fields_get(m, "tags") {
        Some(JsonValue::Array(items)) => {
            proof {
                crate::json::lemma_array_view(*items);
            }
            let ghost iv = crate::json::views(items@);
            assert(all_texts(iv.take(0)) == Some(out@.map_values(|t: String| t@))) by {
                assert(iv.take(0) =~= Seq::<Json>::empty());
                assert(out@.map_values(|t: String| t@) =~= Seq::<Seq<char>>::empty());
            }
            let mut i: usize = 0;
            while i < items.len()
                invariant
                    i <= items@.len(),
                    iv == crate::json::views(items@),
                    get(Json::Object(crate::json::field_views(m@)), "tags"@) == Some(Json::Array(iv)),
                    all_texts(iv.take(i as int)) == Some(out@.map_values(|t: String| t@)),
                decreases items@.len() - i,
            {
                proof {
                    assert(iv.take(i + 1).drop_last() =~= iv.take(i as int));
                    assert(iv.take(i + 1).last() == items@[i as int]@);
                }
                match items[i].as_str() {
                    Some(t) => {
                        let ghost before = out@;
                        out.push(owned(t));
                        proof {
                            assert(out@.map_values(|t: String| t@) =~= before.map_values(|t: String| t@).push(
                                t@,
                            ));
                        }
                    },
                    None => {
                        proof {
                            lemma_all_texts_stop(iv, i as int);
                        }
                        let empty: Vec<String> = Vec::new();
                        assert(empty@.map_values(|t: String| t@) =~= Seq::<Seq<char>>::empty());
                        return empty;
                    },
                }
                i = i + 1;
            }
            proof {
                assert(iv.take(items@.len() as int) =~= iv);
            }
        },
        _ => {},
    }
    proof {
        assert(out@.map_values(|t: String| t@) =~= meta_tags(m@)) by {
            if out@.len() == 0 {
            }
        }
    }
    out
}

proof fn lemma_all_texts_stop(items: Seq<Json>, i: int)
    requires
        0 <= i < items.len(),
        !(items[i] is Str),
    ensures
        all_texts(items) is None,
    decreases items.len(),
{
    if i < items.len() - 1 {
        lemma_all_texts_stop(items.drop_last(), i);
    }
}

impl Default for Session {
    fn default() -> (r: Self)
        ensures
            r.id@.len() == 12,
            r.file_changes@.len() == 0,
            r.time_archived is None,
    {
        Session::new()
    }
}

/// Where no two records are of the same file, the number of files changed
/// is the number of records.
pub proof fn law_files_counted_once(fcs: Seq<FileChange>)
    requires
        files_distinct(fcs),
    ensures
        distinct_files(fcs) == fcs.len(),
    decreases fcs.len(),
{
    if fcs.len() > 0 {
        let d = fcs.drop_last();
        assert forall|i: int, j: int| 0 <= i < j < d.len() implies (#[trigger] d[i]).file_path@ != (#[trigger] d[j]).file_path@ by {
            assert(d[i] == fcs[i] && d[j] == fcs[j]);
        }
        law_files_counted_once(d);
        if has_path(d, fcs.last().file_path@) {
            let m = choose|m: int| 0 <= m < d.len() && (#[trigger] d[m]).file_path@ == fcs.last().file_path@;
            assert(fcs[m] == d[m]);
            assert(fcs[m].file_path@ != fcs[fcs.len() - 1].file_path@);
        }
    }
}

// ---------------------------------------------------------------------------
// Users
// ---------------------------------------------------------------------------

/// An authenticated user account.
#[derive(Debug)]
pub struct User {
    pub id: uuid::Uuid,
    pub username: String,
    pub email: Option<String>,
    pub password_hash: String,
    pub created_at: Timestamp,
    pub updated_at: Timestamp,
    pub role: String,
}

impl User {
    /// A new account with a fresh id, created now, with the `user` role and
    /// no e-mail address.
    pub fn new(username: String, password_hash: String) -> (r: Self)
        ensures
            r.username == username,
            r.password_hash == password_hash,
            r.email is None,
            r.role@ == "user"@,
    {
        User {
            id: new_uuid(),
            username,
            email: None,
            password_hash,
            created_at: utc_now(),
            updated_at: utc_now(),
            role: owned("user"),
        }
    }

    /// Sets the update time to now.
    pub fn touch(&mut self)
        ensures
            final(self).id == old(self).id,
            final(self).username == old(self).username,
            final(self).email == old(self).email,
            final(self).password_hash == old(self).password_hash,
            final(self).created_at == old(self).created_at,
            final(self).role == old(self).role,
    {
        self.updated_at = utc_now();
    }
}

} // verus!
