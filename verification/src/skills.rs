//! Skills: markdown files with a frontmatter block that inject knowledge and
//! instructions into the agent's context on demand.
//!
//! Skills come from (in priority order):
//! - `<project>/.opendev/skills/` (project local, highest priority)
//! - `~/.opendev/skills/` (user global)
//! - the built-in skills
//!
//! A skill file looks like:
//! ```markdown
//! ---
//! name: commit
//! description: Git commit best practices
//! namespace: default
//! ---
//!
//! # Git Commit Skill
//! When making commits: ...
//! ```
//!
//! Finding and reading the files is the caller's part; this module decides
//! what the files hold and which of them wins.
use vstd::prelude::*;

use crate::paths::{components, path_components, path_starts_with};
use crate::text::{
    chars_has_prefix, chars_occur_at, chars_of, find_char, has_prefix, occurs_at, owned,
    push_str, replace_all, replace_chars, slice_range, split_chars, split_on, str_eq,
    string_of, trim, trim_chars, first_index, seq_lt, join_lines,
};

verus! {

// ---------------------------------------------------------------------------
// The frontmatter block
// ---------------------------------------------------------------------------

/// Whether `k` is where the block's closing `\n---` starts.
pub open spec fn closes_block(s: Seq<char>, k: int) -> bool {
    4 <= k && occurs_at(s, "\n---"@, k)
}

/// Whether `k` is the first place where the block can close.
pub open spec fn first_close(s: Seq<char>, k: int) -> bool {
    &&& closes_block(s, k)
    &&& forall|j: int| 4 <= j < k ==> !occurs_at(s, "\n---"@, j)
}

/// Whether `s` opens with a frontmatter block: `---\n`, then the block, then
/// `\n---`.
pub open spec fn has_frontmatter(s: Seq<char>) -> bool {
    has_prefix(s, "---\n"@) && exists|k: int| first_close(s, k)
}

/// Where the block closes.
pub open spec fn block_end(s: Seq<char>) -> int {
    choose|k: int| first_close(s, k)
}

/// The text of the frontmatter block.
pub open spec fn frontmatter_body(s: Seq<char>) -> Seq<char> {
    s.subrange(4, block_end(s))
}

/// The first place at or after `k` that holds no `\n`.
pub open spec fn skip_newlines(s: Seq<char>, k: int) -> int
    decreases s.len() - k,
{
    if 0 <= k < s.len() && s[k] == '\n' {
        skip_newlines(s, k + 1)
    } else {
        k
    }
}

/// `s` without its frontmatter block and the newlines right after it.
pub open spec fn without_frontmatter(s: Seq<char>) -> Seq<char> {
    if has_frontmatter(s) {
        s.skip(skip_newlines(s, block_end(s) + 4))
    } else {
        s
    }
}

/// Where the frontmatter block of `s` closes, if `s` has one.
fn find_block_end(s: &[char]) -> (r: Option<usize>)
    ensures
        match r {
            Some(k) => has_frontmatter(s@) && block_end(s@) == k as int && k + 4 <= s@.len(),
            None => !has_frontmatter(s@),
        },
{
    proof {
        reveal_strlit("---\n");
        reveal_strlit("\n---");
    }
    let open = chars_of("---\n");
    let close = chars_of("\n---");
    if !chars_has_prefix(s, open.as_slice()) {
        return None;
    }
    let mut k: usize = 4;
    while s.len() >= 4 && k <= s.len() - 4
        invariant
            4 <= k,
            has_prefix(s@, "---\n"@),
            close@ == "\n---"@,
            "\n---"@.len() == 4,
            forall|j: int| 4 <= j < k ==> !occurs_at(s@, "\n---"@, j),
        decreases s@.len() - k,
    {
        if chars_occur_at(s, close.as_slice(), k) {
            proof {
                assert(first_close(s@, k as int));
                let e = block_end(s@);
                assert(first_close(s@, e));
                if e < k {
                    assert(!occurs_at(s@, "\n---"@, e));
                }
                if k < e {
                    assert(!occurs_at(s@, "\n---"@, k as int));
                }
            }
            return Some(k);
        }
        k = k + 1;
    }
    proof {
        assert forall|j: int| !first_close(s@, j) by {
            if first_close(s@, j) {
                assert(occurs_at(s@, "\n---"@, j));
                assert(j + 4 <= s@.len());
            }
        }
    }
    None
}

/// Removes the frontmatter block and the newlines that follow it.
pub fn strip_frontmatter(content: &str) -> (r: String)
    ensures
        r@ == without_frontmatter(content@),
{
    let cs = chars_of(content);
    match find_block_end(cs.as_slice()) {
        Some(k) => {
            let n = cs.len();
            assert(k + 4 <= n);
            let mut j = k + 4;
            while j < cs.len() && cs[j] == '\n'
                invariant
                    k + 4 <= j <= cs@.len(),
                    skip_newlines(cs@, j as int) == skip_newlines(cs@, k + 4),
                decreases cs@.len() - j,
            {
                j = j + 1;
            }
            let rest = slice_range(cs.as_slice(), j, cs.len());
            assert(rest@ =~= without_frontmatter(content@));
            string_of(rest.as_slice())
        },
        None => owned(content),
    }
}

// ---------------------------------------------------------------------------
// The flat `key: value` lines of a block
// ---------------------------------------------------------------------------

/// A value without the quotes around it.
pub open spec fn unquote(v: Seq<char>) -> Seq<char> {
    if v.len() >= 2 && ((v[0] == '"' && v.last() == '"') || (v[0] == '\'' && v.last() == '\'')) {
        v.subrange(1, v.len() - 1)
    } else {
        v
    }
}

/// Whether a value is a quote character alone (on which the parser fails).
pub open spec fn lone_quote(v: Seq<char>) -> bool {
    v.len() == 1 && (v[0] == '"' || v[0] == '\'')
}

/// The key and the raw value of a line, where it holds a pair: not blank, not
/// a `#` comment, and with a `:`.
pub open spec fn line_pair(l: Seq<char>) -> Option<(Seq<char>, Seq<char>)> {
    let t = trim(l);
    if t.len() == 0 || t[0] == '#' {
        None
    } else {
        match first_index(t, ':') {
            Some(i) => Some((trim(t.take(i)), trim(t.skip(i + 1)))),
            None => None,
        }
    }
}

/// The entry of one line: its key and its unquoted value.
pub open spec fn yaml_line(l: Seq<char>) -> Option<(Seq<char>, Seq<char>)> {
    match line_pair(l) {
        Some(kv) => Some((kv.0, unquote(kv.1))),
        None => None,
    }
}

/// The entries of a block's lines; a later line wins over an earlier one
/// with the same key.
pub open spec fn yaml_map_of(lines: Seq<Seq<char>>) -> Map<Seq<char>, Seq<char>>
    decreases lines.len(),
{
    if lines.len() == 0 {
        Map::empty()
    } else {
        let m = yaml_map_of(lines.drop_last());
        match yaml_line(lines.last()) {
            Some(kv) => m.insert(kv.0, kv.1),
            None => m,
        }
    }
}

/// The entries of a block.
pub open spec fn yaml_map(text: Seq<char>) -> Map<Seq<char>, Seq<char>> {
    yaml_map_of(split_on(text, '\n'))
}

/// Whether some line of `text` holds a lone quote as its value.
pub open spec fn yaml_fails(text: Seq<char>) -> bool {
    exists|i: int|
        0 <= i < split_on(text, '\n').len() && (#[trigger] line_pair(split_on(text, '\n')[i])
            matches Some(kv) && lone_quote(kv.1))
}

/// The map held by an association list without repeated keys.
pub open spec fn assoc_map(s: Seq<(Seq<char>, Seq<char>)>) -> Map<Seq<char>, Seq<char>>
    decreases s.len(),
{
    if s.len() == 0 {
        Map::empty()
    } else {
        assoc_map(s.drop_last()).insert(s.last().0, s.last().1)
    }
}

/// Whether no key occurs twice.
pub open spec fn keys_distinct(s: Seq<(Seq<char>, Seq<char>)>) -> bool {
    forall|i: int, j: int| 0 <= i < j < s.len() ==> s[i].0 != s[j].0
}

/// The texts of a sequence of string pairs.
pub open spec fn entry_views(v: Seq<(String, String)>) -> Seq<(Seq<char>, Seq<char>)> {
    v.map_values(|p: (String, String)| (p.0@, p.1@))
}

proof fn lemma_assoc_update(s: Seq<(Seq<char>, Seq<char>)>, k: int, v: Seq<char>)
    requires
        keys_distinct(s),
        0 <= k < s.len(),
    ensures
        assoc_map(s.update(k, (s[k].0, v))) == assoc_map(s).insert(s[k].0, v),
        keys_distinct(s.update(k, (s[k].0, v))),
    decreases s.len(),
{
    let u = s.update(k, (s[k].0, v));
    if k == s.len() - 1 {
        assert(u.drop_last() =~= s.drop_last());
        assert(assoc_map(u) =~= assoc_map(s).insert(s[k].0, v));
    } else {
        assert(u.drop_last() =~= s.drop_last().update(k, (s[k].0, v)));
        lemma_assoc_update(s.drop_last(), k, v);
        assert(s.last().0 != s[k].0);
        assert(assoc_map(u) =~= assoc_map(s).insert(s[k].0, v));
    }
}

proof fn lemma_assoc_absent(s: Seq<(Seq<char>, Seq<char>)>, key: Seq<char>)
    requires
        forall|i: int| 0 <= i < s.len() ==> s[i].0 != key,
    ensures
        !assoc_map(s).contains_key(key),
    decreases s.len(),
{
    if s.len() > 0 {
        lemma_assoc_absent(s.drop_last(), key);
    }
}

/// Stores `value` under `key`, replacing an earlier value.
fn assoc_insert(entries: &mut Vec<(String, String)>, key: String, value: String)
    requires
        keys_distinct(entry_views(old(entries)@)),
    ensures
        keys_distinct(entry_views(final(entries)@)),
        assoc_map(entry_views(final(entries)@)) == assoc_map(entry_views(old(entries)@)).insert(
            key@,
            value@,
        ),
{
    let ghost ev = entry_views(entries@);
    let mut k: usize = 0;
    while k < entries.len()
        invariant
            k <= entries@.len(),
            ev == entry_views(entries@),
            ev == entry_views(old(entries)@),
            keys_distinct(ev),
            forall|m: int| 0 <= m < k ==> ev[m].0 != key@,
        decreases entries@.len() - k,
    {
        if str_eq(entries[k].0.as_str(), key.as_str()) {
            let ghost v = value@;
            proof {
                lemma_assoc_update(ev, k as int, v);
            }
            entries[k].1 = value;
            proof {
                assert(entry_views(entries@) =~= ev.update(k as int, (ev[k as int].0, v)));
                assert(ev[k as int].0 == key@);
            }
            return;
        }
        k = k + 1;
    }
    let ghost kv = (key@, value@);
    entries.push((key, value));
    proof {
        assert(entry_views(entries@) =~= ev.push(kv));
        assert(entry_views(entries@).drop_last() =~= ev);
    }
}

/// The key and raw value of one line, as `line_pair` gives them.
fn parse_line(line: &[char]) -> (r: Option<(Vec<char>, Vec<char>)>)
    ensures
        match r {
            Some(kv) => line_pair(line@) == Some((kv.0@, kv.1@)),
            None => line_pair(line@) is None,
        },
{
    let t = trim_chars(line);
    if t.len() == 0 || t[0] == '#' {
        return None;
    }
    match find_char(t.as_slice(), ':') {
        Some(i) => {
            let before = slice_range(t.as_slice(), 0, i);
            let after = slice_range(t.as_slice(), i + 1, t.len());
            proof {
                assert(before@ =~= t@.take(i as int));
                assert(after@ =~= t@.skip(i + 1));
            }
            Some((trim_chars(before.as_slice()), trim_chars(after.as_slice())))
        },
        None => None,
    }
}

/// Parses the flat `key: value` lines of a frontmatter block. Blank lines,
/// `#` comments and lines without `:` are skipped; quotes around a value
/// are removed; a later line wins over an earlier one with the same key.
pub fn parse_simple_yaml(text: &str) -> (r: Vec<(String, String)>)
    requires
        !yaml_fails(text@),
    ensures
        keys_distinct(entry_views(r@)),
        assoc_map(entry_views(r@)) == yaml_map(text@),
{
    let cs = chars_of(text);
    let lines = split_chars(cs.as_slice(), '\n');
    let ghost ls = split_on(text@, '\n');
    let mut entries: Vec<(String, String)> = Vec::new();
    let mut i: usize = 0;
    while i < lines.len()
        invariant
            i <= lines@.len() == ls.len(),
            ls == split_on(text@, '\n'),
            forall|m: int| 0 <= m < lines@.len() ==> #[trigger] lines@[m]@ == ls[m],
            !yaml_fails(text@),
            keys_distinct(entry_views(entries@)),
            assoc_map(entry_views(entries@)) == yaml_map_of(ls.take(i as int)),
        decreases lines@.len() - i,
    {
        proof {
            assert(ls.take(i + 1).drop_last() =~= ls.take(i as int));
            assert(lines@[i as int]@ == ls[i as int]);
        }
        match parse_line(lines[i].as_slice()) {
            Some(kv) => {
                let (k, v) = kv;
                let value = if v.len() >= 2 && ((v[0] == '"' && v[v.len() - 1] == '"') || (v[0]
                    == '\'' && v[v.len() - 1] == '\'')) {
                    slice_range(v.as_slice(), 1, v.len() - 1)
                } else {
                    v
                };
                assert(value@ == unquote(v@));
                assoc_insert(&mut entries, string_of(k.as_slice()), string_of(value.as_slice()));
            },
            None => {},
        }
        i = i + 1;
    }
    proof {
        assert(ls.take(ls.len() as int) =~= ls);
    }
    entries
}

/// The value stored under `key`, if any.
pub fn entry_value<'a>(entries: &'a [(String, String)], key: &str) -> (r: Option<&'a String>)
    requires
        keys_distinct(entry_views(entries@)),
    ensures
        match r {
            Some(v) => assoc_map(entry_views(entries@)).contains_key(key@) && assoc_map(
                entry_views(entries@),
            )[key@] == v@,
            None => !assoc_map(entry_views(entries@)).contains_key(key@),
        },
{
    let ghost ev = entry_views(entries@);
    let mut k: usize = 0;
    while k < entries.len()
        invariant
            k <= entries@.len(),
            ev == entry_views(entries@),
            keys_distinct(ev),
            forall|m: int| 0 <= m < k ==> ev[m].0 != key@,
        decreases entries@.len() - k,
    {
        if str_eq(entries[k].0.as_str(), key) {
            proof {
                lemma_assoc_lookup(ev, k as int);
            }
            return Some(&entries[k].1);
        }
        k = k + 1;
    }
    proof {
        lemma_assoc_absent(ev, key@);
    }
    None
}

proof fn lemma_assoc_lookup(s: Seq<(Seq<char>, Seq<char>)>, k: int)
    requires
        keys_distinct(s),
        0 <= k < s.len(),
    ensures
        assoc_map(s).contains_key(s[k].0),
        assoc_map(s)[s[k].0] == s[k].1,
    decreases s.len(),
{
    if k < s.len() - 1 {
        lemma_assoc_lookup(s.drop_last(), k);
    }
}

// ---------------------------------------------------------------------------
// Skill metadata
// ---------------------------------------------------------------------------

/// Where a skill comes from.
#[derive(Debug, Clone, Copy, PartialEq, Eq, Structural)]
pub enum SkillSource {
    /// Shipped with the agent.
    Builtin,
    /// Under the user's `~/.opendev/skills`.
    UserGlobal,
    /// Under a project's skill directory.
    Project,
}

/// What a skill's frontmatter says of it.
#[derive(Debug, Clone)]
pub struct SkillMetadata {
    pub name: String,
    pub description: String,
    pub namespace: String,
    /// The file the skill was read from (none for a built-in skill).
    pub path: Option<String>,
    pub source: SkillSource,
}

/// Mathematical model of a [`SkillMetadata`].
pub struct SkillMetadataView {
    pub name: Seq<char>,
    pub description: Seq<char>,
    pub namespace: Seq<char>,
    pub path: Option<Seq<char>>,
    pub source: SkillSource,
}

impl View for SkillMetadata {
    type V = SkillMetadataView;

    open spec fn view(&self) -> SkillMetadataView {
        SkillMetadataView {
            name: self.name@,
            description: self.description@,
            namespace: self.namespace@,
            path: crate::message::opt_view(self.path),
            source: self.source,
        }
    }
}

/// The models of a sequence of metadata.
pub open spec fn metas_view(v: Seq<SkillMetadata>) -> Seq<SkillMetadataView> {
    v.map_values(|m: SkillMetadata| m@)
}

/// The name a skill is found by: `namespace:name`, or the bare name in the
/// `default` namespace.
pub open spec fn full_name_of(m: SkillMetadataView) -> Seq<char> {
    if m.namespace == "default"@ {
        m.name
    } else {
        m.namespace + ":"@ + m.name
    }
}

impl SkillMetadata {
    /// The name the skill is found by.
    pub fn full_name(&self) -> (r: String)
        ensures
            r@ == full_name_of(self@),
    {
        if str_eq(self.namespace.as_str(), "default") {
            self.name.clone()
        } else {
            let mut r = self.namespace.clone();
            push_str(&mut r, ":");
            push_str(&mut r, self.name.as_str());
            r
        }
    }
}

/// A skill with its content, the frontmatter removed.
#[derive(Debug, Clone)]
pub struct LoadedSkill {
    pub metadata: SkillMetadata,
    pub content: String,
}

/// The metadata that a frontmatter block gives.
pub open spec fn metadata_from_block(block: Seq<char>) -> SkillMetadataView {
    let m = yaml_map(block);
    let name = if m.contains_key("name"@) {
        m["name"@]
    } else {
        Seq::empty()
    };
    SkillMetadataView {
        name: name,
        description: if m.contains_key("description"@) {
            m["description"@]
        } else {
            "Skill: "@ + if name.len() == 0 {
                "unknown"@
            } else {
                name
            }
        },
        namespace: if m.contains_key("namespace"@) {
            m["namespace"@]
        } else {
            "default"@
        },
        path: None,
        source: SkillSource::Builtin,
    }
}

/// Whether parsing the frontmatter of `content` would meet a lone quote.
pub open spec fn frontmatter_fails(content: Seq<char>) -> bool {
    has_frontmatter(content) && yaml_fails(frontmatter_body(content))
}

/// The metadata in the frontmatter of `content`.
pub fn parse_frontmatter_str(content: &str) -> (r: Option<SkillMetadata>)
    requires
        !frontmatter_fails(content@),
    ensures
        r is Some <==> has_frontmatter(content@),
        r matches Some(m) ==> m@ == metadata_from_block(frontmatter_body(content@)),
{
    let cs = chars_of(content);
    let k = match find_block_end(cs.as_slice()) {
        Some(k) => k,
        None => return None,
    };
    let body = string_of(slice_range(cs.as_slice(), 4, k).as_slice());
    let data = parse_simple_yaml(body.as_str());
    let name = match entry_value(data.as_slice(), "name") {
        Some(v) => v.clone(),
        None => String::new(),
    };
    let description = match entry_value(data.as_slice(), "description") {
        Some(v) => v.clone(),
        None => {
            let mut d = owned("Skill: ");
            if name.as_str().is_empty() {
                push_str(&mut d, "unknown");
            } else {
                push_str(&mut d, name.as_str());
            }
            d
        },
    };
    let namespace = match entry_value(data.as_slice(), "namespace") {
        Some(v) => v.clone(),
        None => owned("default"),
    };
    let m = SkillMetadata { name, description, namespace, path: None, source: SkillSource::Builtin };
    assert(m@ == metadata_from_block(frontmatter_body(content@)));
    Some(m)
}

/// Whether some line of a block holds a lone quote as its value.
fn block_fails(text: &str) -> (r: bool)
    ensures
        r == yaml_fails(text@),
{
    let cs = chars_of(text);
    let lines = split_chars(cs.as_slice(), '\n');
    let ghost ls = split_on(text@, '\n');
    let mut i: usize = 0;
    while i < lines.len()
        invariant
            i <= lines@.len() == ls.len(),
            ls == split_on(text@, '\n'),
            forall|m: int| 0 <= m < lines@.len() ==> #[trigger] lines@[m]@ == ls[m],
            forall|m: int|
                0 <= m < i ==> !(#[trigger] line_pair(ls[m]) matches Some(kv) && lone_quote(kv.1)),
        decreases lines@.len() - i,
    {
        proof {
            assert(lines@[i as int]@ == ls[i as int]);
        }
        if let Some(kv) = parse_line(lines[i].as_slice()) {
            let v = &kv.1;
            if v.len() == 1 && (v[0] == '"' || v[0] == '\'') {
                return true;
            }
        }
        i = i + 1;
    }
    false
}

// ---------------------------------------------------------------------------
// Built-in skills
// ---------------------------------------------------------------------------

/// The built-in `commit` skill.
pub const BUILTIN_COMMIT: &'static str = "---\nname: commit\ndescription: Git commit best practices\nnamespace: default\n---\n\n# Git Commit Skill\n\nWhen making commits:\n- Stage only the changes that belong together.\n- Write a short imperative subject line (at most 72 characters).\n- Leave a blank line, then explain what changed and why.\n- Never commit secrets, build outputs or unrelated edits.\n";

/// The built-in `review-pr` skill.
pub const BUILTIN_REVIEW_PR: &'static str = "---\nname: review-pr\ndescription: Review a pull request for correctness, style and risk\nnamespace: default\n---\n\n# Pull Request Review Skill\n\nWhen reviewing a pull request:\n- Read the description and the linked issue first.\n- Check that the change does what it claims, with tests.\n- Look for edge cases, error handling and security issues.\n- Leave specific, actionable comments and summarize the verdict.\n";

/// The built-in `create-pr` skill.
pub const BUILTIN_CREATE_PR: &'static str = "---\nname: create-pr\ndescription: Open a well-described pull request\nnamespace: default\n---\n\n# Create Pull Request Skill\n\nWhen opening a pull request:\n- Make sure the branch is up to date and the tests pass.\n- Give it a concise title and a description of what and why.\n- List how the change was tested and anything left to follow up.\n";

/// The built-in skill files: file name and content.
pub open spec fn builtin_files() -> Seq<(Seq<char>, Seq<char>)> {
    seq![
        ("commit.md"@, BUILTIN_COMMIT@),
        ("review-pr.md"@, BUILTIN_REVIEW_PR@),
        ("create-pr.md"@, BUILTIN_CREATE_PR@),
    ]
}

fn builtin_file_list() -> (r: Vec<(&'static str, &'static str)>)
    ensures
        r@.len() == builtin_files().len(),
        forall|i: int|
            0 <= i < r@.len() ==> (#[trigger] r@[i]).0@ == builtin_files()[i].0 && r@[i].1@
                == builtin_files()[i].1,
{
    let r = vec![
        ("commit.md", BUILTIN_COMMIT),
        ("review-pr.md", BUILTIN_REVIEW_PR),
        ("create-pr.md", BUILTIN_CREATE_PR),
    ];
    r
}

/// A file name without its `.md` suffix.
pub open spec fn md_stem(file_name: Seq<char>) -> Seq<char> {
    if crate::text::has_suffix(file_name, ".md"@) {
        file_name.take(file_name.len() - 3)
    } else {
        file_name
    }
}

fn strip_md(file_name: &str) -> (r: String)
    ensures
        r@ == md_stem(file_name@),
{
    proof {
        reveal_strlit(".md");
    }
    let cs = chars_of(file_name);
    let suffix = chars_of(".md");
    if crate::text::chars_has_suffix(cs.as_slice(), suffix.as_slice()) {
        string_of(slice_range(cs.as_slice(), 0, cs.len() - 3).as_slice())
    } else {
        owned(file_name)
    }
}

/// The metadata of a built-in skill file, where it has a frontmatter block
/// that parses.
pub open spec fn builtin_candidate(file: (Seq<char>, Seq<char>)) -> Option<SkillMetadataView> {
    if has_frontmatter(file.1) && !yaml_fails(frontmatter_body(file.1)) {
        let m = metadata_from_block(frontmatter_body(file.1));
        Some(
            SkillMetadataView {
                name: if m.name.len() == 0 {
                    md_stem(file.0)
                } else {
                    m.name
                },
                ..m
            },
        )
    } else {
        None
    }
}

/// The metadata of the built-in skills, in order.
pub open spec fn builtin_candidates_of(files: Seq<(Seq<char>, Seq<char>)>) -> Seq<
    SkillMetadataView,
>
    decreases files.len(),
{
    if files.len() == 0 {
        Seq::empty()
    } else {
        let prev = builtin_candidates_of(files.drop_last());
        match builtin_candidate(files.last()) {
            Some(m) => prev.push(m),
            None => prev,
        }
    }
}

/// The content of the built-in skill whose file name, without `.md`, is
/// `name`.
pub open spec fn builtin_content_of(files: Seq<(Seq<char>, Seq<char>)>, name: Seq<char>) -> Option<
    Seq<char>,
>
    decreases files.len(),
{
    if files.len() == 0 {
        None
    } else if md_stem(files[0].0) == name {
        Some(files[0].1)
    } else {
        builtin_content_of(files.drop_first(), name)
    }
}

/// The content of the built-in skill whose file name, without `.md`, is
/// `name`.
pub fn builtin_content(name: &str) -> (r: Option<&'static str>)
    ensures
        match r {
            Some(c) => builtin_content_of(builtin_files(), name@) == Some(c@),
            None => builtin_content_of(builtin_files(), name@) is None,
        },
{
    let files = builtin_file_list();
    let ghost fs = builtin_files();
    let mut k: usize = 0;
    proof {
        assert(fs.subrange(0, fs.len() as int) =~= fs);
    }
    while k < files.len()
        invariant
            k <= files@.len() == fs.len(),
            fs == builtin_files(),
            forall|i: int|
                0 <= i < files@.len() ==> (#[trigger] files@[i]).0@ == fs[i].0 && files@[i].1@
                    == fs[i].1,
            builtin_content_of(fs, name@) == builtin_content_of(
                fs.subrange(k as int, fs.len() as int),
                name@,
            ),
        decreases files@.len() - k,
    {
        let ghost rest = fs.subrange(k as int, fs.len() as int);
        proof {
            assert(rest.drop_first() =~= fs.subrange(k + 1, fs.len() as int));
            assert(rest[0] == fs[k as int]);
        }
        let stem = strip_md(files[k].0);
        if str_eq(stem.as_str(), name) {
            return Some(files[k].1);
        }
        k = k + 1;
    }
    None
}

/// The directory of user-global skills under `home`.
pub open spec fn global_skills_dir(home: Seq<char>) -> Seq<char> {
    home + "/.opendev/skills"@
}

/// Whether a skill directory is the user's global one (under
/// `~/.opendev/skills`) or a project's.
pub fn detect_source(skill_dir: &str, home: Option<&str>) -> (r: SkillSource)
    ensures
        r == (match home {
            Some(h) => if path_starts_with(skill_dir@, global_skills_dir(h@)) {
                SkillSource::UserGlobal
            } else {
                SkillSource::Project
            },
            None => SkillSource::Project,
        }),
{
    match home {
        Some(h) => {
            let mut global = owned(h);
            push_str(&mut global, "/.opendev/skills");
            let a = path_components(skill_dir);
            let b = path_components(global.as_str());
            assert(global@ == global_skills_dir(h@));
            if b.len() > a.len() {
                assert(!path_starts_with(skill_dir@, global_skills_dir(h@)));
                return SkillSource::Project;
            }
            let mut k: usize = 0;
            while k < b.len()
                invariant
                    k <= b@.len() <= a@.len(),
                    global@ == global_skills_dir(h@),
                    home == Some(h),
                    b@.len() == components(global@).len(),
                    a@.len() == components(skill_dir@).len(),
                    forall|i: int| 0 <= i < a@.len() ==> #[trigger] a@[i]@ == components(skill_dir@)[i],
                    forall|i: int| 0 <= i < b@.len() ==> #[trigger] b@[i]@ == components(global@)[i],
                    forall|i: int| 0 <= i < k ==> components(skill_dir@)[i] == components(global@)[i],
                decreases b@.len() - k,
            {
                if !crate::text::chars_eq(a[k].as_slice(), b[k].as_slice()) {
                    proof {
                        assert(components(skill_dir@).take(b@.len() as int)[k as int]
                            != components(global@)[k as int]);
                        assert(!path_starts_with(skill_dir@, global_skills_dir(h@)));
                    }
                    return SkillSource::Project;
                }
                k = k + 1;
            }
            proof {
                assert(components(skill_dir@).take(b@.len() as int) =~= components(global@));
            }
            SkillSource::UserGlobal
        },
        None => SkillSource::Project,
    }
}

/// The position of the last `c` in `s`, if any.
pub open spec fn last_index(s: Seq<char>, c: char) -> Option<int>
    decreases s.len(),
{
    if s.len() == 0 {
        None
    } else if s.last() == c {
        Some(s.len() - 1)
    } else {
        last_index(s.drop_last(), c)
    }
}

/// The file stem of a path (what `Path::file_stem` gives): the last
/// component without its extension; none for a path that ends in `..` or
/// is the root.
pub open spec fn file_stem(p: Seq<char>) -> Option<Seq<char>> {
    let cs = components(p);
    if cs.len() == 0 {
        None
    } else {
        let name = cs.last();
        if name == "/"@ || name == ".."@ {
            None
        } else {
            match last_index(name, '.') {
                Some(i) => if i > 0 {
                    Some(name.take(i))
                } else {
                    Some(name)
                },
                None => Some(name),
            }
        }
    }
}

fn find_last(s: &[char], c: char) -> (r: Option<usize>)
    ensures
        match r {
            Some(i) => last_index(s@, c) == Some(i as int) && i < s@.len(),
            None => last_index(s@, c) is None,
        },
{
    let mut k = s.len();
    proof {
        assert(s@.take(s@.len() as int) =~= s@);
    }
    while k > 0
        invariant
            k <= s@.len(),
            last_index(s@, c) == last_index(s@.take(k as int), c),
        decreases k,
    {
        proof {
            assert(s@.take(k as int).drop_last() =~= s@.take(k - 1));
        }
        if s[k - 1] == c {
            return Some(k - 1);
        }
        k = k - 1;
    }
    None
}

/// The file stem of a path, or `unknown` where it has none.
fn stem_or_unknown(path: &str) -> (r: String)
    ensures
        r@ == (match file_stem(path@) {
            Some(st) => st,
            None => "unknown"@,
        }),
{
    proof {
        reveal_strlit("/");
        reveal_strlit("..");
    }
    let cs = path_components(path);
    if cs.len() == 0 {
        return owned("unknown");
    }
    let name = &cs[cs.len() - 1];
    let is_root = name.len() == 1 && name[0] == '/';
    let is_up = name.len() == 2 && name[0] == '.' && name[1] == '.';
    proof {
        assert(name@ == components(path@).last());
        if is_root {
            assert(name@ =~= "/"@);
        }
        if is_up {
            assert(name@ =~= ".."@);
        }
        if name@ == "/"@ {
            assert(is_root);
        }
        if name@ == ".."@ {
            assert(is_up);
        }
    }
    if is_root || is_up {
        return owned("unknown");
    }
    match find_last(name.as_slice(), '.') {
        Some(i) => {
            if i > 0 {
                string_of(slice_range(name.as_slice(), 0, i).as_slice())
            } else {
                string_of(name.as_slice())
            }
        },
        None => string_of(name.as_slice()),
    }
}

/// The metadata of a skill file (before its path and source are set): a
/// missing name falls back to the file stem.
pub open spec fn file_metadata(path: Seq<char>, content: Seq<char>) -> SkillMetadataView {
    let m = metadata_from_block(frontmatter_body(content));
    SkillMetadataView {
        name: if m.name.len() == 0 {
            match file_stem(path) {
                Some(st) => st,
                None => "unknown"@,
            }
        } else {
            m.name
        },
        ..m
    }
}

/// The metadata of a skill file, where it has a frontmatter block.
pub fn metadata_for_file(path: &str, content: &str) -> (r: Option<SkillMetadata>)
    requires
        !frontmatter_fails(content@),
    ensures
        r is Some <==> has_frontmatter(content@),
        r matches Some(m) ==> m@ == file_metadata(path@, content@),
{
    let mut meta = match parse_frontmatter_str(content) {
        Some(m) => m,
        None => return None,
    };
    if meta.name.as_str().is_empty() {
        meta.name = stem_or_unknown(path);
    }
    Some(meta)
}

// ---------------------------------------------------------------------------
// The catalog
// ---------------------------------------------------------------------------

/// A skill file found on disk: its path, its content and where it was found.
#[derive(Debug, Clone)]
pub struct ScannedSkillFile {
    pub path: String,
    pub content: String,
    pub source: SkillSource,
}

/// Mathematical model of a [`ScannedSkillFile`].
pub struct ScannedSkillFileView {
    pub path: Seq<char>,
    pub content: Seq<char>,
    pub source: SkillSource,
}

impl View for ScannedSkillFile {
    type V = ScannedSkillFileView;

    open spec fn view(&self) -> ScannedSkillFileView {
        ScannedSkillFileView { path: self.path@, content: self.content@, source: self.source }
    }
}

/// The models of a sequence of scanned files.
pub open spec fn scanned_view(v: Seq<ScannedSkillFile>) -> Seq<ScannedSkillFileView> {
    v.map_values(|f: ScannedSkillFile| f@)
}

/// Whether no scanned file makes the frontmatter parser fail.
pub open spec fn scanned_parse(v: Seq<ScannedSkillFileView>) -> bool {
    forall|i: int| 0 <= i < v.len() ==> !frontmatter_fails(#[trigger] v[i].content)
}

/// The metadata that a scanned file contributes.
pub open spec fn scanned_candidate(f: ScannedSkillFileView) -> Option<SkillMetadataView> {
    if has_frontmatter(f.content) {
        Some(
            SkillMetadataView {
                path: Some(f.path),
                source: f.source,
                ..file_metadata(f.path, f.content)
            },
        )
    } else {
        None
    }
}

/// The metadata that scanned files contribute, in order.
pub open spec fn scanned_candidates(fs: Seq<ScannedSkillFileView>) -> Seq<SkillMetadataView>
    decreases fs.len(),
{
    if fs.len() == 0 {
        Seq::empty()
    } else {
        let prev = scanned_candidates(fs.drop_last());
        match scanned_candidate(fs.last()) {
            Some(m) => prev.push(m),
            None => prev,
        }
    }
}

/// All candidates, lowest priority first: the built-ins, then the scanned
/// files in the order given.
pub open spec fn candidates(fs: Seq<ScannedSkillFileView>) -> Seq<SkillMetadataView> {
    builtin_candidates_of(builtin_files()) + scanned_candidates(fs)
}

/// The position of the entry with full name `f`, if any.
pub open spec fn index_of_full(s: Seq<SkillMetadataView>, f: Seq<char>) -> Option<int>
    decreases s.len(),
{
    if s.len() == 0 {
        None
    } else if full_name_of(s.last()) == f {
        Some(s.len() - 1)
    } else {
        index_of_full(s.drop_last(), f)
    }
}

/// The catalog with `m` stored under its full name, replacing an earlier
/// entry of that name.
pub open spec fn catalog_put(s: Seq<SkillMetadataView>, m: SkillMetadataView) -> Seq<
    SkillMetadataView,
> {
    match index_of_full(s, full_name_of(m)) {
        Some(i) => s.update(i, m),
        None => s.push(m),
    }
}

/// The catalog that a sequence of candidates builds.
pub open spec fn catalog_of(cs: Seq<SkillMetadataView>) -> Seq<SkillMetadataView>
    decreases cs.len(),
{
    if cs.len() == 0 {
        Seq::empty()
    } else {
        catalog_put(catalog_of(cs.drop_last()), cs.last())
    }
}

/// Whether no full name occurs twice.
pub open spec fn names_distinct(s: Seq<SkillMetadataView>) -> bool {
    forall|i: int, j: int| 0 <= i < j < s.len() ==> full_name_of(s[i]) != full_name_of(s[j])
}

/// The last candidate with full name `f`, if any.
pub open spec fn last_with_name(cs: Seq<SkillMetadataView>, f: Seq<char>) -> Option<
    SkillMetadataView,
>
    decreases cs.len(),
{
    if cs.len() == 0 {
        None
    } else if full_name_of(cs.last()) == f {
        Some(cs.last())
    } else {
        last_with_name(cs.drop_last(), f)
    }
}

/// The entry of a catalog with full name `f`, if any.
pub open spec fn catalog_entry(s: Seq<SkillMetadataView>, f: Seq<char>) -> Option<
    SkillMetadataView,
> {
    match index_of_full(s, f) {
        Some(i) => Some(s[i]),
        None => None,
    }
}

proof fn lemma_index_of_full(s: Seq<SkillMetadataView>, f: Seq<char>)
    ensures
        match index_of_full(s, f) {
            Some(i) => 0 <= i < s.len() && full_name_of(s[i]) == f,
            None => forall|j: int| 0 <= j < s.len() ==> full_name_of(#[trigger] s[j]) != f,
        },
    decreases s.len(),
{
    if s.len() > 0 {
        lemma_index_of_full(s.drop_last(), f);
        if full_name_of(s.last()) != f {
            assert forall|j: int| 0 <= j < s.len() - 1 implies s.drop_last()[j] == s[j] by {}
        }
    }
}

proof fn lemma_index_of_full_unique(s: Seq<SkillMetadataView>, k: int)
    requires
        names_distinct(s),
        0 <= k < s.len(),
    ensures
        index_of_full(s, full_name_of(s[k])) == Some(k),
    decreases s.len(),
{
    if k < s.len() - 1 {
        assert(full_name_of(s.last()) != full_name_of(s[k]));
        assert(s.drop_last()[k] == s[k]);
        lemma_index_of_full_unique(s.drop_last(), k);
    }
}

proof fn lemma_catalog_put(s: Seq<SkillMetadataView>, m: SkillMetadataView)
    requires
        names_distinct(s),
    ensures
        names_distinct(catalog_put(s, m)),
        forall|f: Seq<char>|
            #[trigger] catalog_entry(catalog_put(s, m), f) == if f == full_name_of(m) {
                Some(m)
            } else {
                catalog_entry(s, f)
            },
{
    let t = catalog_put(s, m);
    lemma_index_of_full(s, full_name_of(m));
    match index_of_full(s, full_name_of(m)) {
        Some(i) => {
            assert forall|a: int, b: int| 0 <= a < b < t.len() implies full_name_of(t[a])
                != full_name_of(t[b]) by {
                if a == i {
                    assert(full_name_of(s[i]) != full_name_of(s[b]));
                } else if b == i {
                    assert(full_name_of(s[a]) != full_name_of(s[i]));
                }
            }
            assert forall|f: Seq<char>| #[trigger] catalog_entry(t, f) == if f == full_name_of(m) {
                Some(m)
            } else {
                catalog_entry(s, f)
            } by {
                lemma_index_of_full(t, f);
                lemma_index_of_full(s, f);
                if f == full_name_of(m) {
                    lemma_index_of_full_unique(t, i);
                } else {
                    match index_of_full(s, f) {
                        Some(j) => {
                            assert(j != i);
                            assert(t[j] == s[j]);
                            lemma_index_of_full_unique(t, j);
                        },
                        None => {
                            match index_of_full(t, f) {
                                Some(j) => {
                                    assert(j != i);
                                    assert(t[j] == s[j]);
                                },
                                None => {},
                            }
                        },
                    }
                }
            }
        },
        None => {
            assert(t == s.push(m));
            assert forall|a: int, b: int| 0 <= a < b < t.len() implies full_name_of(t[a])
                != full_name_of(t[b]) by {
                if b == s.len() {
                    assert(full_name_of(s[a]) != full_name_of(m));
                }
            }
            assert forall|f: Seq<char>| #[trigger] catalog_entry(t, f) == if f == full_name_of(m) {
                Some(m)
            } else {
                catalog_entry(s, f)
            } by {
                assert(t.drop_last() =~= s);
                lemma_index_of_full(s, f);
                if f != full_name_of(m) {
                    match index_of_full(s, f) {
                        Some(j) => {
                            assert(t[j] == s[j]);
                        },
                        None => {},
                    }
                }
            }
        },
    }
}

proof fn lemma_catalog_of(cs: Seq<SkillMetadataView>)
    ensures
        names_distinct(catalog_of(cs)),
        forall|f: Seq<char>| #[trigger] catalog_entry(catalog_of(cs), f) == last_with_name(cs, f),
    decreases cs.len(),
{
    if cs.len() > 0 {
        lemma_catalog_of(cs.drop_last());
        lemma_catalog_put(catalog_of(cs.drop_last()), cs.last());
    }
}

/// Among skills with the same full name, the one from the highest-priority
/// source wins: the catalog holds, under each full name, the last candidate
/// of that name (built-ins first, then the scanned files in order), and no
/// full name twice.
pub proof fn law_later_candidate_wins(cs: Seq<SkillMetadataView>, f: Seq<char>)
    ensures
        catalog_entry(catalog_of(cs), f) == last_with_name(cs, f),
        names_distinct(catalog_of(cs)),
{
    lemma_catalog_of(cs);
}

/// The files scanned from each of the loader's directories (highest
/// priority first), as models.
pub open spec fn groups_view(g: Seq<Vec<ScannedSkillFile>>) -> Seq<Seq<ScannedSkillFileView>> {
    g.map_values(|v: Vec<ScannedSkillFile>| scanned_view(v@))
}

/// The scanned files in the order they are taken, lowest priority first:
/// the last directory's files first, the first directory's last.
pub open spec fn scan_order(groups: Seq<Seq<ScannedSkillFileView>>) -> Seq<ScannedSkillFileView>
    decreases groups.len(),
{
    if groups.len() == 0 {
        Seq::empty()
    } else {
        scan_order(groups.drop_first()) + groups[0]
    }
}

/// Whether no file of any directory makes the frontmatter parser fail.
pub open spec fn groups_parse(groups: Seq<Seq<ScannedSkillFileView>>) -> bool {
    forall|i: int| 0 <= i < groups.len() ==> scanned_parse(#[trigger] groups[i])
}

proof fn lemma_scan_order_parse(groups: Seq<Seq<ScannedSkillFileView>>)
    requires
        groups_parse(groups),
    ensures
        scanned_parse(scan_order(groups)),
    decreases groups.len(),
{
    if groups.len() > 0 {
        let rest = groups.drop_first();
        assert forall|i: int| 0 <= i < rest.len() implies scanned_parse(#[trigger] rest[i]) by {
            assert(rest[i] == groups[i + 1]);
        }
        lemma_scan_order_parse(rest);
        let a = scan_order(rest);
        let b = groups[0];
        assert(scanned_parse(b));
        assert forall|k: int| 0 <= k < (a + b).len() implies !frontmatter_fails(#[trigger] (a + b)[k].content) by {
            if k < a.len() {
                assert((a + b)[k] == a[k]);
            } else {
                assert((a + b)[k] == b[k - a.len()]);
            }
        }
    }
}

proof fn lemma_scanned_candidates_concat(a: Seq<ScannedSkillFileView>, b: Seq<ScannedSkillFileView>)
    ensures
        scanned_candidates(a + b) == scanned_candidates(a) + scanned_candidates(b),
    decreases b.len(),
{
    if b.len() == 0 {
        assert(a + b =~= a);
        assert(scanned_candidates(a) + scanned_candidates(b) =~= scanned_candidates(a));
    } else {
        lemma_scanned_candidates_concat(a, b.drop_last());
        assert((a + b).drop_last() =~= a + b.drop_last());
        assert((a + b).last() == b.last());
        match scanned_candidate(b.last()) {
            Some(m) => {
                assert(scanned_candidates(a) + scanned_candidates(b.drop_last()).push(m) =~= (scanned_candidates(a)
                    + scanned_candidates(b.drop_last())).push(m));
            },
            None => {},
        }
    }
}

proof fn lemma_last_with_name_concat(a: Seq<SkillMetadataView>, b: Seq<SkillMetadataView>, f: Seq<char>)
    ensures
        last_with_name(a + b, f) == match last_with_name(b, f) {
            Some(m) => Some(m),
            None => last_with_name(a, f),
        },
    decreases b.len(),
{
    if b.len() == 0 {
        assert(a + b =~= a);
    } else {
        assert((a + b).drop_last() =~= a + b.drop_last());
        assert((a + b).last() == b.last());
        lemma_last_with_name_concat(a, b.drop_last(), f);
    }
}

/// The first directory that defines a skill wins: where the `i`-th
/// directory defines full name `f` and no directory before it does, the
/// catalog's entry for `f` is that directory's (its last file defining
/// `f`); where no directory defines `f`, it is the built-in one, if any.
pub proof fn law_first_directory_wins(groups: Seq<Seq<ScannedSkillFileView>>, f: Seq<char>, i: int)
    requires
        0 <= i < groups.len(),
        last_with_name(scanned_candidates(groups[i]), f) is Some,
        forall|j: int| 0 <= j < i ==> last_with_name(scanned_candidates(#[trigger] groups[j]), f) is None,
    ensures
        catalog_entry(catalog_of(candidates(scan_order(groups))), f) == last_with_name(
            scanned_candidates(groups[i]),
            f,
        ),
    decreases groups.len(),
{
    lemma_catalog_of(candidates(scan_order(groups)));
    lemma_dir_wins(groups, f, i);
}

proof fn lemma_dir_wins(groups: Seq<Seq<ScannedSkillFileView>>, f: Seq<char>, i: int)
    requires
        0 <= i < groups.len(),
        last_with_name(scanned_candidates(groups[i]), f) is Some,
        forall|j: int| 0 <= j < i ==> last_with_name(scanned_candidates(#[trigger] groups[j]), f) is None,
    ensures
        last_with_name(candidates(scan_order(groups)), f) == last_with_name(scanned_candidates(groups[i]), f),
    decreases groups.len(),
{
    let rest = groups.drop_first();
    let bc = builtin_candidates_of(builtin_files());
    lemma_scanned_candidates_concat(scan_order(rest), groups[0]);
    assert(candidates(scan_order(groups)) =~= (bc + scanned_candidates(scan_order(rest))) + scanned_candidates(
        groups[0],
    ));
    lemma_last_with_name_concat(bc + scanned_candidates(scan_order(rest)), scanned_candidates(groups[0]), f);
    if i > 0 {
        assert(last_with_name(scanned_candidates(groups[0]), f) is None);
        assert forall|j: int| 0 <= j < i - 1 implies last_with_name(
            scanned_candidates(#[trigger] rest[j]),
            f,
        ) is None by {
            assert(rest[j] == groups[j + 1]);
        }
        assert(rest[i - 1] == groups[i]);
        lemma_dir_wins(rest, f, i - 1);
    }
}

/// Where no directory defines full name `f`, the catalog's entry for `f`
/// is the built-in one, if any.
pub proof fn law_builtin_when_no_directory(groups: Seq<Seq<ScannedSkillFileView>>, f: Seq<char>)
    requires
        forall|j: int| 0 <= j < groups.len() ==> last_with_name(scanned_candidates(#[trigger] groups[j]), f) is None,
    ensures
        catalog_entry(catalog_of(candidates(scan_order(groups))), f) == last_with_name(
            builtin_candidates_of(builtin_files()),
            f,
        ),
{
    lemma_catalog_of(candidates(scan_order(groups)));
    lemma_builtin_only(groups, f);
}

proof fn lemma_builtin_only(groups: Seq<Seq<ScannedSkillFileView>>, f: Seq<char>)
    requires
        forall|j: int| 0 <= j < groups.len() ==> last_with_name(scanned_candidates(#[trigger] groups[j]), f) is None,
    ensures
        last_with_name(candidates(scan_order(groups)), f) == last_with_name(builtin_candidates_of(builtin_files()), f),
    decreases groups.len(),
{
    let bc = builtin_candidates_of(builtin_files());
    if groups.len() == 0 {
        assert(scanned_candidates(scan_order(groups)) =~= Seq::<SkillMetadataView>::empty());
        assert(candidates(scan_order(groups)) =~= bc);
    } else {
        let rest = groups.drop_first();
        lemma_scanned_candidates_concat(scan_order(rest), groups[0]);
        assert(candidates(scan_order(groups)) =~= (bc + scanned_candidates(scan_order(rest))) + scanned_candidates(
            groups[0],
        ));
        lemma_last_with_name_concat(bc + scanned_candidates(scan_order(rest)), scanned_candidates(groups[0]), f);
        assert forall|j: int| 0 <= j < rest.len() implies last_with_name(
            scanned_candidates(#[trigger] rest[j]),
            f,
        ) is None by {
            assert(rest[j] == groups[j + 1]);
        }
        assert(last_with_name(scanned_candidates(groups[0]), f) is None);
        lemma_builtin_only(rest, f);
    }
}

/// A copy of a scanned file.
fn copy_scanned(f: &ScannedSkillFile) -> (r: ScannedSkillFile)
    ensures
        r@ == f@,
{
    ScannedSkillFile { path: f.path.clone(), content: f.content.clone(), source: f.source }
}

/// The files of the directories in the order they are taken, lowest
/// priority first.
fn files_in_scan_order(groups: &[Vec<ScannedSkillFile>]) -> (r: Vec<ScannedSkillFile>)
    ensures
        scanned_view(r@) == scan_order(groups_view(groups@)),
{
    let ghost gv = groups_view(groups@);
    let mut out: Vec<ScannedSkillFile> = Vec::new();
    let mut d = groups.len();
    proof {
        assert(gv.skip(d as int) =~= Seq::<Seq<ScannedSkillFileView>>::empty());
        assert(scanned_view(out@) =~= scan_order(gv.skip(d as int)));
    }
    while d > 0
        invariant
            d <= groups@.len(),
            gv == groups_view(groups@),
            scanned_view(out@) == scan_order(gv.skip(d as int)),
        decreases d,
    {
        let g = &groups[d - 1];
        let ghost before = scanned_view(out@);
        let mut k: usize = 0;
        while k < g.len()
            invariant
                k <= g@.len(),
                gv == groups_view(groups@),
                *g == groups@[d - 1],
                scanned_view(out@) == before + scanned_view(g@).take(k as int),
            decreases g@.len() - k,
        {
            let c = copy_scanned(&g[k]);
            let ghost o = out@;
            out.push(c);
            proof {
                assert(scanned_view(out@) =~= scanned_view(o).push(c@));
                assert(scanned_view(g@).take(k + 1) =~= scanned_view(g@).take(k as int).push(g@[k as int]@));
            }
            k = k + 1;
        }
        proof {
            assert(scanned_view(g@).take(k as int) =~= scanned_view(g@));
            assert(gv.skip(d - 1).drop_first() =~= gv.skip(d as int));
            assert(gv.skip(d - 1)[0] == gv[d - 1]);
            assert(gv[d - 1] == scanned_view(g@));
        }
        d = d - 1;
    }
    proof {
        assert(gv.skip(0) =~= gv);
    }
    out
}

/// A copy of `m`.
fn copy_metadata(m: &SkillMetadata) -> (r: SkillMetadata)
    ensures
        r@ == m@,
{
    SkillMetadata {
        name: m.name.clone(),
        description: m.description.clone(),
        namespace: m.namespace.clone(),
        path: match &m.path {
            Some(p) => Some(p.clone()),
            None => None,
        },
        source: m.source,
    }
}

/// A copy of `s`.
fn copy_loaded(s: &LoadedSkill) -> (r: LoadedSkill)
    ensures
        r.metadata@ == s.metadata@,
        r.content@ == s.content@,
{
    LoadedSkill { metadata: copy_metadata(&s.metadata), content: s.content.clone() }
}

/// Copies of the entries of `v`.
fn copy_metadata_list(v: &Vec<SkillMetadata>) -> (r: Vec<SkillMetadata>)
    ensures
        metas_view(r@) == metas_view(v@),
{
    let mut r: Vec<SkillMetadata> = Vec::new();
    let mut k: usize = 0;
    while k < v.len()
        invariant
            k <= v@.len(),
            metas_view(r@) == metas_view(v@).take(k as int),
        decreases v@.len() - k,
    {
        let c = copy_metadata(&v[k]);
        proof {
            assert(metas_view(r@.push(c)) =~= metas_view(r@).push(c@));
            assert(metas_view(v@).take(k + 1) =~= metas_view(v@).take(k as int).push(v@[k as int]@));
        }
        r.push(c);
        k = k + 1;
    }
    assert(metas_view(v@).take(v@.len() as int) =~= metas_view(v@));
    r
}

/// Stores `m` in the catalog under its full name.
fn put_metadata(catalog: &mut Vec<SkillMetadata>, m: SkillMetadata)
    ensures
        metas_view(final(catalog)@) == catalog_put(metas_view(old(catalog)@), m@),
{
    let ghost cv = metas_view(catalog@);
    let f = m.full_name();
    let mut k = catalog.len();
    proof {
        assert(cv.take(cv.len() as int) =~= cv);
    }
    while k > 0
        invariant
            k <= catalog@.len(),
            cv == metas_view(catalog@),
            cv == metas_view(old(catalog)@),
            f@ == full_name_of(m@),
            index_of_full(cv, f@) == index_of_full(cv.take(k as int), f@),
        decreases k,
    {
        proof {
            assert(cv.take(k as int).drop_last() =~= cv.take(k - 1));
            assert(cv.take(k as int).last() == catalog@[k - 1]@);
        }
        let g = catalog[k - 1].full_name();
        if str_eq(g.as_str(), f.as_str()) {
            assert(index_of_full(cv.take(k as int), f@) == Some(k - 1));
            let ghost mv = m@;
            catalog[k - 1] = m;
            proof {
                assert(metas_view(catalog@) =~= cv.update(k - 1, mv));
            }
            return;
        }
        k = k - 1;
    }
    let ghost mv = m@;
    catalog.push(m);
    proof {
        assert(metas_view(catalog@) =~= cv.push(mv));
    }
}

// ---------------------------------------------------------------------------
// Ordering of skills in the index
// ---------------------------------------------------------------------------

proof fn lemma_seq_lt_irrefl(a: Seq<char>)
    ensures
        !seq_lt(a, a),
    decreases a.len(),
{
    if a.len() > 0 {
        lemma_seq_lt_irrefl(a.drop_first());
    }
}

proof fn lemma_seq_lt_total(a: Seq<char>, b: Seq<char>)
    ensures
        a != b ==> (seq_lt(a, b) || seq_lt(b, a)),
        !(seq_lt(a, b) && seq_lt(b, a)),
    decreases a.len(),
{
    if a.len() > 0 && b.len() > 0 {
        lemma_seq_lt_total(a.drop_first(), b.drop_first());
        if a[0] == b[0] && a != b {
            assert(a.drop_first() != b.drop_first()) by {
                if a.drop_first() == b.drop_first() {
                    assert(a =~= seq![a[0]] + a.drop_first());
                    assert(b =~= seq![b[0]] + b.drop_first());
                }
            }
        }
    } else if a.len() == 0 && b.len() == 0 {
        assert(a =~= b);
    }
}

proof fn lemma_seq_lt_trans(a: Seq<char>, b: Seq<char>, c: Seq<char>)
    requires
        seq_lt(a, b),
        seq_lt(b, c),
    ensures
        seq_lt(a, c),
    decreases a.len(),
{
    if a.len() > 0 && b.len() > 0 && c.len() > 0 {
        if a[0] == b[0] && b[0] == c[0] {
            lemma_seq_lt_trans(a.drop_first(), b.drop_first(), c.drop_first());
        }
    }
}

/// Whether skill `a` sorts before skill `b`: by namespace, then by name.
pub open spec fn key_lt(a: SkillMetadataView, b: SkillMetadataView) -> bool {
    seq_lt(a.namespace, b.namespace) || (a.namespace == b.namespace && seq_lt(a.name, b.name))
}

proof fn lemma_key_order(a: SkillMetadataView, b: SkillMetadataView, c: SkillMetadataView)
    ensures
        !key_lt(a, a),
        (a.namespace != b.namespace || a.name != b.name) ==> (key_lt(a, b) || key_lt(b, a)),
        !(key_lt(a, b) && key_lt(b, a)),
        key_lt(a, b) && key_lt(b, c) ==> key_lt(a, c),
{
    lemma_seq_lt_irrefl(a.namespace);
    lemma_seq_lt_irrefl(a.name);
    lemma_seq_lt_total(a.namespace, b.namespace);
    lemma_seq_lt_total(a.name, b.name);
    if key_lt(a, b) && key_lt(b, c) {
        if seq_lt(a.namespace, b.namespace) && seq_lt(b.namespace, c.namespace) {
            lemma_seq_lt_trans(a.namespace, b.namespace, c.namespace);
        }
        if seq_lt(a.name, b.name) && seq_lt(b.name, c.name) {
            lemma_seq_lt_trans(a.name, b.name, c.name);
        }
    }
}

/// Whether `s` is strictly ascending by namespace, then name.
pub open spec fn sorted_by_key(s: Seq<SkillMetadataView>) -> bool {
    forall|i: int, j: int| 0 <= i < j < s.len() ==> key_lt(s[i], s[j])
}

fn metadata_key_lt(a: &SkillMetadata, b: &SkillMetadata) -> (r: bool)
    ensures
        r == key_lt(a@, b@),
{
    let ans = chars_of(a.namespace.as_str());
    let bns = chars_of(b.namespace.as_str());
    if crate::text::chars_lt(ans.as_slice(), bns.as_slice()) {
        return true;
    }
    if !str_eq(a.namespace.as_str(), b.namespace.as_str()) {
        return false;
    }
    let an = chars_of(a.name.as_str());
    let bn = chars_of(b.name.as_str());
    crate::text::chars_lt(an.as_slice(), bn.as_slice())
}

/// The entries of `v`, sorted by namespace, then name.
fn sort_by_key(v: &Vec<SkillMetadata>) -> (r: Vec<SkillMetadata>)
    requires
        names_distinct(metas_view(v@)),
    ensures
        sorted_by_key(metas_view(r@)),
        metas_view(r@).to_set() == metas_view(v@).to_set(),
        r@.len() == v@.len(),
{
    let ghost vv = metas_view(v@);
    let mut r: Vec<SkillMetadata> = Vec::new();
    let mut i: usize = 0;
    while i < v.len()
        invariant
            i <= v@.len(),
            vv == metas_view(v@),
            names_distinct(vv),
            r@.len() == i,
            sorted_by_key(metas_view(r@)),
            metas_view(r@).to_set() == vv.take(i as int).to_set(),
        decreases v@.len() - i,
    {
        let x = copy_metadata(&v[i]);
        let ghost rv = metas_view(r@);
        let mut p: usize = 0;
        while p < r.len() && !metadata_key_lt(&x, &r[p])
            invariant
                p <= r@.len(),
                rv == metas_view(r@),
                forall|m: int| 0 <= m < p ==> !key_lt(x@, #[trigger] rv[m]),
            decreases r@.len() - p,
        {
            p = p + 1;
        }
        proof {
            // x differs in key from every entry so far.
            assert forall|m: int| 0 <= m < rv.len() implies (rv[m].namespace != x@.namespace
                || rv[m].name != x@.name) by {
                let t0 = vv.take(i as int);
                assert(rv.to_set().contains(rv[m]));
                assert(t0.contains(rv[m]));
                let w = choose|w: int| 0 <= w < t0.len() && t0[w] == rv[m];
                assert(full_name_of(vv[w]) != full_name_of(vv[i as int]));
            }
            assert forall|m: int| 0 <= m < p implies key_lt(#[trigger] rv[m], x@) by {
                lemma_key_order(x@, rv[m], x@);
            }
            assert forall|m: int| p <= m < rv.len() implies key_lt(x@, #[trigger] rv[m]) by {
                lemma_key_order(x@, rv[p as int], rv[m]);
            }
        }
        let ghost xv = x@;
        r.insert(p, x);
        proof {
            let nv = metas_view(r@);
            assert(nv =~= rv.insert(p as int, xv));
            assert forall|a: int, b: int| 0 <= a < b < nv.len() implies key_lt(nv[a], nv[b]) by {
                if a < p && b < p {
                } else if a < p && b == p {
                } else if a < p && b > p {
                    assert(nv[b] == rv[b - 1]);
                } else if a == p {
                    assert(nv[b] == rv[b - 1]);
                } else {
                    assert(nv[a] == rv[a - 1]);
                    assert(nv[b] == rv[b - 1]);
                }
            }
            let t0 = vv.take(i as int);
            let t1 = vv.take(i + 1);
            assert(t1 =~= t0.push(xv));
            assert forall|y: SkillMetadataView| nv.contains(y) <==> t1.contains(y) by {
                if nv.contains(y) {
                    let w = choose|w: int| 0 <= w < nv.len() && nv[w] == y;
                    if w < p {
                        assert(rv[w] == y);
                        assert(rv.to_set().contains(y));
                    } else if w > p {
                        assert(rv[w - 1] == y);
                        assert(rv.to_set().contains(y));
                    }
                    if y != xv {
                        assert(t0.to_set().contains(y));
                        let u = choose|u: int| 0 <= u < t0.len() && t0[u] == y;
                        assert(t1[u] == y);
                    } else {
                        assert(t1[i as int] == y);
                    }
                }
                if t1.contains(y) {
                    let u = choose|u: int| 0 <= u < t1.len() && t1[u] == y;
                    if u < i {
                        assert(t0[u] == y);
                        assert(t0.to_set().contains(y));
                        assert(rv.to_set().contains(y));
                        let w = choose|w: int| 0 <= w < rv.len() && rv[w] == y;
                        if w < p {
                            assert(nv[w] == y);
                        } else {
                            assert(nv[w + 1] == y);
                        }
                    } else {
                        assert(nv[p as int] == y);
                    }
                }
            }
            assert(nv.to_set() =~= vv.take(i + 1).to_set());
        }
        i = i + 1;
    }
    proof {
        assert(vv.take(i as int) =~= vv);
    }
    r
}

// ---------------------------------------------------------------------------
// The skills index
// ---------------------------------------------------------------------------

/// The lines that open the skills index.
pub open spec fn index_header() -> Seq<Seq<char>> {
    seq![
        "## Available Skills"@,
        Seq::empty(),
        "Use `invoke_skill` to load skill content into conversation context."@,
        Seq::empty(),
    ]
}

/// The index line of one skill.
pub open spec fn index_line(m: SkillMetadataView) -> Seq<char> {
    if m.namespace == "default"@ {
        "- **"@ + m.name + "**: "@ + m.description
    } else {
        "- **"@ + m.namespace + ":"@ + m.name + "**: "@ + m.description
    }
}

/// The index of the skills `s`, in the order given.
pub open spec fn index_text(s: Seq<SkillMetadataView>) -> Seq<char> {
    join_lines(index_header() + s.map_values(|m: SkillMetadataView| index_line(m)))
}

fn push_index_line(out: &mut String, m: &SkillMetadata)
    ensures
        final(out)@ == old(out)@ + "\n"@ + index_line(m@),
{
    push_str(out, "\n");
    push_str(out, "- **");
    if str_eq(m.namespace.as_str(), "default") {
        push_str(out, m.name.as_str());
    } else {
        push_str(out, m.namespace.as_str());
        push_str(out, ":");
        push_str(out, m.name.as_str());
    }
    push_str(out, "**: ");
    push_str(out, m.description.as_str());
    assert(final(out)@ =~= old(out)@ + "\n"@ + index_line(m@));
}

/// The index of the skills `v`, in the order given.
fn render_index(v: &Vec<SkillMetadata>) -> (r: String)
    ensures
        r@ == index_text(metas_view(v@)),
{
    let ghost lines = metas_view(v@).map_values(|m: SkillMetadataView| index_line(m));
    let mut out = owned("## Available Skills");
    push_str(&mut out, "\n");
    push_str(&mut out, "\n");
    push_str(&mut out, "Use `invoke_skill` to load skill content into conversation context.");
    push_str(&mut out, "\n");
    proof {
        let h = index_header();
        let j1 = join_lines(h.take(1));
        assert(j1 == h[0]);
        assert(h.take(2).drop_last() =~= h.take(1));
        let j2 = join_lines(h.take(2));
        assert(j2 == j1 + "\n"@ + h[1]);
        assert(h.take(3).drop_last() =~= h.take(2));
        let j3 = join_lines(h.take(3));
        assert(j3 == j2 + "\n"@ + h[2]);
        assert(h.drop_last() =~= h.take(3));
        assert(join_lines(h) == j3 + "\n"@ + h[3]);
        assert(out@ =~= join_lines(h));
        assert(h + lines.take(0) =~= h);
    }
    let mut k: usize = 0;
    while k < v.len()
        invariant
            k <= v@.len(),
            lines == metas_view(v@).map_values(|m: SkillMetadataView| index_line(m)),
            out@ == join_lines(index_header() + lines.take(k as int)),
        decreases v@.len() - k,
    {
        let ghost prev = index_header() + lines.take(k as int);
        push_index_line(&mut out, &v[k]);
        proof {
            let next = index_header() + lines.take(k + 1);
            assert(next.drop_last() =~= prev);
            assert(next.last() == index_line(v@[k as int]@));
        }
        k = k + 1;
    }
    proof {
        assert(lines.take(v@.len() as int) =~= lines);
    }
    out
}

// ---------------------------------------------------------------------------
// Variables
// ---------------------------------------------------------------------------

/// The placeholder `{{key}}`.
pub open spec fn placeholder(key: Seq<char>) -> Seq<char> {
    "{{"@ + key + "}}"@
}

/// `content` with the placeholder of each variable, in turn, replaced by its
/// value.
pub open spec fn expanded(content: Seq<char>, vars: Seq<(Seq<char>, Seq<char>)>) -> Seq<char>
    decreases vars.len(),
{
    if vars.len() == 0 {
        content
    } else {
        replace_all(
            expanded(content, vars.drop_last()),
            placeholder(vars.last().0),
            vars.last().1,
        )
    }
}

// ---------------------------------------------------------------------------
// The loader
// ---------------------------------------------------------------------------

/// What loading a skill needs next.
pub enum LoadStep {
    /// The skill was loaded before.
    Cached(LoadedSkill),
    /// No skill has been discovered yet: discover, then ask again.
    Discover,
    /// There is no such skill, or nothing to read it from.
    NotFound,
    /// The skill's file must be read.
    Read { metadata: SkillMetadata, path: String },
    /// The skill's raw content is at hand.
    Ready { metadata: SkillMetadata, raw: String },
}

/// Discovers skills and loads their content.
///
/// Metadata is discovered up front; content is loaded when a skill is
/// invoked.
pub struct SkillLoader {
    /// Directories to scan, in priority order (first = highest priority).
    dirs: Vec<String>,
    /// Skills loaded so far: the name they were asked by, and the skill.
    cache: Vec<(String, LoadedSkill)>,
    /// Discovered metadata, one entry per full name.
    metadata_cache: Vec<SkillMetadata>,
}

/// The name of a skill as [`SkillLoader::get_skill_names`] lists it.
pub open spec fn listed_name(m: SkillMetadataView) -> Seq<char> {
    if m.namespace == "default"@ {
        m.name
    } else {
        full_name_of(m)
    }
}

/// The catalog entry found by `name`: by full name first, else the first
/// entry with that bare name.
pub open spec fn find_in_catalog(c: Seq<SkillMetadataView>, name: Seq<char>) -> Option<
    SkillMetadataView,
> {
    match catalog_entry(c, name) {
        Some(m) => Some(m),
        None => first_with_bare_name(c, name),
    }
}

/// The first entry of `c` whose bare name is `name`.
pub open spec fn first_with_bare_name(c: Seq<SkillMetadataView>, name: Seq<char>) -> Option<
    SkillMetadataView,
>
    decreases c.len(),
{
    if c.len() == 0 {
        None
    } else if c[0].name == name {
        Some(c[0])
    } else {
        first_with_bare_name(c.drop_first(), name)
    }
}

impl SkillLoader {
    /// The directories to scan, in priority order.
    pub closed spec fn dirs_view(&self) -> Seq<Seq<char>> {
        self.dirs@.map_values(|d: String| d@)
    }

    /// The discovered metadata.
    pub closed spec fn catalog(&self) -> Seq<SkillMetadataView> {
        metas_view(self.metadata_cache@)
    }

    /// The names of the skills loaded so far.
    pub closed spec fn loaded_names(&self) -> Seq<Seq<char>> {
        self.cache@.map_values(|e: (String, LoadedSkill)| e.0@)
    }

    /// The content loaded under `name`, if any.
    pub closed spec fn loaded(&self, name: Seq<char>) -> Option<(SkillMetadataView, Seq<char>)> {
        loaded_lookup(self.cache@, name)
    }

    /// Each full name occurs once in the catalog.
    pub closed spec fn well_formed(&self) -> bool {
        names_distinct(self.catalog())
    }

    /// Creates a loader over `skill_dirs`, in priority order (first =
    /// highest). Directories that do not exist are tolerated.
    pub fn new(skill_dirs: Vec<String>) -> (r: Self)
        ensures
            r.well_formed(),
            r.dirs_view() == skill_dirs@.map_values(|d: String| d@),
            r.catalog() == Seq::<SkillMetadataView>::empty(),
            r.loaded_names() == Seq::<Seq<char>>::empty(),
    {
        let r = SkillLoader { dirs: skill_dirs, cache: Vec::new(), metadata_cache: Vec::new() };
        assert(r.catalog() =~= Seq::<SkillMetadataView>::empty());
        assert(r.loaded_names() =~= Seq::<Seq<char>>::empty());
        r
    }

    /// The directories to scan, in priority order.
    pub fn dirs(&self) -> (r: &[String])
        ensures
            r@.map_values(|d: String| d@) == self.dirs_view(),
    {
        self.dirs.as_slice()
    }

    /// The number of skills loaded so far.
    pub fn cached_count(&self) -> (r: usize)
        ensures
            r == self.loaded_names().len(),
    {
        self.cache.len()
    }

    /// Whether no skill has been discovered yet.
    pub fn needs_discovery(&self) -> (r: bool)
        ensures
            r == (self.catalog().len() == 0),
    {
        self.metadata_cache.len() == 0
    }

    /// Rebuilds the catalog from the built-in skills and the files found on
    /// disk, given one list per directory of the loader (highest priority
    /// first), and returns it. A skill of a directory replaces one of the
    /// same full name from a later directory or the built-ins.
    pub fn discover_skills(&mut self, scanned: &[Vec<ScannedSkillFile>]) -> (r: Vec<SkillMetadata>)
        requires
            scanned@.len() == old(self).dirs_view().len(),
            groups_parse(groups_view(scanned@)),
        ensures
            final(self).well_formed(),
            final(self).catalog() == catalog_of(candidates(scan_order(groups_view(scanned@)))),
            metas_view(r@) == final(self).catalog(),
            final(self).dirs_view() == old(self).dirs_view(),
            final(self).loaded_names() == old(self).loaded_names(),
            forall|n: Seq<char>| #[trigger] final(self).loaded(n) == old(self).loaded(n),
    {
        let files = files_in_scan_order(scanned);
        proof {
            lemma_scan_order_parse(groups_view(scanned@));
        }
        self.discover_from(files.as_slice())
    }

    /// Rebuilds the catalog from the built-in skills and the files given,
    /// lowest priority first; a later skill replaces an earlier one with
    /// the same full name.
    fn discover_from(&mut self, scanned: &[ScannedSkillFile]) -> (r: Vec<SkillMetadata>)
        requires
            scanned_parse(scanned_view(scanned@)),
        ensures
            final(self).well_formed(),
            final(self).catalog() == catalog_of(candidates(scanned_view(scanned@))),
            metas_view(r@) == final(self).catalog(),
            final(self).dirs_view() == old(self).dirs_view(),
            final(self).loaded_names() == old(self).loaded_names(),
            forall|n: Seq<char>| #[trigger] final(self).loaded(n) == old(self).loaded(n),
    {
        let ghost sv = scanned_view(scanned@);
        let ghost bc = builtin_candidates_of(builtin_files());
        let mut catalog: Vec<SkillMetadata> = Vec::new();
        let files = builtin_file_list();
        let ghost fs = builtin_files();
        let mut k: usize = 0;
        while k < files.len()
            invariant
                k <= files@.len() == fs.len(),
                fs == builtin_files(),
                forall|i: int|
                    0 <= i < files@.len() ==> (#[trigger] files@[i]).0@ == fs[i].0 && files@[i].1@
                        == fs[i].1,
                metas_view(catalog@) == catalog_of(builtin_candidates_of(fs.take(k as int))),
            decreases files@.len() - k,
        {
            proof {
                assert(fs.take(k + 1).drop_last() =~= fs.take(k as int));
                assert(fs.take(k + 1).last() == fs[k as int]);
            }
            let (file_name, content) = files[k];
            if !block_fails_in(content) {
                if let Some(mut meta) = parse_frontmatter_str(content) {
                    if meta.name.as_str().is_empty() {
                        meta.name = strip_md(file_name);
                    }
                    proof {
                        assert(builtin_candidate(fs[k as int]) == Some(meta@));
                        assert(builtin_candidates_of(fs.take(k + 1)) == builtin_candidates_of(
                            fs.take(k as int),
                        ).push(meta@));
                        assert(builtin_candidates_of(fs.take(k + 1)).drop_last() =~= builtin_candidates_of(
                            fs.take(k as int),
                        ));
                    }
                    put_metadata(&mut catalog, meta);
                } else {
                    assert(builtin_candidate(fs[k as int]) is None);
                }
            } else {
                assert(builtin_candidate(fs[k as int]) is None);
            }
            k = k + 1;
        }
        proof {
            assert(fs.take(fs.len() as int) =~= fs);
        }
        let mut i: usize = 0;
        while i < scanned.len()
            invariant
                i <= scanned@.len(),
                sv == scanned_view(scanned@),
                bc == builtin_candidates_of(builtin_files()),
                scanned_parse(sv),
                metas_view(catalog@) == catalog_of(bc + scanned_candidates(sv.take(i as int))),
            decreases scanned@.len() - i,
        {
            let f = &scanned[i];
            proof {
                assert(sv.take(i + 1).drop_last() =~= sv.take(i as int));
                assert(sv.take(i + 1).last() == f@);
                assert(sv[i as int] == f@);
                assert(!frontmatter_fails(sv[i as int].content));
            }
            if let Some(mut meta) = metadata_for_file(f.path.as_str(), f.content.as_str()) {
                meta.path = Some(f.path.clone());
                meta.source = f.source;
                proof {
                    let before = bc + scanned_candidates(sv.take(i as int));
                    assert(bc + scanned_candidates(sv.take(i + 1)) =~= before.push(meta@));
                    assert((before.push(meta@)).drop_last() =~= before);
                }
                put_metadata(&mut catalog, meta);
            } else {
                proof {
                    assert(bc + scanned_candidates(sv.take(i + 1)) =~= bc + scanned_candidates(
                        sv.take(i as int),
                    ));
                }
            }
            i = i + 1;
        }
        proof {
            assert(sv.take(sv.len() as int) =~= sv);
            lemma_catalog_of(candidates(sv));
        }
        let r = copy_metadata_list(&catalog);
        self.metadata_cache = catalog;
        r
    }

    /// The skills index for the system prompt: a header, then one line per
    /// skill, sorted by namespace and name; empty where there is no skill.
    /// Discovers the skills first.
    pub fn build_skills_index(&mut self, scanned: &[Vec<ScannedSkillFile>]) -> (r: String)
        requires
            scanned@.len() == old(self).dirs_view().len(),
            groups_parse(groups_view(scanned@)),
        ensures
            final(self).well_formed(),
            final(self).catalog() == catalog_of(candidates(scan_order(groups_view(scanned@)))),
            final(self).catalog().len() == 0 ==> r@ == Seq::<char>::empty(),
            final(self).catalog().len() > 0 ==> exists|s: Seq<SkillMetadataView>|
                sorted_by_key(s) && s.len() == final(self).catalog().len() && s.to_set()
                    == final(self).catalog().to_set() && r@ == #[trigger] index_text(s),
    {
        let skills = self.discover_skills(scanned);
        if skills.len() == 0 {
            return String::new();
        }
        let sorted = sort_by_key(&skills);
        let r = render_index(&sorted);
        assert(index_text(metas_view(sorted@)) == r@);
        r
    }

    /// The names of all skills (with a namespace prefix outside the
    /// `default` namespace). Discovers the skills first where none has been.
    pub fn get_skill_names(&mut self, scanned: &[Vec<ScannedSkillFile>]) -> (r: Vec<String>)
        requires
            old(self).well_formed(),
            scanned@.len() == old(self).dirs_view().len(),
            groups_parse(groups_view(scanned@)),
        ensures
            final(self).well_formed(),
            old(self).catalog().len() == 0 ==> final(self).catalog() == catalog_of(
                candidates(scan_order(groups_view(scanned@))),
            ),
            old(self).catalog().len() > 0 ==> final(self).catalog() == old(self).catalog(),
            r@.map_values(|s: String| s@) == final(self).catalog().map_values(
                |m: SkillMetadataView| listed_name(m),
            ),
    {
        if self.metadata_cache.len() == 0 {
            self.discover_skills(scanned);
        }
        let mut r: Vec<String> = Vec::new();
        let mut k: usize = 0;
        while k < self.metadata_cache.len()
            invariant
                k <= self.metadata_cache@.len(),
                r@.map_values(|s: String| s@) == self.catalog().take(k as int).map_values(
                    |m: SkillMetadataView| listed_name(m),
                ),
            decreases self.metadata_cache@.len() - k,
        {
            let m = &self.metadata_cache[k];
            let name = if str_eq(m.namespace.as_str(), "default") {
                m.name.clone()
            } else {
                m.full_name()
            };
            proof {
                assert(r@.push(name).map_values(|s: String| s@) =~= r@.map_values(|s: String| s@).push(name@));
                assert(self.catalog().take(k + 1).map_values(|m: SkillMetadataView| listed_name(m))
                    =~= self.catalog().take(k as int).map_values(|m: SkillMetadataView| listed_name(m)).push(
                    listed_name(m@),
                ));
            }
            r.push(name);
            k = k + 1;
        }
        proof {
            assert(self.catalog().take(k as int) =~= self.catalog());
        }
        r
    }

    /// Clears the loaded skills and the discovered metadata.
    pub fn clear_cache(&mut self)
        ensures
            final(self).well_formed(),
            final(self).catalog() == Seq::<SkillMetadataView>::empty(),
            final(self).loaded_names() == Seq::<Seq<char>>::empty(),
            final(self).dirs_view() == old(self).dirs_view(),
    {
        self.cache = Vec::new();
        self.metadata_cache = Vec::new();
        assert(self.catalog() =~= Seq::<SkillMetadataView>::empty());
        assert(self.loaded_names() =~= Seq::<Seq<char>>::empty());
    }

    /// The catalog entry found by `name`: by full name first, else the first
    /// entry with that bare name.
    pub fn find_metadata(&self, name: &str) -> (r: Option<SkillMetadata>)
        ensures
            match r {
                Some(m) => find_in_catalog(self.catalog(), name@) == Some(m@),
                None => find_in_catalog(self.catalog(), name@) is None,
            },
    {
        let ghost c = self.catalog();
        let mut k = self.metadata_cache.len();
        proof {
            assert(c.take(c.len() as int) =~= c);
        }
        while k > 0
            invariant
                k <= self.metadata_cache@.len(),
                c == self.catalog(),
                index_of_full(c, name@) == index_of_full(c.take(k as int), name@),
            decreases k,
        {
            proof {
                assert(c.take(k as int).drop_last() =~= c.take(k - 1));
                assert(c.take(k as int).last() == self.metadata_cache@[k - 1]@);
            }
            let f = self.metadata_cache[k - 1].full_name();
            if str_eq(f.as_str(), name) {
                return Some(copy_metadata(&self.metadata_cache[k - 1]));
            }
            k = k - 1;
        }
        let mut j: usize = 0;
        proof {
            assert(c.subrange(0, c.len() as int) =~= c);
        }
        while j < self.metadata_cache.len()
            invariant
                j <= self.metadata_cache@.len(),
                c == self.catalog(),
                index_of_full(c, name@) is None,
                first_with_bare_name(c, name@) == first_with_bare_name(
                    c.subrange(j as int, c.len() as int),
                    name@,
                ),
            decreases self.metadata_cache@.len() - j,
        {
            proof {
                let rest = c.subrange(j as int, c.len() as int);
                assert(rest.drop_first() =~= c.subrange(j + 1, c.len() as int));
                assert(rest[0] == self.metadata_cache@[j as int]@);
            }
            if str_eq(self.metadata_cache[j].name.as_str(), name) {
                return Some(copy_metadata(&self.metadata_cache[j]));
            }
            j = j + 1;
        }
        None
    }

    /// The skill loaded before under `name`, if any.
    pub fn cached_skill(&self, name: &str) -> (r: Option<LoadedSkill>)
        ensures
            match r {
                Some(s) => self.loaded(name@) == Some((s.metadata@, s.content@)),
                None => self.loaded(name@) is None,
            },
    {
        let ghost cv = self.cache@;
        let mut k: usize = 0;
        proof {
            assert(cv.subrange(0, cv.len() as int) =~= cv);
        }
        while k < self.cache.len()
            invariant
                k <= self.cache@.len(),
                cv == self.cache@,
                loaded_lookup(cv, name@) == loaded_lookup(cv.subrange(k as int, cv.len() as int), name@),
            decreases self.cache@.len() - k,
        {
            proof {
                let rest = cv.subrange(k as int, cv.len() as int);
                assert(rest.drop_first() =~= cv.subrange(k + 1, cv.len() as int));
                assert(rest[0] == cv[k as int]);
            }
            if str_eq(self.cache[k].0.as_str(), name) {
                return Some(copy_loaded(&self.cache[k].1));
            }
            k = k + 1;
        }
        None
    }

    /// Decides what loading skill `name` needs next: the cached skill, a
    /// discovery (where none has been made and `may_discover` holds), the
    /// built-in content, the file to read, or nothing.
    pub fn plan_load(&self, name: &str, may_discover: bool) -> (r: LoadStep)
        ensures
            self.loaded(name@) is Some ==> r is Cached,
            r matches LoadStep::Cached(s) ==> self.loaded(name@) == Some((s.metadata@, s.content@)),
            self.loaded(name@) is None ==> (r is Discover <==> (may_discover && self.catalog().len() == 0)),
            r matches LoadStep::NotFound ==> self.loaded(name@) is None && !(may_discover && self.catalog().len() == 0)
                && (match find_in_catalog(self.catalog(), name@) {
                    Some(m) => if m.source == SkillSource::Builtin {
                        builtin_content_of(builtin_files(), m.name) is None
                    } else {
                        m.path is None
                    },
                    None => true,
                }),
            r matches LoadStep::Ready { metadata, raw } ==> self.loaded(name@) is None
                && find_in_catalog(self.catalog(), name@) == Some(metadata@)
                && metadata@.source == SkillSource::Builtin
                && builtin_content_of(builtin_files(), metadata@.name) == Some(raw@),
            r matches LoadStep::Read { metadata, path } ==> self.loaded(name@) is None
                && find_in_catalog(self.catalog(), name@) == Some(metadata@)
                && metadata@.source != SkillSource::Builtin
                && metadata@.path == Some(path@),
    {
        if let Some(s) = self.cached_skill(name) {
            return LoadStep::Cached(s);
        }
        if may_discover && self.metadata_cache.len() == 0 {
            return LoadStep::Discover;
        }
        let meta = match self.find_metadata(name) {
            Some(m) => m,
            None => return LoadStep::NotFound,
        };
        if meta.source == SkillSource::Builtin {
            match builtin_content(meta.name.as_str()) {
                Some(c) => LoadStep::Ready { metadata: meta, raw: owned(c) },
                None => LoadStep::NotFound,
            }
        } else {
            match &meta.path {
                Some(p) => {
                    let path = p.clone();
                    LoadStep::Read { metadata: meta, path }
                },
                None => LoadStep::NotFound,
            }
        }
    }

    /// Finishes loading skill `name` from its raw content: the frontmatter
    /// is removed and the skill is cached under `name`.
    pub fn complete_load(&mut self, name: &str, metadata: SkillMetadata, raw: &str) -> (r: LoadedSkill)
        requires
            old(self).well_formed(),
        ensures
            final(self).well_formed(),
            r.metadata@ == metadata@,
            r.content@ == without_frontmatter(raw@),
            final(self).loaded(name@) == Some((metadata@, without_frontmatter(raw@))),
            forall|other: Seq<char>| other != name@ ==> #[trigger] final(self).loaded(other) == old(self).loaded(other),
            final(self).catalog() == old(self).catalog(),
            final(self).dirs_view() == old(self).dirs_view(),
    {
        let content = strip_frontmatter(raw);
        let skill = LoadedSkill { metadata, content };
        let copy = copy_loaded(&skill);
        let ghost old_cache = self.cache@;
        let key = owned(name);
        let mut k: usize = 0;
        while k < self.cache.len()
            invariant
                k <= self.cache@.len(),
                self.cache@ == old_cache,
                old_cache == old(self).cache@,
                key@ == name@,
                copy.metadata@ == metadata@,
                copy.content@ == without_frontmatter(raw@),
                skill.metadata@ == metadata@,
                skill.content@ == without_frontmatter(raw@),
                names_distinct(metas_view(self.metadata_cache@)),
                self.metadata_cache@ == old(self).metadata_cache@,
                self.dirs@ == old(self).dirs@,
                forall|m: int| 0 <= m < k ==> old_cache[m].0@ != name@,
            decreases self.cache@.len() - k,
        {
            if str_eq(self.cache[k].0.as_str(), name) {
                let ghost entry = (key, copy);
                self.cache[k] = (key, copy);
                proof {
                    lemma_loaded_update(old_cache, k as int, entry);
                }
                return skill;
            }
            k = k + 1;
        }
        let ghost entry = (key, copy);
        self.cache.push((key, copy));
        proof {
            lemma_loaded_push(old_cache, entry);
        }
        skill
    }

    /// `content` with each `{{key}}` placeholder replaced by its value,
    /// variable by variable in the order given.
    pub fn expand_variables(content: &str, variables: &[(String, String)]) -> (r: String)
        ensures
            r@ == expanded(content@, entry_views(variables@)),
    {
        let ghost vv = entry_views(variables@);
        let mut result = chars_of(content);
        let mut k: usize = 0;
        while k < variables.len()
            invariant
                k <= variables@.len(),
                vv == entry_views(variables@),
                result@ == expanded(content@, vv.take(k as int)),
            decreases variables@.len() - k,
        {
            proof {
                reveal_strlit("{{");
                reveal_strlit("}}");
                assert(vv.take(k + 1).drop_last() =~= vv.take(k as int));
                assert(vv.take(k + 1).last() == vv[k as int]);
            }
            let mut ph = owned("{{");
            push_str(&mut ph, variables[k].0.as_str());
            push_str(&mut ph, "}}");
            let p = chars_of(ph.as_str());
            let v = chars_of(variables[k].1.as_str());
            result = replace_chars(result.as_slice(), p.as_slice(), v.as_slice());
            k = k + 1;
        }
        proof {
            assert(vv.take(vv.len() as int) =~= vv);
        }
        string_of(result.as_slice())
    }
}

/// The skill stored under `name` in a cache: the first entry with that name.
pub open spec fn loaded_lookup(c: Seq<(String, LoadedSkill)>, name: Seq<char>) -> Option<
    (SkillMetadataView, Seq<char>),
>
    decreases c.len(),
{
    if c.len() == 0 {
        None
    } else if c[0].0@ == name {
        Some((c[0].1.metadata@, c[0].1.content@))
    } else {
        loaded_lookup(c.drop_first(), name)
    }
}

proof fn lemma_loaded_update(c: Seq<(String, LoadedSkill)>, k: int, e: (String, LoadedSkill))
    requires
        0 <= k < c.len(),
        c[k].0@ == e.0@,
        forall|m: int| 0 <= m < k ==> c[m].0@ != e.0@,
    ensures
        loaded_lookup(c.update(k, e), e.0@) == Some((e.1.metadata@, e.1.content@)),
        forall|other: Seq<char>| other != e.0@ ==> #[trigger] loaded_lookup(c.update(k, e), other)
            == loaded_lookup(c, other),
    decreases k,
{
    let u = c.update(k, e);
    if k > 0 {
        lemma_loaded_update(c.drop_first(), k - 1, e);
        assert(u.drop_first() =~= c.drop_first().update(k - 1, e));
    } else {
        assert(u.drop_first() =~= c.drop_first());
    }
    assert forall|other: Seq<char>| other != e.0@ implies #[trigger] loaded_lookup(u, other)
        == loaded_lookup(c, other) by {
        if k > 0 {
            assert(u[0] == c[0]);
            if c[0].0@ != other {
                assert(loaded_lookup(u, other) == loaded_lookup(u.drop_first(), other));
                assert(loaded_lookup(c.drop_first().update(k - 1, e), other) == loaded_lookup(
                    c.drop_first(),
                    other,
                ));
            }
        } else {
            assert(u[0] == e);
            assert(c[0].0@ == e.0@);
            assert(loaded_lookup(u, other) == loaded_lookup(u.drop_first(), other));
            assert(loaded_lookup(c, other) == loaded_lookup(c.drop_first(), other));
        }
    }
}

proof fn lemma_loaded_push(c: Seq<(String, LoadedSkill)>, e: (String, LoadedSkill))
    requires
        forall|m: int| 0 <= m < c.len() ==> c[m].0@ != e.0@,
    ensures
        loaded_lookup(c.push(e), e.0@) == Some((e.1.metadata@, e.1.content@)),
        forall|other: Seq<char>| other != e.0@ ==> #[trigger] loaded_lookup(c.push(e), other)
            == loaded_lookup(c, other),
    decreases c.len(),
{
    if c.len() > 0 {
        lemma_loaded_push(c.drop_first(), e);
        assert(c.push(e).drop_first() =~= c.drop_first().push(e));
        assert(c.push(e)[0] == c[0]);
    } else {
        assert(c.push(e).drop_first() =~= c);
    }
    assert forall|other: Seq<char>| other != e.0@ implies #[trigger] loaded_lookup(c.push(e), other)
        == loaded_lookup(c, other) by {
        if c.len() > 0 {
            assert(c.push(e)[0] == c[0]);
        } else {
            assert(c.push(e).drop_first() =~= c);
        }
    }
}

/// Whether parsing the frontmatter of `content` would meet a lone quote.
fn block_fails_in(content: &str) -> (r: bool)
    ensures
        r == frontmatter_fails(content@),
{
    let cs = chars_of(content);
    match find_block_end(cs.as_slice()) {
        Some(k) => {
            let body = string_of(slice_range(cs.as_slice(), 4, k).as_slice());
            block_fails(body.as_str())
        },
        None => false,
    }
}

} // verus!
