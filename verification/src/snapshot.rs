//! Bookkeeping of the shadow git snapshots used for per-step undo.
//!
//! A parallel shadow git repository at `~/.opendev/snapshot/<project_id>/`
//! captures a tree hash at every agent step. Running git is the caller's
//! part; this module names the repository, keeps the list of snapshots, and
//! reads what git printed.
use vstd::prelude::*;
use std::collections::hash_map::DefaultHasher;
use std::hash::Hasher;
use vstd::std_specs::hash::DefaultHasherAdditionalSpecFns;
use vstd::string::StringSliceAdditionalSpecFns;

use crate::text::{owned, push_char, push_decimal, push_str, split_on, trim};

verus! {

/// The lowercase hexadecimal digit for `d < 16`.
pub open spec fn hex_digit(d: nat) -> char {
    if d < 10 {
        crate::text::digit(d)
    } else if d == 10 {
        'a'
    } else if d == 11 {
        'b'
    } else if d == 12 {
        'c'
    } else if d == 13 {
        'd'
    } else if d == 14 {
        'e'
    } else {
        'f'
    }
}

/// The last `k` hexadecimal digits of `n`, most significant first (what
/// `{:016x}` prints for `k == 16` and `n < 2^64`).
pub open spec fn hex_fixed(n: nat, k: nat) -> Seq<char>
    decreases k,
{
    if k == 0 {
        Seq::empty()
    } else {
        hex_fixed(n / 16, (k - 1) as nat).push(hex_digit(n % 16))
    }
}

fn hex_digit_char(d: u64) -> (c: char)
    requires
        d < 16,
    ensures
        c == hex_digit(d as nat),
{
    if d < 10 {
        if d == 0 {
            '0'
        } else if d == 1 {
            '1'
        } else if d == 2 {
            '2'
        } else if d == 3 {
            '3'
        } else if d == 4 {
            '4'
        } else if d == 5 {
            '5'
        } else if d == 6 {
            '6'
        } else if d == 7 {
            '7'
        } else if d == 8 {
            '8'
        } else {
            '9'
        }
    } else if d == 10 {
        'a'
    } else if d == 11 {
        'b'
    } else if d == 12 {
        'c'
    } else if d == 13 {
        'd'
    } else if d == 14 {
        'e'
    } else {
        'f'
    }
}

fn push_hex(s: &mut String, n: u64, k: u64)
    ensures
        final(s)@ == old(s)@ + hex_fixed(n as nat, k as nat),
    decreases k,
{
    if k > 0 {
        push_hex(s, n / 16, k - 1);
        push_char(s, hex_digit_char(n % 16));
    }
    assert(s@ =~= old(s)@ + hex_fixed(n as nat, k as nat));
}

/// The bytes that hashing a `str` feeds a hasher: its UTF-8 bytes, then
/// `0xFF`.
pub open spec fn str_hash_input(s: &str) -> Seq<Seq<u8>> {
    seq![s.spec_bytes(), seq![0xffu8]]
}

/// A stable, filesystem-safe id for a project path: the 16 hexadecimal
/// digits of the path's hash under the standard library's default hasher.
pub fn encode_project_id(project_path: &str) -> (r: String)
    ensures
        r@ == hex_fixed(DefaultHasher::spec_finish(str_hash_input(project_path)) as nat, 16),
        r@.len() == 16,
{
    let mut hasher = DefaultHasher::new();
    hasher.write(project_path.as_bytes());
    let end: [u8; 1] = [0xffu8];
    hasher.write(&end);
    proof {
        assert(end@ =~= seq![0xffu8]);
        assert(hasher@ =~= str_hash_input(project_path));
    }
    let h = hasher.finish();
    let mut r = String::new();
    push_hex(&mut r, h, 16);
    proof {
        lemma_hex_fixed_len(h as nat, 16);
    }
    r
}

proof fn lemma_hex_fixed_len(n: nat, k: nat)
    ensures
        hex_fixed(n, k).len() == k,
    decreases k,
{
    if k > 0 {
        lemma_hex_fixed_len(n / 16, (k - 1) as nat);
    }
}

/// `a` joined with the relative path `b` (what `Path::join` gives).
pub open spec fn join_path(a: Seq<char>, b: Seq<char>) -> Seq<char> {
    if a.len() == 0 {
        b
    } else if a.last() == '/' {
        a + b
    } else {
        a + "/"@ + b
    }
}

/// The shadow repository of a project under `home` (or `/tmp` without one).
pub open spec fn shadow_dir_of(home: Option<Seq<char>>, project_id: Seq<char>) -> Seq<char> {
    join_path(
        match home {
            Some(h) => h,
            None => "/tmp"@,
        },
        ".opendev/snapshot/"@ + project_id,
    )
}

/// The non-empty lines of git's output (what `str::lines` gives, without
/// the empty ones): pieces between `\n`, a final `\r` removed from each.
pub open spec fn output_lines(s: Seq<char>) -> Seq<Seq<char>>
    decreases s.len(),
{
    nonempty_lines(split_on(s, '\n'))
}

/// A line without a final `\r`.
pub open spec fn strip_cr(l: Seq<char>) -> Seq<char> {
    if l.len() > 0 && l.last() == '\r' {
        l.drop_last()
    } else {
        l
    }
}

/// The pieces, without a final `\r`, that are not empty.
pub open spec fn nonempty_lines(ps: Seq<Seq<char>>) -> Seq<Seq<char>>
    decreases ps.len(),
{
    if ps.len() == 0 {
        Seq::empty()
    } else {
        let prev = nonempty_lines(ps.drop_last());
        let l = strip_cr(ps.last());
        if l.len() > 0 {
            prev.push(l)
        } else {
            prev
        }
    }
}

/// The description of an undo that reverted `changed`.
pub open spec fn undo_text(changed: Seq<Seq<char>>) -> Seq<char> {
    if changed.len() <= 5 {
        "Reverted "@ + crate::text::decimal(changed.len()) + " file(s) to previous state: "@
            + crate::paths::join_sep(changed, ", "@)
    } else {
        "Reverted "@ + crate::text::decimal(changed.len()) + " file(s) to previous state"@
    }
}

/// The shadow snapshots of one project.
pub struct SnapshotManager {
    project_dir: String,
    project_id: String,
    shadow_dir: String,
    snapshots: Vec<String>,
    initialized: bool,
}

impl SnapshotManager {
    /// The project directory.
    pub closed spec fn project_dir_view(&self) -> Seq<char> {
        self.project_dir@
    }

    /// The project's id.
    pub closed spec fn project_id_view(&self) -> Seq<char> {
        self.project_id@
    }

    /// The shadow repository's directory.
    pub closed spec fn shadow_dir_view(&self) -> Seq<char> {
        self.shadow_dir@
    }

    /// The tree hashes recorded this session, oldest first.
    pub closed spec fn snapshots_view(&self) -> Seq<Seq<char>> {
        self.snapshots@.map_values(|s: String| s@)
    }

    /// Whether the shadow repository is known to exist.
    pub closed spec fn initialized_view(&self) -> bool {
        self.initialized
    }

    /// A manager for the project at `project_dir` (an absolute path), with
    /// its shadow repository under `home` (or `/tmp` without one).
    pub fn new(project_dir: &str, home: Option<&str>) -> (r: Self)
        ensures
            r.project_dir_view() == project_dir@,
            r.project_id_view() == hex_fixed(
                DefaultHasher::spec_finish(str_hash_input(project_dir)) as nat,
                16,
            ),
            r.shadow_dir_view() == shadow_dir_of(
                match home {
                    Some(h) => Some(h@),
                    None => None,
                },
                r.project_id_view(),
            ),
            r.snapshots_view() == Seq::<Seq<char>>::empty(),
            !r.initialized_view(),
    {
        let project_id = encode_project_id(project_dir);
        let mut shadow_dir = match home {
            Some(h) => owned(h),
            None => owned("/tmp"),
        };
        let base = shadow_dir.clone();
        let bc = crate::text::chars_of(base.as_str());
        if bc.len() > 0 && bc[bc.len() - 1] != '/' {
            push_str(&mut shadow_dir, "/");
        }
        push_str(&mut shadow_dir, ".opendev/snapshot/");
        push_str(&mut shadow_dir, project_id.as_str());
        proof {
            reveal_strlit("/tmp");
        }
        let r = SnapshotManager {
            project_dir: owned(project_dir),
            project_id,
            shadow_dir,
            snapshots: Vec::new(),
            initialized: false,
        };
        assert(r.shadow_dir_view() =~= shadow_dir_of(
            match home {
                Some(h) => Some(h@),
                None => None,
            },
            r.project_id_view(),
        ));
        assert(r.snapshots_view() =~= Seq::<Seq<char>>::empty());
        r
    }

    /// Path to the shadow git directory.
    pub fn shadow_git_dir(&self) -> (r: &str)
        ensures
            r@ == self.shadow_dir_view(),
    {
        self.shadow_dir.as_str()
    }

    /// The project directory that git works on.
    pub fn project_dir(&self) -> (r: &str)
        ensures
            r@ == self.project_dir_view(),
    {
        self.project_dir.as_str()
    }

    /// Number of snapshots recorded this session.
    pub fn snapshot_count(&self) -> (r: usize)
        ensures
            r == self.snapshots_view().len(),
    {
        self.snapshots.len()
    }

    /// Whether the shadow repository is known to exist.
    pub fn is_initialized(&self) -> (r: bool)
        ensures
            r == self.initialized_view(),
    {
        self.initialized
    }

    /// Records that the shadow repository exists.
    pub fn mark_initialized(&mut self)
        ensures
            final(self).initialized_view(),
            final(self).snapshots_view() == old(self).snapshots_view(),
            final(self).shadow_dir_view() == old(self).shadow_dir_view(),
            final(self).project_dir_view() == old(self).project_dir_view(),
    {
        self.initialized = true;
    }

    /// Records the tree hash that `git write-tree` printed: its trimmed
    /// text, where not empty, becomes the newest snapshot.
    pub fn record_tree(&mut self, write_tree_output: &str) -> (r: Option<String>)
        ensures
            match r {
                Some(h) => h@ == trim(write_tree_output@) && h@.len() > 0
                    && final(self).snapshots_view() == old(self).snapshots_view().push(h@),
                None => trim(write_tree_output@).len() == 0 && final(self).snapshots_view()
                    == old(self).snapshots_view(),
            },
            final(self).initialized_view() == old(self).initialized_view(),
            final(self).shadow_dir_view() == old(self).shadow_dir_view(),
            final(self).project_dir_view() == old(self).project_dir_view(),
    {
        let cs = crate::text::chars_of(write_tree_output);
        let t = crate::text::trim_chars(cs.as_slice());
        if t.len() == 0 {
            return None;
        }
        let h = crate::text::string_of(t.as_slice());
        let c = h.clone();
        proof {
            assert(self.snapshots@.push(c).map_values(|s: String| s@) =~= self.snapshots_view().push(
                h@,
            ));
        }
        self.snapshots.push(c);
        Some(h)
    }

    /// Starts undoing the newest snapshot: where there are at least two,
    /// drops the newest and returns the one before it, to revert to.
    pub fn begin_undo(&mut self) -> (r: Option<String>)
        ensures
            old(self).snapshots_view().len() < 2 ==> r is None && final(self).snapshots_view()
                == old(self).snapshots_view(),
            old(self).snapshots_view().len() >= 2 ==> final(self).snapshots_view()
                == old(self).snapshots_view().drop_last(),
            old(self).snapshots_view().len() >= 2 ==> (r matches Some(h) && h@
                == final(self).snapshots_view().last()),
            final(self).initialized_view() == old(self).initialized_view(),
            final(self).shadow_dir_view() == old(self).shadow_dir_view(),
            final(self).project_dir_view() == old(self).project_dir_view(),
    {
        if self.snapshots.len() < 2 {
            return None;
        }
        let ghost before = self.snapshots@;
        self.snapshots.pop();
        proof {
            assert(self.snapshots@ =~= before.drop_last());
            assert(self.snapshots_view() =~= before.map_values(|s: String| s@).drop_last());
        }
        let target = self.snapshots[self.snapshots.len() - 1].clone();
        Some(target)
    }
}

/// The changed files that `git diff-tree --name-only` printed: its
/// non-empty lines.
pub fn changed_files(diff_output: &str) -> (r: Vec<String>)
    ensures
        r@.map_values(|s: String| s@) == output_lines(diff_output@),
{
    let cs = crate::text::chars_of(diff_output);
    let pieces = crate::text::split_chars(cs.as_slice(), '\n');
    let ghost ps = split_on(diff_output@, '\n');
    let mut out: Vec<String> = Vec::new();
    let mut i: usize = 0;
    while i < pieces.len()
        invariant
            i <= pieces@.len() == ps.len(),
            ps == split_on(diff_output@, '\n'),
            forall|m: int| 0 <= m < pieces@.len() ==> #[trigger] pieces@[m]@ == ps[m],
            out@.map_values(|s: String| s@) == nonempty_lines(ps.take(i as int)),
        decreases pieces@.len() - i,
    {
        proof {
            assert(ps.take(i + 1).drop_last() =~= ps.take(i as int));
            assert(pieces@[i as int]@ == ps[i as int]);
        }
        let p = &pieces[i];
        let end = if p.len() > 0 && p[p.len() - 1] == '\r' {
            p.len() - 1
        } else {
            p.len()
        };
        if end > 0 {
            let line = crate::text::string_of(crate::text::slice_range(p.as_slice(), 0, end).as_slice());
            proof {
                assert(line@ =~= strip_cr(ps[i as int]));
                assert(out@.push(line).map_values(|s: String| s@) =~= out@.map_values(|s: String| s@).push(line@));
            }
            out.push(line);
        } else {
            proof {
                assert(strip_cr(ps[i as int]).len() == 0);
            }
        }
        i = i + 1;
    }
    proof {
        assert(ps.take(ps.len() as int) =~= ps);
    }
    out
}

/// The description of an undo that reverted `changed`: the count, and the
/// files themselves where there are at most five.
pub fn undo_description(changed: &[String]) -> (r: String)
    ensures
        r@ == undo_text(changed@.map_values(|s: String| s@)),
{
    let mut r = owned("Reverted ");
    push_decimal(&mut r, changed.len() as u64);
    if changed.len() <= 5 {
        push_str(&mut r, " file(s) to previous state: ");
        let ghost cv = changed@.map_values(|s: String| s@);
        let ghost r0 = r@;
        let mut k: usize = 0;
        while k < changed.len()
            invariant
                k <= changed@.len(),
                cv == changed@.map_values(|s: String| s@),
                r@ == r0 + crate::paths::join_sep(cv.take(k as int), ", "@),
            decreases changed@.len() - k,
        {
            if k > 0 {
                push_str(&mut r, ", ");
            }
            push_str(&mut r, changed[k].as_str());
            proof {
                let t = cv.take(k + 1);
                assert(t.drop_last() =~= cv.take(k as int));
                assert(t.last() == changed@[k as int]@);
                if k == 0 {
                    assert(crate::paths::join_sep(t, ", "@) == t[0]);
                }
                assert(r@ =~= r0 + crate::paths::join_sep(t, ", "@));
            }
            k = k + 1;
        }
        proof {
            assert(cv.take(changed@.len() as int) =~= cv);
            assert(r@ =~= undo_text(cv));
        }
    } else {
        push_str(&mut r, " file(s) to previous state");
        assert(r@ =~= undo_text(changed@.map_values(|s: String| s@)));
    }
    r
}

// ---------------------------------------------------------------------------
// Git commands on the shadow repository
// ---------------------------------------------------------------------------

/// A git command run on the shadow repository.
#[derive(Debug, Clone, PartialEq, Eq)]
pub enum GitStep {
    /// `init --bare`: create the shadow repository.
    InitBare,
    /// `add --all --force` of the whole project.
    StageAll,
    /// `write-tree`: the tree hash of what is staged.
    WriteTree,
    /// `diff-tree -r --name-only`: the files that differ between two trees.
    DiffTree(String, String),
    /// `checkout <tree> -- <file>`: one file back from a tree.
    Checkout(String, String),
    /// `read-tree <tree>`: load a tree into the index.
    ReadTree(String),
    /// `checkout-index --all --force`: the index back into the project.
    CheckoutIndex,
    /// `gc --prune=7.days.ago --quiet`: free space.
    Gc,
}

/// The arguments that follow `--git-dir <shadow>` for a step.
pub open spec fn step_args(project: Seq<char>, step: GitStep) -> Seq<Seq<char>> {
    match step {
        GitStep::InitBare => seq!["init"@, "--bare"@],
        GitStep::StageAll => seq!["--work-tree"@, project, "add"@, "--all"@, "--force"@],
        GitStep::WriteTree => seq!["write-tree"@],
        GitStep::DiffTree(a, b) => seq!["diff-tree"@, "-r"@, "--name-only"@, a@, b@],
        GitStep::Checkout(t, f) => seq!["--work-tree"@, project, "checkout"@, t@, "--"@, f@],
        GitStep::ReadTree(t) => seq!["read-tree"@, t@],
        GitStep::CheckoutIndex => seq!["--work-tree"@, project, "checkout-index"@, "--all"@, "--force"@],
        GitStep::Gc => seq!["gc"@, "--prune=7.days.ago"@, "--quiet"@],
    }
}

/// The full git arguments of a step: the shadow repository, then the step's.
pub open spec fn git_command(shadow: Seq<char>, project: Seq<char>, step: GitStep) -> Seq<Seq<char>> {
    seq!["--git-dir"@, shadow] + step_args(project, step)
}

/// What the git command of each step does: it always names the shadow
/// repository first; the steps that write to or read from the project
/// (staging, checking files out, restoring the index) name the project as
/// the work tree next; staging and restoring take every file and force
/// (restoring overwrites files the agent changed); checking a file out
/// names the tree, then `--`, then the file last; a diff names the two
/// trees in order, last; reading a tree names it last.
pub proof fn law_git_commands(shadow: Seq<char>, project: Seq<char>, step: GitStep)
    ensures
        ({
            let c = git_command(shadow, project, step);
            &&& c.len() >= 3
            &&& c[0] == "--git-dir"@ && c[1] == shadow
            &&& (step is StageAll || step is Checkout || step is CheckoutIndex) ==> c[2] == "--work-tree"@ && c[3]
                == project
            &&& step is CheckoutIndex ==> c.contains("checkout-index"@) && c.contains("--all"@) && c.contains(
                "--force"@,
            )
            &&& step is StageAll ==> c.contains("add"@) && c.contains("--all"@) && c.contains("--force"@)
            &&& step matches GitStep::Checkout(t, f) ==> c.contains("checkout"@) && c[c.len() - 1] == f@ && c[c.len()
                - 2] == "--"@ && c[c.len() - 3] == t@
            &&& step matches GitStep::DiffTree(a, b) ==> c.contains("diff-tree"@) && c.contains("--name-only"@)
                && c[c.len() - 2] == a@ && c[c.len() - 1] == b@
            &&& step matches GitStep::ReadTree(t) ==> c[2] == "read-tree"@ && c[c.len() - 1] == t@
            &&& step is WriteTree ==> c[2] == "write-tree"@ && c.len() == 3
            &&& step is InitBare ==> c[2] == "init"@ && c.contains("--bare"@)
            &&& step is Gc ==> c[2] == "gc"@ && c.contains("--prune=7.days.ago"@)
        }),
{
    let c = git_command(shadow, project, step);
    match step {
        GitStep::CheckoutIndex => {
            assert(c[4] == "checkout-index"@);
            assert(c[5] == "--all"@);
            assert(c[6] == "--force"@);
        },
        GitStep::StageAll => {
            assert(c[4] == "add"@);
            assert(c[5] == "--all"@);
            assert(c[6] == "--force"@);
        },
        GitStep::Checkout(t, f) => {
            assert(c[4] == "checkout"@);
        },
        GitStep::DiffTree(a, b) => {
            assert(c[2] == "diff-tree"@);
            assert(c[4] == "--name-only"@);
        },
        GitStep::InitBare => {
            assert(c[3] == "--bare"@);
        },
        GitStep::Gc => {
            assert(c[3] == "--prune=7.days.ago"@);
        },
        _ => {},
    }
}

/// The views of a list of texts.
pub open spec fn texts(v: Seq<String>) -> Seq<Seq<char>> {
    v.map_values(|s: String| s@)
}

fn push_text(v: &mut Vec<String>, t: &str)
    ensures
        texts(final(v)@) == texts(old(v)@).push(t@),
{
    v.push(owned(t));
    assert(texts(v@) =~= texts(old(v)@).push(t@));
}

impl SnapshotManager {
    /// The arguments of the git run of `step` (to be run in the project
    /// directory).
    pub fn git_args(&self, step: &GitStep) -> (r: Vec<String>)
        ensures
            texts(r@) == git_command(self.shadow_dir_view(), self.project_dir_view(), *step),
    {
        let mut a: Vec<String> = Vec::new();
        push_text(&mut a, "--git-dir");
        push_text(&mut a, self.shadow_dir.as_str());
        match step {
            GitStep::InitBare => {
                push_text(&mut a, "init");
                push_text(&mut a, "--bare");
            },
            GitStep::StageAll => {
                push_text(&mut a, "--work-tree");
                push_text(&mut a, self.project_dir.as_str());
                push_text(&mut a, "add");
                push_text(&mut a, "--all");
                push_text(&mut a, "--force");
            },
            GitStep::WriteTree => {
                push_text(&mut a, "write-tree");
            },
            GitStep::DiffTree(x, y) => {
                push_text(&mut a, "diff-tree");
                push_text(&mut a, "-r");
                push_text(&mut a, "--name-only");
                push_text(&mut a, x.as_str());
                push_text(&mut a, y.as_str());
            },
            GitStep::Checkout(t, f) => {
                push_text(&mut a, "--work-tree");
                push_text(&mut a, self.project_dir.as_str());
                push_text(&mut a, "checkout");
                push_text(&mut a, t.as_str());
                push_text(&mut a, "--");
                push_text(&mut a, f.as_str());
            },
            GitStep::ReadTree(t) => {
                push_text(&mut a, "read-tree");
                push_text(&mut a, t.as_str());
            },
            GitStep::CheckoutIndex => {
                push_text(&mut a, "--work-tree");
                push_text(&mut a, self.project_dir.as_str());
                push_text(&mut a, "checkout-index");
                push_text(&mut a, "--all");
                push_text(&mut a, "--force");
            },
            GitStep::Gc => {
                push_text(&mut a, "gc");
                push_text(&mut a, "--prune=7.days.ago");
                push_text(&mut a, "--quiet");
            },
        }
        assert(texts(a@) =~= git_command(self.shadow_dir_view(), self.project_dir_view(), *step));
        a
    }
}

// ---------------------------------------------------------------------------
// Running an operation: requests to the caller, events back
// ---------------------------------------------------------------------------

/// An operation on the snapshots.
#[derive(Debug)]
pub enum SnapshotOp {
    /// Capture the workspace as a tree hash.
    Track,
    /// The files changed since a tree.
    Patch(String),
    /// Restore files (the given ones, or all changed ones) from a tree.
    Revert(String, Option<Vec<String>>),
    /// Restore the whole workspace to a tree.
    Restore(String),
    /// Revert to the snapshot before the newest one.
    UndoLast,
    /// Free space in the shadow repository.
    Cleanup,
}

/// What an operation gave.
#[derive(Debug, PartialEq, Eq)]
pub enum SnapshotOutcome {
    Captured(Option<String>),
    Patched(Vec<String>),
    Reverted(Vec<String>),
    Restored(bool),
    Undone(Option<String>),
    Cleaned,
}

/// What the caller does next for an operation.
#[derive(Debug, PartialEq, Eq)]
pub enum SnapshotRequest {
    /// Create this directory and its parents; answer `DirCreated`.
    CreateDir(String),
    /// Check whether this file exists; answer `FileExists`.
    CheckFile(String),
    /// Run git with `git_args` of this step in the project directory;
    /// answer `GitDone`.
    Git(GitStep),
    /// The operation is over.
    Finished(SnapshotOutcome),
}

/// What the caller reports back. An answer of another kind than asked
/// counts as a failure.
#[derive(Debug)]
pub enum SnapshotEvent {
    DirCreated(bool),
    FileExists(bool),
    /// What git printed on success, or its error.
    GitDone(Result<String, String>),
}

/// The operation a task carries out; an undo first looks for changes, then
/// restores.
#[derive(Debug, Clone, Copy, PartialEq, Eq, Structural)]
pub enum Goal {
    Track,
    Patch,
    Revert,
    Restore,
    UndoPatch,
    UndoRestore,
    Cleanup,
}

/// What a task waits for.
#[derive(Debug, Clone, Copy, PartialEq, Eq, Structural)]
pub enum Wait {
    Dir,
    Head,
    Init,
    Stage,
    WriteTree,
    Diff,
    Checkout,
    ReadTree,
    CheckoutIndex,
    Gc,
    Done,
}

/// An operation in progress.
#[derive(Debug)]
pub struct SnapshotTask {
    goal: Goal,
    wait: Wait,
    /// The tree that the operation is about.
    tree: String,
    /// Whether the files to revert were given.
    given: bool,
    /// The files to revert, or the files changed.
    files: Vec<String>,
    /// The next file to check out.
    pos: usize,
    /// The files restored so far.
    restored: Vec<String>,
}

/// Whether a git run succeeded.
pub open spec fn git_ok(e: SnapshotEvent) -> bool {
    e matches SnapshotEvent::GitDone(Ok(_))
}

impl SnapshotTask {
    /// The operation.
    pub closed spec fn goal_view(&self) -> Goal {
        self.goal
    }

    /// What the task waits for.
    pub closed spec fn wait_view(&self) -> Wait {
        self.wait
    }

    /// The tree the operation is about.
    pub closed spec fn tree_view(&self) -> Seq<char> {
        self.tree@
    }

    /// The files to revert, or the files changed.
    pub closed spec fn files_view(&self) -> Seq<Seq<char>> {
        texts(self.files@)
    }

    /// The files restored so far.
    pub closed spec fn restored_view(&self) -> Seq<Seq<char>> {
        texts(self.restored@)
    }

    /// The position of the next file to check out.
    pub closed spec fn pos_view(&self) -> nat {
        self.pos as nat
    }

    /// Whether the task is over.
    pub open spec fn is_done(&self) -> bool {
        self.wait_view() == Wait::Done
    }

    /// Whether the files to revert were given by the caller.
    pub closed spec fn given_view(&self) -> bool {
        self.given
    }

    /// The task's invariant.
    pub closed spec fn wf(&self) -> bool {
        &&& self.pos <= self.files@.len()
        &&& self.wait == Wait::Checkout ==> self.pos < self.files@.len()
        &&& self.wait != Wait::Checkout && self.wait != Wait::Done ==> self.pos == 0
    }
}

/// Whether `o` is what operation `goal` gives when it fails.
pub open spec fn failed_outcome(goal: Goal, o: SnapshotOutcome) -> bool {
    match goal {
        Goal::Track => o == SnapshotOutcome::Captured(None),
        Goal::Patch => o matches SnapshotOutcome::Patched(v) && v@.len() == 0,
        Goal::Revert => o matches SnapshotOutcome::Reverted(v) && v@.len() == 0,
        Goal::Restore => o == SnapshotOutcome::Restored(false),
        Goal::UndoPatch | Goal::UndoRestore => o == SnapshotOutcome::Undone(None),
        Goal::Cleanup => o == SnapshotOutcome::Cleaned,
    }
}

/// The outcome of an operation whose repository could not be set up, or
/// whose capture of the workspace failed.
fn failure_of(goal: Goal) -> (r: SnapshotOutcome)
    ensures
        failed_outcome(goal, r),
{
    match goal {
        Goal::Track => SnapshotOutcome::Captured(None),
        Goal::Patch => SnapshotOutcome::Patched(Vec::new()),
        Goal::Revert => SnapshotOutcome::Reverted(Vec::new()),
        Goal::Restore => SnapshotOutcome::Restored(false),
        Goal::UndoPatch | Goal::UndoRestore => SnapshotOutcome::Undone(None),
        Goal::Cleanup => SnapshotOutcome::Cleaned,
    }
}

fn copy_texts(v: &Vec<String>) -> (r: Vec<String>)
    ensures
        r@ == v@,
{
    let mut out: Vec<String> = Vec::new();
    let mut i: usize = 0;
    while i < v.len()
        invariant
            i <= v@.len(),
            out@ == v@.take(i as int),
        decreases v@.len() - i,
    {
        out.push(v[i].clone());
        i = i + 1;
        assert(out@ =~= v@.take(i as int));
    }
    assert(v@.take(v@.len() as int) =~= v@);
    out
}

impl SnapshotTask {
    fn finish(&mut self, outcome: SnapshotOutcome) -> (r: SnapshotRequest)
        requires
            old(self).wf(),
        ensures
            r == SnapshotRequest::Finished(outcome),
            final(self).wait == Wait::Done,
            final(self).wf(),
            final(self).goal == old(self).goal,
            final(self).files == old(self).files,
            final(self).restored == old(self).restored,
    {
        self.wait = Wait::Done;
        SnapshotRequest::Finished(outcome)
    }

    /// The first checkout of the files to revert, or the end where there
    /// are none.
    fn start_checkouts(&mut self) -> (r: SnapshotRequest)
        requires
            old(self).pos == 0,
        ensures
            final(self).wf(),
            final(self).goal == old(self).goal,
            final(self).files == old(self).files,
            final(self).tree == old(self).tree,
            final(self).restored == old(self).restored,
            final(self).given == old(self).given,
            old(self).files@.len() == 0 ==> (final(self).wait == Wait::Done && (r matches SnapshotRequest::Finished(
                SnapshotOutcome::Reverted(v),
            ) && v@.len() == 0)),
            old(self).files@.len() > 0 ==> final(self).wait == Wait::Checkout && final(self).pos == 0
                && r == SnapshotRequest::Git(GitStep::Checkout(old(self).tree, old(self).files@[0])),
    {
        if self.files.len() == 0 {
            self.wait = Wait::Done;
            return SnapshotRequest::Finished(SnapshotOutcome::Reverted(Vec::new()));
        }
        self.wait = Wait::Checkout;
        SnapshotRequest::Git(GitStep::Checkout(self.tree.clone(), self.files[0].clone()))
    }

    /// What follows once the repository is known to exist.
    fn after_init(&mut self) -> (r: SnapshotRequest)
        requires
            old(self).wf(),
            old(self).pos == 0,
        ensures
            final(self).wf(),
            final(self).goal == old(self).goal,
            final(self).tree == old(self).tree,
            final(self).files == old(self).files,
            final(self).restored == old(self).restored,
            final(self).given == old(self).given,
            match old(self).goal {
                Goal::Track | Goal::Patch | Goal::UndoPatch => final(self).wait == Wait::Stage && r
                    == SnapshotRequest::Git(GitStep::StageAll),
                Goal::Revert => if old(self).given {
                    old(self).files@.len() == 0 ==> (final(self).wait == Wait::Done
                        && (r matches SnapshotRequest::Finished(SnapshotOutcome::Reverted(v)) && v@.len() == 0))
                } else {
                    final(self).wait == Wait::Stage && r == SnapshotRequest::Git(GitStep::StageAll)
                },
                Goal::Restore | Goal::UndoRestore => final(self).wait == Wait::ReadTree && r
                    == SnapshotRequest::Git(GitStep::ReadTree(old(self).tree)),
                Goal::Cleanup => final(self).wait == Wait::Gc && r == SnapshotRequest::Git(GitStep::Gc),
            },
            old(self).goal == Goal::Revert && old(self).given && old(self).files@.len() > 0
                ==> final(self).wait == Wait::Checkout && final(self).pos == 0
                && r == SnapshotRequest::Git(GitStep::Checkout(old(self).tree, old(self).files@[0])),
    {
        match self.goal {
            Goal::Track | Goal::Patch | Goal::UndoPatch => {
                self.wait = Wait::Stage;
                SnapshotRequest::Git(GitStep::StageAll)
            },
            Goal::Revert => {
                if self.given {
                    self.start_checkouts()
                } else {
                    self.wait = Wait::Stage;
                    SnapshotRequest::Git(GitStep::StageAll)
                }
            },
            Goal::Restore | Goal::UndoRestore => {
                self.wait = Wait::ReadTree;
                SnapshotRequest::Git(GitStep::ReadTree(self.tree.clone()))
            },
            Goal::Cleanup => {
                self.wait = Wait::Gc;
                SnapshotRequest::Git(GitStep::Gc)
            },
        }
    }
}

/// Whether `r` ends the operation with its failure.
pub open spec fn ends_failed(goal: Goal, t: &SnapshotTask, r: &SnapshotRequest) -> bool {
    &&& t.is_done()
    &&& *r matches SnapshotRequest::Finished(o) && failed_outcome(goal, o)
}

/// Whether `r` asks for `git <step>` of the tree `tree` (for the steps that
/// name one) and `t` waits for it.
pub open spec fn asks_read_tree(t: &SnapshotTask, r: &SnapshotRequest, tree: Seq<char>) -> bool {
    &&& t.wait_view() == Wait::ReadTree
    &&& *r matches SnapshotRequest::Git(GitStep::ReadTree(x)) && x@ == tree
}

/// Whether `r` asks to check out file `i` of `t`'s files from its tree.
pub open spec fn asks_checkout(t: &SnapshotTask, r: &SnapshotRequest, i: int) -> bool {
    &&& t.wait_view() == Wait::Checkout
    &&& t.pos_view() == i
    &&& *r matches SnapshotRequest::Git(GitStep::Checkout(x, f)) && x@ == t.tree_view() && f@ == t.files_view()[i]
}

/// What follows once the repository of a task is known to exist: the
/// workspace is captured first (track, patch, undo, revert of the changed
/// files), the given files are checked out, or the tree is read back.
pub open spec fn continues_after_init(old: &SnapshotTask, new: &SnapshotTask, r: &SnapshotRequest) -> bool {
    &&& new.goal_view() == old.goal_view()
    &&& new.tree_view() == old.tree_view()
    &&& new.files_view() == old.files_view()
    &&& new.restored_view() == old.restored_view()
    &&& new.given_view() == old.given_view()
    &&& match old.goal_view() {
        Goal::Track | Goal::Patch | Goal::UndoPatch => new.wait_view() == Wait::Stage && *r
            == SnapshotRequest::Git(GitStep::StageAll),
        Goal::Revert => if old.given_view() {
            if old.files_view().len() == 0 {
                new.is_done() && (*r matches SnapshotRequest::Finished(SnapshotOutcome::Reverted(v))
                    && v@.len() == 0)
            } else {
                asks_checkout(new, r, 0)
            }
        } else {
            new.wait_view() == Wait::Stage && *r == SnapshotRequest::Git(GitStep::StageAll)
        },
        Goal::Restore | Goal::UndoRestore => asks_read_tree(new, r, old.tree_view()),
        Goal::Cleanup => new.wait_view() == Wait::Gc && *r == SnapshotRequest::Git(GitStep::Gc),
    }
}

/// The path of the shadow repository's `HEAD` file.
pub open spec fn head_file(shadow: Seq<char>) -> Seq<char> {
    crate::paths::joined(shadow, "HEAD"@)
}

/// Whether the manager changed only in being marked as set up.
pub open spec fn same_but_initialized(a: &SnapshotManager, b: &SnapshotManager) -> bool {
    &&& a.snapshots_view() == b.snapshots_view()
    &&& a.shadow_dir_view() == b.shadow_dir_view()
    &&& a.project_dir_view() == b.project_dir_view()
}

/// Whether the manager is as it was.
pub open spec fn unchanged(a: &SnapshotManager, b: &SnapshotManager) -> bool {
    &&& same_but_initialized(a, b)
    &&& a.initialized_view() == b.initialized_view()
}

impl SnapshotTask {
    /// Whether the operation is over.
    pub fn is_finished(&self) -> (r: bool)
        ensures
            r == self.is_done(),
    {
        self.wait == Wait::Done
    }

    /// Starts an operation: the task and the first request. An undo drops
    /// the newest snapshot at once.
    pub fn start(mgr: &mut SnapshotManager, op: SnapshotOp) -> (r: (SnapshotTask, SnapshotRequest))
        ensures
            r.0.wf(),
            match op {
                SnapshotOp::UndoLast => if old(mgr).snapshots_view().len() < 2 {
                    r.0.is_done() && r.1 == SnapshotRequest::Finished(SnapshotOutcome::Undone(None))
                        && final(mgr).snapshots_view() == old(mgr).snapshots_view()
                } else {
                    final(mgr).snapshots_view() == old(mgr).snapshots_view().drop_last()
                        && r.0.goal_view() == Goal::UndoPatch && r.0.tree_view()
                        == final(mgr).snapshots_view().last()
                },
                SnapshotOp::Cleanup => r.0.goal_view() == Goal::Cleanup && final(mgr).snapshots_view() == old(
                    mgr,
                ).snapshots_view() && if old(mgr).initialized_view() {
                    r.0.wait_view() == Wait::Gc && r.1 == SnapshotRequest::Git(GitStep::Gc)
                } else {
                    r.0.is_done() && r.1 == SnapshotRequest::Finished(SnapshotOutcome::Cleaned)
                },
                _ => final(mgr).snapshots_view() == old(mgr).snapshots_view(),
            },
            !(op is UndoLast) && !(op is Cleanup) && !old(mgr).initialized_view() ==> r.0.wait_view() == Wait::Dir
                && (r.1 matches SnapshotRequest::CreateDir(d) && d@ == old(mgr).shadow_dir_view()),
            final(mgr).shadow_dir_view() == old(mgr).shadow_dir_view(),
            final(mgr).project_dir_view() == old(mgr).project_dir_view(),
            final(mgr).initialized_view() == old(mgr).initialized_view(),
            op is Track ==> r.0.goal_view() == Goal::Track,
            op matches SnapshotOp::Patch(t) ==> r.0.goal_view() == Goal::Patch && r.0.tree_view() == t@,
            op matches SnapshotOp::Restore(t) ==> r.0.goal_view() == Goal::Restore && r.0.tree_view() == t@,
            op matches SnapshotOp::Revert(t, fs) ==> r.0.goal_view() == Goal::Revert && r.0.tree_view() == t@
                && r.0.given_view() == fs is Some && (fs matches Some(f) ==> r.0.files_view() == texts(f@)),
            (op is Track || op is Patch) && old(mgr).initialized_view() ==> r.0.wait_view() == Wait::Stage
                && r.1 == SnapshotRequest::Git(GitStep::StageAll),
    {
        let (goal, tree, given, files) = match op {
            SnapshotOp::Track => (Goal::Track, String::new(), false, Vec::new()),
            SnapshotOp::Patch(t) => (Goal::Patch, t, false, Vec::new()),
            SnapshotOp::Revert(t, fs) => match fs {
                Some(f) => (Goal::Revert, t, true, f),
                None => (Goal::Revert, t, false, Vec::new()),
            },
            SnapshotOp::Restore(t) => (Goal::Restore, t, false, Vec::new()),
            SnapshotOp::UndoLast => {
                match mgr.begin_undo() {
                    Some(t) => (Goal::UndoPatch, t, false, Vec::new()),
                    None => {
                        let task = SnapshotTask {
                            goal: Goal::UndoPatch,
                            wait: Wait::Done,
                            tree: String::new(),
                            given: false,
                            files: Vec::new(),
                            pos: 0,
                            restored: Vec::new(),
                        };
                        return (task, SnapshotRequest::Finished(SnapshotOutcome::Undone(None)));
                    },
                }
            },
            SnapshotOp::Cleanup => {
                let mut task = SnapshotTask {
                    goal: Goal::Cleanup,
                    wait: Wait::Done,
                    tree: String::new(),
                    given: false,
                    files: Vec::new(),
                    pos: 0,
                    restored: Vec::new(),
                };
                if mgr.is_initialized() {
                    task.wait = Wait::Gc;
                    return (task, SnapshotRequest::Git(GitStep::Gc));
                }
                return (task, SnapshotRequest::Finished(SnapshotOutcome::Cleaned));
            },
        };
        let mut task = SnapshotTask { goal, wait: Wait::Dir, tree, given, files, pos: 0, restored: Vec::new() };
        if mgr.is_initialized() {
            let r = task.after_init();
            return (task, r);
        }
        (task, SnapshotRequest::CreateDir(mgr.shadow_dir.clone()))
    }

    /// Takes the caller's answer to the last request and gives the next
    /// request.
    pub fn resume(&mut self, mgr: &mut SnapshotManager, event: SnapshotEvent) -> (r: SnapshotRequest)
        requires
            old(self).wf(),
            !old(self).is_done(),
        ensures
            final(self).wf(),
            final(mgr).shadow_dir_view() == old(mgr).shadow_dir_view(),
            final(mgr).project_dir_view() == old(mgr).project_dir_view(),
            match old(self).wait_view() {
                Wait::Dir => if event == SnapshotEvent::DirCreated(true) {
                    final(self).wait_view() == Wait::Head && (r matches SnapshotRequest::CheckFile(p) && p@
                        == head_file(old(mgr).shadow_dir_view())) && unchanged(final(mgr), old(mgr))
                } else {
                    ends_failed(old(self).goal_view(), final(self), &r) && unchanged(final(mgr), old(mgr))
                },
                Wait::Head => if event == SnapshotEvent::FileExists(true) {
                    final(mgr).initialized_view() && same_but_initialized(final(mgr), old(mgr))
                        && continues_after_init(old(self), final(self), &r)
                } else {
                    final(self).wait_view() == Wait::Init && r == SnapshotRequest::Git(GitStep::InitBare)
                        && unchanged(final(mgr), old(mgr))
                },
                Wait::Init => if git_ok(event) {
                    final(mgr).initialized_view() && same_but_initialized(final(mgr), old(mgr))
                        && continues_after_init(old(self), final(self), &r)
                } else {
                    ends_failed(old(self).goal_view(), final(self), &r) && unchanged(final(mgr), old(mgr))
                },
                Wait::Stage => unchanged(final(mgr), old(mgr)) && if git_ok(event) {
                    final(self).wait_view() == Wait::WriteTree && r == SnapshotRequest::Git(GitStep::WriteTree)
                } else {
                    ends_failed(old(self).goal_view(), final(self), &r)
                },
                Wait::WriteTree => match event {
                    SnapshotEvent::GitDone(Ok(out)) if trim(out@).len() > 0 => final(mgr).snapshots_view()
                        == old(mgr).snapshots_view().push(trim(out@)) && final(mgr).initialized_view()
                        == old(mgr).initialized_view() && if old(self).goal_view() == Goal::Track {
                        final(self).is_done() && (r matches SnapshotRequest::Finished(
                            SnapshotOutcome::Captured(Some(h)),
                        ) && h@ == trim(out@))
                    } else {
                        final(self).wait_view() == Wait::Diff && (r matches SnapshotRequest::Git(
                            GitStep::DiffTree(a, b),
                        ) && a@ == old(self).tree_view() && b@ == trim(out@))
                    },
                    _ => unchanged(final(mgr), old(mgr)) && ends_failed(old(self).goal_view(), final(self), &r),
                },
                Wait::Diff => {
                    let changed = match event {
                        SnapshotEvent::GitDone(Ok(out)) => output_lines(out@),
                        _ => Seq::empty(),
                    };
                    &&& unchanged(final(mgr), old(mgr))
                    &&& match old(self).goal_view() {
                        Goal::Patch => final(self).is_done() && (r matches SnapshotRequest::Finished(
                            SnapshotOutcome::Patched(v),
                        ) && texts(v@) == changed),
                        Goal::Revert => final(self).files_view() == changed && if changed.len() == 0 {
                            final(self).is_done() && (r matches SnapshotRequest::Finished(
                                SnapshotOutcome::Reverted(v),
                            ) && v@.len() == 0)
                        } else {
                            asks_checkout(final(self), &r, 0)
                        },
                        _ => if changed.len() == 0 {
                            final(self).is_done() && r == SnapshotRequest::Finished(SnapshotOutcome::Undone(None))
                        } else {
                            final(self).goal_view() == Goal::UndoRestore && final(self).files_view() == changed
                                && asks_read_tree(final(self), &r, old(self).tree_view())
                        },
                    }
                },
                Wait::Checkout => {
                    let done = if git_ok(event) {
                        old(self).restored_view().push(old(self).files_view()[old(self).pos_view() as int])
                    } else {
                        old(self).restored_view()
                    };
                    &&& unchanged(final(mgr), old(mgr))
                    &&& if old(self).pos_view() + 1 == old(self).files_view().len() {
                        final(self).is_done() && (r matches SnapshotRequest::Finished(SnapshotOutcome::Reverted(v))
                            && texts(v@) == done)
                    } else {
                        final(self).restored_view() == done && final(self).files_view() == old(self).files_view()
                            && asks_checkout(final(self), &r, old(self).pos_view() + 1int)
                    }
                },
                Wait::ReadTree => unchanged(final(mgr), old(mgr)) && if git_ok(event) {
                    final(self).wait_view() == Wait::CheckoutIndex && r == SnapshotRequest::Git(GitStep::CheckoutIndex)
                } else {
                    ends_failed(old(self).goal_view(), final(self), &r)
                },
                Wait::CheckoutIndex => unchanged(final(mgr), old(mgr)) && final(self).is_done() && if git_ok(event) {
                    if old(self).goal_view() == Goal::Restore {
                        r == SnapshotRequest::Finished(SnapshotOutcome::Restored(true))
                    } else {
                        r matches SnapshotRequest::Finished(SnapshotOutcome::Undone(Some(d))) && d@ == undo_text(
                            old(self).files_view(),
                        )
                    }
                } else {
                    r matches SnapshotRequest::Finished(o) && failed_outcome(old(self).goal_view(), o)
                },
                Wait::Gc => unchanged(final(mgr), old(mgr)) && final(self).is_done() && r == SnapshotRequest::Finished(
                    SnapshotOutcome::Cleaned,
                ),
                Wait::Done => true,
            },
    {
        let ok = match &event {
            SnapshotEvent::GitDone(Ok(_)) => true,
            _ => false,
        };
        match self.wait {
            Wait::Dir => {
                match event {
                    SnapshotEvent::DirCreated(true) => {
                        self.wait = Wait::Head;
                        SnapshotRequest::CheckFile(crate::paths::join_path(mgr.shadow_dir.as_str(), "HEAD"))
                    },
                    _ => {
                        let o = failure_of(self.goal);
                        self.finish(o)
                    },
                }
            },
            Wait::Head => {
                match event {
                    SnapshotEvent::FileExists(true) => {
                        mgr.mark_initialized();
                        self.after_init()
                    },
                    _ => {
                        self.wait = Wait::Init;
                        SnapshotRequest::Git(GitStep::InitBare)
                    },
                }
            },
            Wait::Init => {
                if ok {
                    mgr.mark_initialized();
                    self.after_init()
                } else {
                    let o = failure_of(self.goal);
                    self.finish(o)
                }
            },
            Wait::Stage => {
                if ok {
                    self.wait = Wait::WriteTree;
                    SnapshotRequest::Git(GitStep::WriteTree)
                } else {
                    let o = failure_of(self.goal);
                    self.finish(o)
                }
            },
            Wait::WriteTree => {
                let recorded = match &event {
                    SnapshotEvent::GitDone(Ok(out)) => mgr.record_tree(out.as_str()),
                    _ => None,
                };
                match recorded {
                    Some(h) => {
                        if self.goal == Goal::Track {
                            self.finish(SnapshotOutcome::Captured(Some(h)))
                        } else {
                            self.wait = Wait::Diff;
                            SnapshotRequest::Git(GitStep::DiffTree(self.tree.clone(), h))
                        }
                    },
                    None => {
                        let o = failure_of(self.goal);
                        self.finish(o)
                    },
                }
            },
            Wait::Diff => {
                let changed = match &event {
                    SnapshotEvent::GitDone(Ok(out)) => changed_files(out.as_str()),
                    _ => Vec::new(),
                };
                proof {
                    assert(texts(changed@) == changed@.map_values(|s: String| s@));
                }
                match self.goal {
                    Goal::Patch => self.finish(SnapshotOutcome::Patched(changed)),
                    Goal::Revert => {
                        self.files = changed;
                        self.pos = 0;
                        self.start_checkouts()
                    },
                    _ => {
                        if changed.len() == 0 {
                            self.finish(SnapshotOutcome::Undone(None))
                        } else {
                            self.files = changed;
                            self.pos = 0;
                            self.goal = Goal::UndoRestore;
                            self.wait = Wait::ReadTree;
                            SnapshotRequest::Git(GitStep::ReadTree(self.tree.clone()))
                        }
                    },
                }
            },
            Wait::Checkout => {
                if ok {
                    let f = self.files[self.pos].clone();
                    self.restored.push(f);
                    proof {
                        assert(texts(self.restored@) =~= texts(old(self).restored@).push(
                            old(self).files@[old(self).pos as int]@,
                        ));
                    }
                }
                let n = self.files.len();
                let next = self.pos + 1;
                if next == n {
                    self.wait = Wait::Done;
                    self.pos = next;
                    let v = copy_texts(&self.restored);
                    SnapshotRequest::Finished(SnapshotOutcome::Reverted(v))
                } else {
                    self.pos = next;
                    SnapshotRequest::Git(GitStep::Checkout(self.tree.clone(), self.files[self.pos].clone()))
                }
            },
            Wait::ReadTree => {
                if ok {
                    self.wait = Wait::CheckoutIndex;
                    SnapshotRequest::Git(GitStep::CheckoutIndex)
                } else {
                    let o = failure_of(self.goal);
                    self.finish(o)
                }
            },
            Wait::CheckoutIndex => {
                if ok {
                    if self.goal == Goal::Restore {
                        self.finish(SnapshotOutcome::Restored(true))
                    } else {
                        let d = undo_description(self.files.as_slice());
                        self.finish(SnapshotOutcome::Undone(Some(d)))
                    }
                } else {
                    let o = failure_of(self.goal);
                    self.finish(o)
                }
            },
            Wait::Gc => self.finish(SnapshotOutcome::Cleaned),
            Wait::Done => SnapshotRequest::Finished(SnapshotOutcome::Cleaned),
        }
    }
}

impl SnapshotManager {
    /// Starts capturing the workspace as a tree hash.
    pub fn track(&mut self) -> (r: (SnapshotTask, SnapshotRequest))
        ensures
            r.0.wf(),
            r.0.goal_view() == Goal::Track,
            unchanged(final(self), old(self)),
            !old(self).initialized_view() ==> r.0.wait_view() == Wait::Dir,
            old(self).initialized_view() ==> r.0.wait_view() == Wait::Stage && r.1 == SnapshotRequest::Git(
                GitStep::StageAll,
            ),
    {
        let r = SnapshotTask::start(self, SnapshotOp::Track);
        proof {
            if old(self).initialized_view() {
                assert(r.0.goal_view() == Goal::Track);
            }
        }
        r
    }

    /// Starts listing the files changed since `tree_hash`.
    pub fn patch(&mut self, tree_hash: &str) -> (r: (SnapshotTask, SnapshotRequest))
        ensures
            r.0.wf(),
            r.0.goal_view() == Goal::Patch,
            r.0.tree_view() == tree_hash@,
            unchanged(final(self), old(self)),
    {
        SnapshotTask::start(self, SnapshotOp::Patch(owned(tree_hash)))
    }

    /// Starts restoring `files` (all changed files where none are given)
    /// from `tree_hash`.
    pub fn revert(&mut self, tree_hash: &str, files: Option<Vec<String>>) -> (r: (SnapshotTask, SnapshotRequest))
        ensures
            r.0.wf(),
            r.0.goal_view() == Goal::Revert,
            r.0.tree_view() == tree_hash@,
            r.0.given_view() == files is Some,
            files matches Some(f) ==> r.0.files_view() == texts(f@),
            unchanged(final(self), old(self)),
    {
        SnapshotTask::start(self, SnapshotOp::Revert(owned(tree_hash), files))
    }

    /// Starts restoring the whole workspace to `tree_hash`.
    pub fn restore(&mut self, tree_hash: &str) -> (r: (SnapshotTask, SnapshotRequest))
        ensures
            r.0.wf(),
            r.0.goal_view() == Goal::Restore,
            r.0.tree_view() == tree_hash@,
            unchanged(final(self), old(self)),
    {
        SnapshotTask::start(self, SnapshotOp::Restore(owned(tree_hash)))
    }

    /// Starts reverting to the snapshot before the newest one, which is
    /// dropped; with fewer than two snapshots there is nothing to undo.
    pub fn undo_last(&mut self) -> (r: (SnapshotTask, SnapshotRequest))
        ensures
            r.0.wf(),
            old(self).snapshots_view().len() < 2 ==> r.0.is_done() && r.1 == SnapshotRequest::Finished(
                SnapshotOutcome::Undone(None),
            ) && final(self).snapshots_view() == old(self).snapshots_view(),
            old(self).snapshots_view().len() >= 2 ==> final(self).snapshots_view() == old(
                self,
            ).snapshots_view().drop_last() && r.0.goal_view() == Goal::UndoPatch && r.0.tree_view()
                == final(self).snapshots_view().last(),
            final(self).initialized_view() == old(self).initialized_view(),
    {
        SnapshotTask::start(self, SnapshotOp::UndoLast)
    }

    /// Starts freeing space in the shadow repository (nothing to do where it
    /// was never set up).
    pub fn cleanup(&mut self) -> (r: (SnapshotTask, SnapshotRequest))
        ensures
            r.0.wf(),
            old(self).initialized_view() ==> r.1 == SnapshotRequest::Git(GitStep::Gc),
            !old(self).initialized_view() ==> r.0.is_done() && r.1 == SnapshotRequest::Finished(
                SnapshotOutcome::Cleaned,
            ),
            unchanged(final(self), old(self)),
    {
        SnapshotTask::start(self, SnapshotOp::Cleanup)
    }
}

} // verus!
