//! Layout of the user input area: the separator row with the mode
//! indicator, and the wrapped, scrolled lines of the input buffer with the
//! cursor. Drawing the layout on a terminal is the caller's part.
use vstd::prelude::*;
use unicode_width::{UnicodeWidthChar, UnicodeWidthStr};

use crate::text::{byte_len, chars_of, owned, push_char, push_str, split_on, str_eq};

verus! {

// ---------------------------------------------------------------------------
// Display widths (the unicode-width crate)
// ---------------------------------------------------------------------------

/// The display width of a character as the unicode-width crate gives it
/// (`None` for a control character).
pub uninterp spec fn unicode_char_width(c: char) -> Option<usize>;

/// The display width of a string as the unicode-width crate gives it.
pub uninterp spec fn unicode_str_width(s: Seq<char>) -> usize;

/// Calls `UnicodeWidthChar::width`; the result is named by
/// `unicode_char_width` and the width tables are not stated here.
#[verifier::external_body]
fn char_width(c: char) -> (r: Option<usize>)
    ensures
        r == unicode_char_width(c),
{
    UnicodeWidthChar::width(c)
}

/// Calls `UnicodeWidthStr::width`; the result is named by
/// `unicode_str_width` and the width tables are not stated here.
#[verifier::external_body]
fn str_width(s: &str) -> (r: usize)
    ensures
        r == unicode_str_width(s@),
{
    UnicodeWidthStr::width(s)
}

/// The columns a character takes when wrapping input: its width, or one
/// for a control character.
pub open spec fn wrap_width(c: char) -> nat {
    match unicode_char_width(c) {
        Some(w) => w as nat,
        None => 1,
    }
}

fn char_wrap_width(c: char) -> (r: usize)
    ensures
        r == wrap_width(c),
{
    match char_width(c) {
        Some(w) => w,
        None => 1,
    }
}

/// `a - b`, or zero where `b` exceeds `a`.
pub open spec fn sat_sub(a: int, b: int) -> nat {
    if a >= b {
        (a - b) as nat
    } else {
        0
    }
}

// ---------------------------------------------------------------------------
// The separator row
// ---------------------------------------------------------------------------

/// One step of the kebab-case display: ASCII letters and digits are kept,
/// every other run of characters becomes one dash (none at the start).
pub open spec fn kebab_from(s: Seq<char>, out: Seq<char>, last_was_dash: bool) -> Seq<char>
    decreases s.len(),
{
    if s.len() == 0 {
        if out.len() > 0 && out.last() == '-' {
            out.drop_last()
        } else {
            out
        }
    } else if is_ascii_alnum(s[0]) {
        kebab_from(s.drop_first(), out.push(s[0]), false)
    } else if !last_was_dash {
        kebab_from(s.drop_first(), out.push('-'), true)
    } else {
        kebab_from(s.drop_first(), out, last_was_dash)
    }
}

/// Whether `c` is an ASCII letter or digit.
pub open spec fn is_ascii_alnum(c: char) -> bool {
    ('a' <= c && c <= 'z') || ('A' <= c && c <= 'Z') || ('0' <= c && c <= '9')
}

/// A title as kebab-case: lowercased, with runs of other characters turned
/// into single dashes, and no dash at either end.
pub open spec fn kebab_display(title: Seq<char>) -> Seq<char> {
    kebab_from(crate::text::lowercase(title), Seq::empty(), true)
}

/// Converts a title to kebab-case for display.
pub fn to_kebab_display(title: &str) -> (r: String)
    ensures
        r@ == kebab_display(title@),
{
    let lower = crate::text::to_lowercase(title);
    let cs = chars_of(lower.as_str());
    let mut result = String::new();
    let mut last_was_dash = true;
    let mut k: usize = 0;
    proof {
        assert(cs@.skip(0) =~= cs@);
    }
    while k < cs.len()
        invariant
            k <= cs@.len(),
            cs@ == crate::text::lowercase(title@),
            kebab_from(cs@.skip(k as int), result@, last_was_dash) == kebab_display(title@),
        decreases cs@.len() - k,
    {
        let ghost rest = cs@.skip(k as int);
        proof {
            assert(rest.drop_first() =~= cs@.skip(k + 1));
            assert(rest[0] == cs@[k as int]);
        }
        let ch = cs[k];
        if ('a' <= ch && ch <= 'z') || ('A' <= ch && ch <= 'Z') || ('0' <= ch && ch <= '9') {
            push_char(&mut result, ch);
            last_was_dash = false;
        } else if !last_was_dash {
            push_char(&mut result, '-');
            last_was_dash = true;
        }
        k = k + 1;
    }
    let rc = chars_of(result.as_str());
    if rc.len() > 0 && rc[rc.len() - 1] == '-' {
        let trimmed = crate::text::slice_range(rc.as_slice(), 0, rc.len() - 1);
        proof {
            assert(cs@.skip(k as int).len() == 0);
            assert(trimmed@ =~= result@.drop_last());
        }
        crate::text::string_of(trimmed.as_slice())
    } else {
        proof {
            assert(cs@.skip(k as int).len() == 0);
        }
        result
    }
}

/// The label shown for a mode.
pub open spec fn mode_label(mode: Seq<char>) -> Seq<char> {
    if mode == "NORMAL"@ {
        "Normal"@
    } else if mode == "PLAN"@ {
        "Plan"@
    } else {
        mode
    }
}

/// `s` when `n` is one, else `s` with an `s` after it.
pub open spec fn plural(n: nat, s: Seq<char>) -> Seq<char> {
    if n == 1 {
        s
    } else {
        s + "s"@
    }
}

/// The queue indicator for `u` queued messages and `b` background results.
pub open spec fn queue_text(u: nat, b: nat) -> Seq<char> {
    if u == 0 && b == 0 {
        Seq::empty()
    } else if b == 0 {
        "── "@ + crate::text::decimal(u) + " "@ + plural(u, "message"@) + " queued (ESC) "@
    } else if u == 0 {
        "── "@ + crate::text::decimal(b) + " "@ + plural(b, "result"@) + " queued "@
    } else {
        "── "@ + crate::text::decimal(u + b) + " queued (ESC) "@
    }
}

/// The separator row, as pieces: `── `, the mode text, the hint, the queue
/// indicator, then either dashes filling the row, or (with an activity tag)
/// dashes, the tag section and a closing `──`.
pub struct HeaderLayout {
    pub mode_text: String,
    pub hint_text: String,
    pub queue_text: String,
    /// How many `─` follow the queue indicator.
    pub fill: usize,
    /// The tag section ` tag `, where there is an activity tag.
    pub tag_section: Option<String>,
}

/// The columns the fixed pieces of the separator row take.
pub open spec fn header_used(mode: Seq<char>, u: nat, b: nat) -> int {
    unicode_str_width("── "@) + unicode_str_width(" "@ + mode_label(mode) + " "@)
        + unicode_str_width("(Shift+Tab) "@) + unicode_str_width(queue_text(u, b))
}

// ---------------------------------------------------------------------------
// The input lines
// ---------------------------------------------------------------------------

/// A row of input as shown: the text, and where the cursor is on it (a byte
/// offset), if it is there.
pub struct PhysicalLine {
    pub text: String,
    pub cursor_idx: Option<usize>,
}

/// Mathematical model of a [`PhysicalLine`].
pub struct PhysicalLineView {
    pub text: Seq<char>,
    pub cursor_idx: Option<nat>,
}

impl View for PhysicalLine {
    type V = PhysicalLineView;

    open spec fn view(&self) -> PhysicalLineView {
        PhysicalLineView {
            text: self.text@,
            cursor_idx: match self.cursor_idx {
                Some(i) => Some(i as nat),
                None => None,
            },
        }
    }
}

/// The models of a sequence of rows.
pub open spec fn lines_view(v: Seq<PhysicalLine>) -> Seq<PhysicalLineView> {
    v.map_values(|l: PhysicalLine| l@)
}

/// The state of wrapping one logical line: the rows done, the row being
/// filled, its width, and the cursor on it.
pub struct WrapState {
    pub done: Seq<PhysicalLineView>,
    pub text: Seq<char>,
    pub width: nat,
    pub cursor: Option<nat>,
}

/// Wraps the characters `s` onto rows of `avail` columns; `at(k)` says
/// whether the cursor stands before the `k`-th character of the logical
/// line (counting from `base`).
pub open spec fn wrap_chars(
    s: Seq<char>,
    st: WrapState,
    avail: nat,
    line: Seq<char>,
    base: int,
    cursor_col: Option<nat>,
) -> WrapState
    decreases s.len(),
{
    if s.len() == 0 {
        st
    } else {
        let ch = s[0];
        let w = wrap_width(ch);
        let at = cursor_col == Some(byte_len(line.take(base)));
        let cur = if at {
            Some(byte_len(st.text))
        } else {
            st.cursor
        };
        let st1 = if st.width + w > avail && st.text.len() > 0 {
            WrapState {
                done: st.done.push(PhysicalLineView { text: st.text, cursor_idx: cur }),
                text: Seq::empty(),
                width: 0,
                cursor: if at {
                    Some(0)
                } else {
                    None
                },
            }
        } else {
            WrapState { cursor: cur, ..st }
        };
        wrap_chars(
            s.drop_first(),
            WrapState { text: st1.text.push(ch), width: st1.width + w, ..st1 },
            avail,
            line,
            base + 1,
            cursor_col,
        )
    }
}

/// The rows of one logical line; `cursor_col` is the cursor's byte offset
/// in it, where the cursor is on this line.
pub open spec fn wrap_line(line: Seq<char>, avail: nat, cursor_col: Option<nat>) -> Seq<
    PhysicalLineView,
> {
    if line.len() == 0 {
        seq![
            PhysicalLineView {
                text: Seq::empty(),
                cursor_idx: if cursor_col is Some {
                    Some(0)
                } else {
                    None
                },
            },
        ]
    } else {
        let st = wrap_chars(
            line,
            WrapState { done: Seq::empty(), text: Seq::empty(), width: 0, cursor: None },
            avail,
            line,
            0,
            cursor_col,
        );
        let cur = if cursor_col == Some(byte_len(line)) {
            Some(byte_len(st.text))
        } else {
            st.cursor
        };
        st.done.push(PhysicalLineView { text: st.text, cursor_idx: cur })
    }
}

/// The logical line and byte column of the cursor at byte offset `cursor`,
/// scanning from line `i` that starts at byte `pos`.
pub open spec fn cursor_line_from(lines: Seq<Seq<char>>, cursor: nat, i: int, pos: nat) -> (
    int,
    nat,
)
    decreases lines.len() - i,
{
    if i < 0 || i >= lines.len() {
        (0, 0)
    } else if cursor <= pos + byte_len(lines[i]) {
        (i, (cursor - pos) as nat)
    } else if i == lines.len() - 1 {
        (i, byte_len(lines[i]))
    } else {
        cursor_line_from(lines, cursor, i + 1, pos + byte_len(lines[i]) + 1)
    }
}

/// The rows of all logical lines, from line `i` on.
pub open spec fn wrap_all(lines: Seq<Seq<char>>, avail: nat, cur_line: int, cur_col: nat) -> Seq<
    PhysicalLineView,
>
    decreases lines.len(),
{
    if lines.len() == 0 {
        Seq::empty()
    } else {
        let last = lines.len() - 1;
        wrap_all(lines.drop_last(), avail, cur_line, cur_col) + wrap_line(
            lines.last(),
            avail,
            if last == cur_line {
                Some(cur_col)
            } else {
                None
            },
        )
    }
}

/// The columns left for text after the two-column prompt (at least one).
pub open spec fn avail_width(width: nat) -> nat {
    let a = sat_sub(width as int, 2);
    if a == 0 {
        1
    } else {
        a
    }
}

/// The rows of the input `buffer` with the cursor at byte offset `cursor`.
pub open spec fn physical_lines(buffer: Seq<char>, cursor: nat, width: nat) -> Seq<
    PhysicalLineView,
> {
    let lines = split_on(buffer, '\n');
    let c = cursor_line_from(lines, cursor, 0, 0);
    wrap_all(lines, avail_width(width), c.0, c.1)
}

/// The index of the first row with the cursor, if any.
pub open spec fn first_cursor_row(ls: Seq<PhysicalLineView>) -> Option<nat>
    decreases ls.len(),
{
    if ls.len() == 0 {
        None
    } else if ls[0].cursor_idx is Some {
        Some(0)
    } else {
        match first_cursor_row(ls.drop_first()) {
            Some(i) => Some(i + 1),
            None => None,
        }
    }
}

/// The first row shown, so that the cursor row is visible in `height` rows.
pub open spec fn start_row(count: nat, cursor_row: nat, height: nat) -> nat {
    if count <= height {
        0
    } else if cursor_row >= height {
        (cursor_row - height + 1) as nat
    } else {
        0
    }
}

/// The pieces of `buffer` between newlines, each no longer in bytes than
/// `buffer` itself.
proof fn lemma_split_bytes(s: Seq<char>, c: char)
    ensures
        forall|i: int|
            0 <= i < split_on(s, c).len() ==> byte_len(#[trigger] split_on(s, c)[i]) <= byte_len(s),
    decreases s.len(),
{
    if s.len() > 0 {
        let t = s.drop_last();
        lemma_split_bytes(t, c);
        crate::text::lemma_byte_len_concat(t, seq![s.last()]);
        assert(t + seq![s.last()] =~= s);
        let prev = split_on(t, c);
        crate::text::lemma_split_on_nonempty(t, c);
        let cur = split_on(s, c);
        if s.last() != c {
            let l = prev.last();
            crate::text::lemma_byte_len_concat(l, seq![s.last()]);
            assert(l + seq![s.last()] =~= l.push(s.last()));
            assert forall|i: int| 0 <= i < cur.len() implies byte_len(#[trigger] cur[i]) <= byte_len(s) by {
                if i < prev.len() - 1 {
                    assert(cur[i] == prev[i]);
                } else {
                    assert(cur[i] == l.push(s.last()));
                }
            }
        } else {
            assert forall|i: int| 0 <= i < cur.len() implies byte_len(#[trigger] cur[i]) <= byte_len(s) by {
                if i < prev.len() {
                    assert(cur[i] == prev[i]);
                } else {
                    assert(cur[i] == Seq::<char>::empty());
                }
            }
        }
    }
}

/// Wraps one logical line onto rows of `avail` columns.
fn wrap_line_rows(line: &[char], avail: usize, cursor_col: Option<usize>, out: &mut Vec<PhysicalLine>)
    requires
        byte_len(line@) <= usize::MAX,
    ensures
        lines_view(final(out)@) == lines_view(old(out)@) + wrap_line(
            line@,
            avail as nat,
            match cursor_col {
                Some(c) => Some(c as nat),
                None => None,
            },
        ),
{
    let ghost cc: Option<nat> = match cursor_col {
        Some(c) => Some(c as nat),
        None => None,
    };
    let ghost o0 = lines_view(out@);
    if line.len() == 0 {
        let row = PhysicalLine {
            text: String::new(),
            cursor_idx: if cursor_col.is_some() {
                Some(0)
            } else {
                None
            },
        };
        proof {
            assert(lines_view(out@.push(row)) =~= o0 + wrap_line(line@, avail as nat, cc));
        }
        out.push(row);
        return;
    }
    let ghost init = WrapState { done: Seq::empty(), text: Seq::empty(), width: 0, cursor: None };
    let ghost goal = wrap_chars(line@, init, avail as nat, line@, 0, cc);
    let mut done: Vec<PhysicalLine> = Vec::new();
    let mut text = String::new();
    let mut text_bytes: usize = 0;
    let mut width: usize = 0;
    let mut cursor: Option<usize> = None;
    let mut byte_idx: usize = 0;
    let mut k: usize = 0;
    proof {
        assert(line@.skip(0) =~= line@);
        assert(line@.take(0) =~= Seq::<char>::empty());
        assert(lines_view(done@) =~= Seq::<PhysicalLineView>::empty());
        assert(text@ =~= Seq::<char>::empty());
    }
    while k < line.len()
        invariant
            k <= line@.len(),
            byte_len(line@) <= usize::MAX,
            byte_idx == byte_len(line@.take(k as int)),
            text_bytes == byte_len(text@),
            text_bytes <= byte_idx,
            text@.len() == 0 ==> width == 0,
            cc == match cursor_col {
                Some(c) => Some(c as nat),
                None => None,
            },
            wrap_chars(
                line@.skip(k as int),
                WrapState {
                    done: lines_view(done@),
                    text: text@,
                    width: width as nat,
                    cursor: match cursor {
                        Some(c) => Some(c as nat),
                        None => None,
                    },
                },
                avail as nat,
                line@,
                k as int,
                cc,
            ) == goal,
        decreases line@.len() - k,
    {
        let ghost rest = line@.skip(k as int);
        proof {
            assert(rest.drop_first() =~= line@.skip(k + 1));
            assert(rest[0] == line@[k as int]);
            assert(line@.take(k + 1).drop_last() =~= line@.take(k as int));
            crate::text::lemma_byte_len_subrange(line@, 0, k + 1);
            assert(line@.take(k + 1) =~= line@.subrange(0, k + 1));
        }
        let ch = line[k];
        let w = char_wrap_width(ch);
        let ghost st = WrapState {
            done: lines_view(done@),
            text: text@,
            width: width as nat,
            cursor: match cursor {
                Some(c) => Some(c as nat),
                None => None,
            },
        };
        let at = match cursor_col {
            Some(c) => c == byte_idx,
            None => false,
        };
        if at {
            cursor = Some(text_bytes);
        }
        let nonempty = text_bytes > 0;
        proof {
            crate::text::lemma_byte_len_bounds(text@);
        }
        if nonempty && (width > avail || w > avail - width) {
            let mut row_text = String::new();
            std::mem::swap(&mut row_text, &mut text);
            let row = PhysicalLine { text: row_text, cursor_idx: cursor };
            let ghost rv = row@;
            done.push(row);
            proof {
                assert(lines_view(done@) =~= st.done.push(rv));
                assert(text@ == Seq::<char>::empty());
            }
            text_bytes = 0;
            width = 0;
            cursor = if at {
                Some(0)
            } else {
                None
            };
        }
        let ghost st1 = WrapState {
            done: lines_view(done@),
            text: text@,
            width: width as nat,
            cursor: match cursor {
                Some(c) => Some(c as nat),
                None => None,
            },
        };
        proof {
            let cur = if at {
                Some(byte_len(st.text))
            } else {
                st.cursor
            };
            let expect = if st.width + wrap_width(ch) > avail as nat && st.text.len() > 0 {
                WrapState {
                    done: st.done.push(PhysicalLineView { text: st.text, cursor_idx: cur }),
                    text: Seq::empty(),
                    width: 0,
                    cursor: if at {
                        Some(0)
                    } else {
                        None
                    },
                }
            } else {
                WrapState { cursor: cur, ..st }
            };
            assert(st1 == expect);
        }
        push_char(&mut text, ch);
        let cl = crate::text::char_utf8_len(ch);
        proof {
            crate::text::lemma_byte_len_concat(st1.text, seq![ch]);
            assert(st1.text + seq![ch] =~= text@);
            let one = seq![ch];
            assert(one.len() == 1);
            assert(one.last() == ch);
            assert(one.drop_last() =~= Seq::<char>::empty());
            assert(byte_len(Seq::<char>::empty()) == 0);
            assert(byte_len(one) == crate::text::utf8_len(ch));
            assert(text_bytes == byte_len(st1.text));
            assert(byte_len(line@.take(k + 1)) == byte_idx + crate::text::utf8_len(ch));
            crate::text::lemma_byte_len_subrange(line@, 0, k + 1);
        }
        text_bytes = text_bytes + cl;
        width = width + w;
        byte_idx = byte_idx + cl;
        proof {
            assert(wrap_chars(rest, st, avail as nat, line@, k as int, cc) == wrap_chars(
                rest.drop_first(),
                WrapState { text: st1.text.push(ch), width: st1.width + wrap_width(ch), ..st1 },
                avail as nat,
                line@,
                k + 1,
                cc,
            ));
        }
        k = k + 1;
    }
    let at_end = match cursor_col {
        Some(c) => c == byte_idx,
        None => false,
    };
    proof {
        assert(line@.take(k as int) =~= line@);
        assert(line@.skip(k as int).len() == 0);
    }
    let final_cursor = if at_end {
        Some(text_bytes)
    } else {
        cursor
    };
    let last = PhysicalLine { text, cursor_idx: final_cursor };
    let ghost lv = last@;
    done.push(last);
    let ghost dv = lines_view(done@);
    proof {
        assert(dv =~= lines_view(done@.drop_last()).push(lv));
        assert(dv == wrap_line(line@, avail as nat, cc));
    }
    let ghost ov = out@;
    out.append(&mut done);
    proof {
        assert(lines_view(out@) =~= o0 + dv);
    }
}

/// The logical line and byte column of the cursor.
fn cursor_line(lines: &Vec<Vec<char>>, ghost_lines: Ghost<Seq<Seq<char>>>, cursor: usize) -> (r: (usize, usize))
    requires
        lines@.len() >= 1,
        lines@.len() == ghost_lines@.len(),
        forall|m: int| 0 <= m < lines@.len() ==> #[trigger] lines@[m]@ == ghost_lines@[m],
        forall|m: int| 0 <= m < lines@.len() ==> byte_len(#[trigger] ghost_lines@[m]) <= usize::MAX,
    ensures
        cursor_line_from(ghost_lines@, cursor as nat, 0, 0) == (r.0 as int, r.1 as nat),
        r.0 < lines@.len(),
{
    let ghost ls = ghost_lines@;
    let mut pos: usize = 0;
    let mut i: usize = 0;
    loop
        invariant
            i < lines@.len() == ls.len(),
            ls == ghost_lines@,
            pos <= cursor,
            forall|m: int| 0 <= m < lines@.len() ==> #[trigger] lines@[m]@ == ls[m],
            forall|m: int| 0 <= m < lines@.len() ==> byte_len(#[trigger] ls[m]) <= usize::MAX,
            cursor_line_from(ls, cursor as nat, 0, 0) == cursor_line_from(ls, cursor as nat, i as int, pos as nat),
        decreases lines@.len() - i,
    {
        let len = crate::text::chars_byte_len(lines[i].as_slice());
        assert(len == byte_len(ls[i as int]));
        if cursor - pos <= len {
            assert(cursor_line_from(ls, cursor as nat, i as int, pos as nat) == (
                i as int,
                (cursor - pos) as nat,
            ));
            return (i, cursor - pos);
        }
        if i == lines.len() - 1 {
            assert(cursor_line_from(ls, cursor as nat, i as int, pos as nat) == (i as int, len as nat));
            return (i, len);
        }
        assert(cursor_line_from(ls, cursor as nat, i as int, pos as nat) == cursor_line_from(
            ls,
            cursor as nat,
            i + 1,
            (pos + len + 1) as nat,
        ));
        pos = pos + len + 1;
        i = i + 1;
    }
}

/// The rows of the input `buffer` with the cursor at byte offset `cursor`,
/// wrapped to `width` columns less the prompt.
pub fn layout_lines(buffer: &str, cursor: usize, width: u16) -> (r: Vec<PhysicalLine>)
    ensures
        lines_view(r@) == physical_lines(buffer@, cursor as nat, width as nat),
{
    let cs = chars_of(buffer);
    let lines = crate::text::split_chars(cs.as_slice(), '\n');
    let ghost ls = split_on(buffer@, '\n');
    proof {
        crate::text::lemma_split_on_nonempty(buffer@, '\n');
        lemma_split_bytes(buffer@, '\n');
        crate::text::lemma_byte_len_encode(buffer@);
    }
    let n = crate::text::str_byte_len(buffer);
    let avail = {
        let a: usize = if width as usize >= 2 {
            width as usize - 2
        } else {
            0
        };
        if a == 0 {
            1
        } else {
            a
        }
    };
    let (cur_line, cur_col) = cursor_line(&lines, Ghost(ls), cursor);
    let mut out: Vec<PhysicalLine> = Vec::new();
    let mut i: usize = 0;
    proof {
        assert(lines_view(out@) =~= Seq::<PhysicalLineView>::empty());
    }
    while i < lines.len()
        invariant
            i <= lines@.len() == ls.len(),
            ls == split_on(buffer@, '\n'),
            forall|m: int| 0 <= m < lines@.len() ==> #[trigger] lines@[m]@ == ls[m],
            forall|m: int| 0 <= m < lines@.len() ==> byte_len(#[trigger] ls[m]) <= n,
            avail == avail_width(width as nat),
            lines_view(out@) == wrap_all(ls.take(i as int), avail as nat, cur_line as int, cur_col as nat),
        decreases lines@.len() - i,
    {
        proof {
            assert(ls.take(i + 1).drop_last() =~= ls.take(i as int));
            assert(ls.take(i + 1).last() == ls[i as int]);
            assert(byte_len(ls[i as int]) <= n);
        }
        let cc = if i == cur_line {
            Some(cur_col)
        } else {
            None
        };
        wrap_line_rows(lines[i].as_slice(), avail, cc, &mut out);
        i = i + 1;
    }
    proof {
        assert(ls.take(ls.len() as int) =~= ls);
    }
    out
}

/// A shown row of the input area: the prompt, and the text around the
/// cursor (the character under it, or a space at the end of the row).
pub struct InputRow {
    pub prefix: String,
    pub before: String,
    pub cursor: Option<String>,
    pub after: String,
}

/// Mathematical model of an [`InputRow`].
pub struct InputRowView {
    pub prefix: Seq<char>,
    pub before: Seq<char>,
    pub cursor: Option<Seq<char>>,
    pub after: Seq<char>,
}

impl View for InputRow {
    type V = InputRowView;

    open spec fn view(&self) -> InputRowView {
        InputRowView {
            prefix: self.prefix@,
            before: self.before@,
            cursor: crate::message::opt_view(self.cursor),
            after: self.after@,
        }
    }
}

/// The first character index at or after `j` whose byte offset in `text`
/// reaches `b`.
pub open spec fn char_index_at(text: Seq<char>, b: nat, j: int) -> int
    decreases text.len() - j,
{
    if j < 0 || j >= text.len() || byte_len(text.take(j)) >= b {
        j
    } else {
        char_index_at(text, b, j + 1)
    }
}

/// How the row at position `idx` of all rows is shown.
pub open spec fn row_view(l: PhysicalLineView, idx: int) -> InputRowView {
    let prefix = if idx == 0 {
        "> "@
    } else {
        "  "@
    };
    match l.cursor_idx {
        Some(b) => {
            let j = char_index_at(l.text, b, 0);
            InputRowView {
                prefix: prefix,
                before: l.text.take(j),
                cursor: Some(
                    if j < l.text.len() {
                        seq![l.text[j]]
                    } else {
                        " "@
                    },
                ),
                after: if j < l.text.len() {
                    l.text.skip(j + 1)
                } else {
                    Seq::empty()
                },
            }
        },
        None => InputRowView { prefix: prefix, before: l.text, cursor: None, after: Seq::empty() },
    }
}

/// The rows shown in `height` rows: a window that holds the cursor row.
pub open spec fn visible_rows(ls: Seq<PhysicalLineView>, height: nat) -> Seq<InputRowView> {
    let cursor_row = match first_cursor_row(ls) {
        Some(i) => i,
        None => 0,
    };
    let start = start_row(ls.len(), cursor_row, height);
    let end: int = if start + height <= ls.len() {
        (start + height) as int
    } else {
        ls.len() as int
    };
    Seq::new((end - start) as nat, |i: int| row_view(ls[start + i], start + i))
}

fn find_cursor_row(ls: &Vec<PhysicalLine>) -> (r: usize)
    ensures
        r == 0 || r < ls@.len(),
        r == match first_cursor_row(lines_view(ls@)) {
            Some(i) => i,
            None => 0,
        },
{
    let ghost lv = lines_view(ls@);
    let mut k: usize = 0;
    proof {
        assert(lv.skip(0) =~= lv);
    }
    while k < ls.len()
        invariant
            k <= ls@.len(),
            lv == lines_view(ls@),
            first_cursor_row(lv) == match first_cursor_row(lv.skip(k as int)) {
                Some(i) => Some((i + k) as nat),
                None => None,
            },
        decreases ls@.len() - k,
    {
        let ghost rest = lv.skip(k as int);
        proof {
            assert(rest.drop_first() =~= lv.skip(k + 1));
            assert(rest[0] == ls@[k as int]@);
        }
        if ls[k].cursor_idx.is_some() {
            return k;
        }
        k = k + 1;
    }
    proof {
        assert(lv.skip(k as int).len() == 0);
    }
    0
}

fn render_row(l: &PhysicalLine, idx: usize) -> (r: InputRow)
    ensures
        r@ == row_view(l@, idx as int),
{
    proof {
        reveal_strlit(" ");
    }
    let prefix = if idx == 0 {
        owned("> ")
    } else {
        owned("  ")
    };
    match l.cursor_idx {
        Some(b) => {
            let cs = chars_of(l.text.as_str());
            let mut j: usize = 0;
            let mut bytes: usize = 0;
            proof {
                crate::text::lemma_byte_len_encode(l.text@);
                assert(cs@.take(0) =~= Seq::<char>::empty());
            }
            let total = crate::text::str_byte_len(l.text.as_str());
            while j < cs.len() && bytes < b
                invariant
                    j <= cs@.len(),
                    cs@ == l.text@,
                    total == byte_len(cs@),
                    bytes == byte_len(cs@.take(j as int)),
                    char_index_at(cs@, b as nat, 0) == char_index_at(cs@, b as nat, j as int),
                decreases cs@.len() - j,
            {
                proof {
                    assert(cs@.take(j + 1).drop_last() =~= cs@.take(j as int));
                    crate::text::lemma_byte_len_subrange(cs@, 0, j + 1);
                    assert(cs@.take(j + 1) =~= cs@.subrange(0, j + 1));
                }
                bytes = bytes + crate::text::char_utf8_len(cs[j]);
                j = j + 1;
            }
            let before = crate::text::string_of(crate::text::slice_range(cs.as_slice(), 0, j).as_slice());
            if j < cs.len() {
                let mut c = String::new();
                push_char(&mut c, cs[j]);
                let after = crate::text::string_of(crate::text::slice_range(cs.as_slice(), j + 1, cs.len()).as_slice());
                proof {
                    assert(c@ =~= seq![cs@[j as int]]);
                    assert(before@ =~= l.text@.take(j as int));
                    assert(after@ =~= l.text@.skip(j + 1));
                }
                InputRow { prefix, before, cursor: Some(c), after }
            } else {
                proof {
                    assert(before@ =~= l.text@.take(j as int));
                }
                InputRow { prefix, before, cursor: Some(owned(" ")), after: String::new() }
            }
        },
        None => InputRow { prefix, before: l.text.clone(), cursor: None, after: String::new() },
    }
}

/// The rows shown in `height` rows, scrolled so that the cursor row is
/// visible.
pub fn layout_visible_rows(ls: &Vec<PhysicalLine>, height: u16) -> (r: Vec<InputRow>)
    ensures
        r@.map_values(|x: InputRow| x@) == visible_rows(lines_view(ls@), height as nat),
{
    let ghost lv = lines_view(ls@);
    let h = height as usize;
    let cursor_row = find_cursor_row(ls);
    let len = ls.len();
    let start = if len <= h {
        0
    } else if cursor_row >= h {
        cursor_row - h + 1
    } else {
        0
    };
    let end = if len - start >= h {
        start + h
    } else {
        len
    };
    let ghost want = visible_rows(lv, height as nat);
    let mut rows: Vec<InputRow> = Vec::new();
    let mut i = start;
    while i < end
        invariant
            start <= i <= end <= len == ls@.len(),
            lv == lines_view(ls@),
            want == visible_rows(lv, height as nat),
            want.len() == end - start,
            forall|m: int| 0 <= m < want.len() ==> #[trigger] want[m] == row_view(lv[start + m], start + m),
            rows@.map_values(|x: InputRow| x@) == want.take(i - start),
        decreases end - i,
    {
        let row = render_row(&ls[i], i);
        proof {
            assert(want[i - start] == row_view(lv[i as int], i as int));
            assert(lv[i as int] == ls@[i as int]@);
            assert(want.take(i + 1 - start) =~= want.take(i - start).push(row@));
            assert(rows@.push(row).map_values(|x: InputRow| x@) =~= rows@.map_values(|x: InputRow| x@).push(row@));
        }
        rows.push(row);
        i = i + 1;
    }
    proof {
        assert(want.take(end - start) =~= want);
    }
    rows
}

/// Counts the display rows that the input `buffer` takes at `width`
/// columns (less the two-column prompt).
pub fn count_display_lines(buffer: &str, width: u16) -> (r: usize)
    requires
        buffer@.len() < usize::MAX,
    ensures
        r as int == count_rows(split_on(buffer@, '\n'), avail_width(width as nat)),
{
    let cs = chars_of(buffer);
    let lines = crate::text::split_chars(cs.as_slice(), '\n');
    let ghost ls = split_on(buffer@, '\n');
    let avail = {
        let a: usize = if width as usize >= 2 {
            width as usize - 2
        } else {
            0
        };
        if a == 0 {
            1
        } else {
            a
        }
    };
    proof {
        lemma_count_rows_bound(ls, avail as nat);
        lemma_pieces_total(buffer@, '\n');
    }
    let mut total: usize = 0;
    let mut i: usize = 0;
    while i < lines.len()
        invariant
            i <= lines@.len() == ls.len(),
            ls == split_on(buffer@, '\n'),
            forall|m: int| 0 <= m < lines@.len() ==> #[trigger] lines@[m]@ == ls[m],
            avail == avail_width(width as nat),
            total as int == count_rows(ls.take(i as int), avail as nat),
            count_rows(ls, avail as nat) <= buffer@.len() + 1,
            buffer@.len() < usize::MAX,
        decreases lines@.len() - i,
    {
        proof {
            assert(ls.take(i + 1).drop_last() =~= ls.take(i as int));
            lemma_count_rows_prefix(ls, i + 1, avail as nat);
            lemma_pieces_len(buffer@, '\n', i as int);
        }
        let line = &lines[i];
        let mut width_now: usize = 0;
        let mut count: usize = 1;
        let mut k: usize = 0;
        proof {
            assert(line@.skip(0) =~= line@);
        }
        while k < line.len()
            invariant
                k <= line@.len(),
                line@ == ls[i as int],
                count >= 1,
                count <= k + 1,
                line@.len() <= buffer@.len(),
                buffer@.len() < usize::MAX,
                rows_of_line(line@.skip(k as int), avail as nat, width_now as nat, count as nat)
                    == rows_of_line(ls[i as int], avail as nat, 0, 1),
            decreases line@.len() - k,
        {
            let ghost rest = line@.skip(k as int);
            proof {
                assert(rest.drop_first() =~= line@.skip(k + 1));
                assert(rest[0] == line@[k as int]);
            }
            let w = char_wrap_width(line[k]);
            if width_now > 0 && (width_now > avail || w > avail - width_now) {
                count = count + 1;
                width_now = w;
            } else {
                width_now = width_now + w;
            }
            k = k + 1;
        }
        proof {
            assert(line@.skip(k as int).len() == 0);
            assert(count_rows(ls.take(i + 1), avail as nat) == total + count);
        }
        total = total + count;
        i = i + 1;
    }
    proof {
        assert(ls.take(ls.len() as int) =~= ls);
    }
    total
}

/// The rows one logical line takes, continuing from a row of `w` columns
/// with `n` rows so far.
pub open spec fn rows_of_line(s: Seq<char>, avail: nat, w: nat, n: nat) -> nat
    decreases s.len(),
{
    if s.len() == 0 {
        n
    } else {
        let cw = wrap_width(s[0]);
        if w + cw > avail && w > 0 {
            rows_of_line(s.drop_first(), avail, cw, n + 1)
        } else {
            rows_of_line(s.drop_first(), avail, w + cw, n)
        }
    }
}

/// The rows that the logical lines take.
pub open spec fn count_rows(ls: Seq<Seq<char>>, avail: nat) -> int
    decreases ls.len(),
{
    if ls.len() == 0 {
        0
    } else {
        count_rows(ls.drop_last(), avail) + rows_of_line(ls.last(), avail, 0, 1)
    }
}

/// The rows of a line are at most one more than its characters.
proof fn lemma_rows_of_line_bound(s: Seq<char>, avail: nat, w: nat, n: nat)
    ensures
        n <= rows_of_line(s, avail, w, n) <= n + s.len(),
    decreases s.len(),
{
    if s.len() > 0 {
        let cw = wrap_width(s[0]);
        if w + cw > avail && w > 0 {
            lemma_rows_of_line_bound(s.drop_first(), avail, cw, n + 1);
        } else {
            lemma_rows_of_line_bound(s.drop_first(), avail, w + cw, n);
        }
    }
}

/// Each piece counted with one more: the pieces' lengths plus one.
pub open spec fn pieces_total(ls: Seq<Seq<char>>) -> int
    decreases ls.len(),
{
    if ls.len() == 0 {
        0
    } else {
        pieces_total(ls.drop_last()) + ls.last().len() + 1
    }
}

proof fn lemma_pieces_total(s: Seq<char>, c: char)
    ensures
        pieces_total(split_on(s, c)) == s.len() + 1,
    decreases s.len(),
{
    if s.len() > 0 {
        let t = s.drop_last();
        lemma_pieces_total(t, c);
        crate::text::lemma_split_on_nonempty(t, c);
        let p = split_on(t, c);
        if s.last() != c {
            let u = p.update(p.len() - 1, p.last().push(s.last()));
            assert(split_on(s, c) == u);
            assert(u.drop_last() =~= p.drop_last());
            assert(u.last() == p.last().push(s.last()));
            assert(pieces_total(p) == pieces_total(p.drop_last()) + p.last().len() + 1);
            assert(pieces_total(u) == pieces_total(u.drop_last()) + u.last().len() + 1);
            assert(s.len() == t.len() + 1);
        } else {
            let u = p.push(Seq::<char>::empty());
            assert(split_on(s, c) == u);
            assert(u.drop_last() =~= p);
            assert(pieces_total(u) == pieces_total(u.drop_last()) + u.last().len() + 1);
        }
    } else {
        let u = split_on(s, c);
        assert(u == seq![Seq::<char>::empty()]);
        assert(u.drop_last() =~= Seq::<Seq<char>>::empty());
        assert(pieces_total(u) == pieces_total(u.drop_last()) + u.last().len() + 1);
        assert(pieces_total(Seq::<Seq<char>>::empty()) == 0);
    }
}

proof fn lemma_pieces_len(s: Seq<char>, c: char, i: int)
    requires
        0 <= i < split_on(s, c).len(),
    ensures
        split_on(s, c)[i].len() <= s.len(),
    decreases s.len(),
{
    if s.len() > 0 {
        let t = s.drop_last();
        crate::text::lemma_split_on_nonempty(t, c);
        let p = split_on(t, c);
        if s.last() != c {
            if i < p.len() - 1 {
                lemma_pieces_len(t, c, i);
            } else {
                lemma_pieces_len(t, c, p.len() - 1);
            }
        } else if i < p.len() {
            lemma_pieces_len(t, c, i);
        }
    }
}

proof fn lemma_count_rows_bound(ls: Seq<Seq<char>>, avail: nat)
    ensures
        0 <= count_rows(ls, avail) <= pieces_total(ls),
    decreases ls.len(),
{
    if ls.len() > 0 {
        lemma_count_rows_bound(ls.drop_last(), avail);
        lemma_rows_of_line_bound(ls.last(), avail, 0, 1);
    }
}

proof fn lemma_count_rows_prefix(ls: Seq<Seq<char>>, j: int, avail: nat)
    requires
        0 <= j <= ls.len(),
    ensures
        count_rows(ls.take(j), avail) <= count_rows(ls, avail),
    decreases ls.len(),
{
    if j < ls.len() {
        assert(ls.drop_last().take(j) =~= ls.take(j));
        lemma_count_rows_prefix(ls.drop_last(), j, avail);
        lemma_rows_of_line_bound(ls.last(), avail, 0, 1);
    } else {
        assert(ls.take(j) =~= ls);
    }
}

/// `a + b`, or `usize::MAX` where it would not fit.
fn sat_add(a: usize, b: usize) -> (r: usize)
    ensures
        r == if a + b <= usize::MAX {
            (a + b) as usize
        } else {
            usize::MAX
        },
{
    if a > usize::MAX - b {
        usize::MAX
    } else {
        a + b
    }
}

/// The queue indicator for `u` queued messages and `b` background results.
fn make_queue_text(u: usize, b: usize) -> (r: String)
    requires
        u + b <= usize::MAX,
    ensures
        r@ == queue_text(u as nat, b as nat),
{
    let mut t = String::new();
    if u == 0 && b == 0 {
        return t;
    }
    push_str(&mut t, "── ");
    if b == 0 {
        push_decimal_usize(&mut t, u);
        push_str(&mut t, " ");
        push_str(&mut t, "message");
        if u != 1 {
            push_str(&mut t, "s");
        }
        push_str(&mut t, " queued (ESC) ");
    } else if u == 0 {
        push_decimal_usize(&mut t, b);
        push_str(&mut t, " ");
        push_str(&mut t, "result");
        if b != 1 {
            push_str(&mut t, "s");
        }
        push_str(&mut t, " queued ");
    } else {
        push_decimal_usize(&mut t, u + b);
        push_str(&mut t, " queued (ESC) ");
    }
    proof {
        if b == 0 {
            assert(t@ =~= queue_text(u as nat, b as nat));
        } else if u == 0 {
            assert(t@ =~= queue_text(u as nat, b as nat));
        } else {
            assert(t@ =~= queue_text(u as nat, b as nat));
        }
    }
    t
}

fn push_decimal_usize(s: &mut String, n: usize)
    ensures
        final(s)@ == old(s)@ + crate::text::decimal(n as nat),
{
    crate::text::push_decimal(s, n as u64);
}

/// Whether `r` is the separator row of an input area `width` columns wide,
/// in mode `mode`, with `u` queued messages, `b` queued results and
/// activity tag `tag`.
pub open spec fn header_is(r: HeaderLayout, mode: Seq<char>, u: nat, b: nat, tag: Option<Seq<char>>, width: u16) -> bool {
    &&& r.mode_text@ == " "@ + mode_label(mode) + " "@
    &&& r.hint_text@ == "(Shift+Tab) "@
    &&& r.queue_text@ == queue_text(u, b)
    &&& r.fill == match tag {
        Some(t) => sat_sub(
            sat_sub(width as int, header_used(mode, u, b)) as int,
            unicode_str_width(" "@ + kebab_display(t) + " "@) + unicode_str_width("──"@),
        ),
        None => sat_sub(width as int, header_used(mode, u, b)),
    }
    &&& match tag {
        Some(t) => r.tag_section matches Some(ts) && ts@ == " "@ + kebab_display(t) + " "@,
        None => r.tag_section is None,
    }
}

/// The separator row of the input area `width` columns wide.
pub fn header_layout(
    mode: &str,
    user_msg_count: usize,
    bg_result_count: usize,
    activity_tag: Option<&str>,
    width: u16,
) -> (r: HeaderLayout)
    requires
        user_msg_count + bg_result_count <= usize::MAX,
    ensures
        r.mode_text@ == " "@ + mode_label(mode@) + " "@,
        r.hint_text@ == "(Shift+Tab) "@,
        r.queue_text@ == queue_text(user_msg_count as nat, bg_result_count as nat),
        r.fill == match activity_tag {
            Some(t) => sat_sub(
                sat_sub(width as int, header_used(mode@, user_msg_count as nat, bg_result_count as nat)) as int,
                unicode_str_width(" "@ + kebab_display(t@) + " "@) + unicode_str_width("──"@),
            ),
            None => sat_sub(width as int, header_used(mode@, user_msg_count as nat, bg_result_count as nat)),
        },
        match activity_tag {
            Some(t) => r.tag_section matches Some(ts) && ts@ == " "@ + kebab_display(t@) + " "@,
            None => r.tag_section is None,
        },
{
    let label = if str_eq(mode, "NORMAL") {
        "Normal"
    } else if str_eq(mode, "PLAN") {
        "Plan"
    } else {
        mode
    };
    let mut mode_text = owned(" ");
    push_str(&mut mode_text, label);
    push_str(&mut mode_text, " ");
    let hint_text = owned("(Shift+Tab) ");
    let queue = make_queue_text(user_msg_count, bg_result_count);
    let used = sat_add(
        sat_add(sat_add(str_width("── "), str_width(mode_text.as_str())), str_width(hint_text.as_str())),
        str_width(queue.as_str()),
    );
    let remaining: usize = if width as usize >= used {
        width as usize - used
    } else {
        0
    };
    proof {
        assert(remaining == sat_sub(width as int, header_used(mode@, user_msg_count as nat, bg_result_count as nat)));
    }
    match activity_tag {
        Some(tag) => {
            let display = to_kebab_display(tag);
            let mut section = owned(" ");
            push_str(&mut section, display.as_str());
            push_str(&mut section, " ");
            let tag_width = sat_add(str_width(section.as_str()), str_width("──"));
            let fill: usize = if remaining >= tag_width {
                remaining - tag_width
            } else {
                0
            };
            HeaderLayout { mode_text, hint_text, queue_text: queue, fill, tag_section: Some(section) }
        },
        None => HeaderLayout { mode_text, hint_text, queue_text: queue, fill: remaining, tag_section: None },
    }
}

/// Widget for the user input area.
pub struct InputWidget<'a> {
    buffer: &'a str,
    cursor: usize,
    mode: &'a str,
    user_msg_count: usize,
    bg_result_count: usize,
    activity_tag: Option<&'a str>,
}

/// What the input area shows below its separator row.
pub enum InputBody {
    /// The placeholder prompt, for an empty buffer.
    Placeholder,
    /// The buffer's rows.
    Rows(Vec<InputRow>),
}

/// The whole input area: whether its accent is the plan-mode one, the
/// separator row, and what is below it.
pub struct InputLayout {
    pub plan_accent: bool,
    pub header: HeaderLayout,
    pub body: InputBody,
}

impl<'a> InputWidget<'a> {
    /// The widget's buffer.
    pub closed spec fn buffer_view(&self) -> Seq<char> {
        self.buffer@
    }

    /// The cursor's byte offset.
    pub closed spec fn cursor_view(&self) -> nat {
        self.cursor as nat
    }

    /// The mode name.
    pub closed spec fn mode_view(&self) -> Seq<char> {
        self.mode@
    }

    /// The queued message and result counts.
    pub closed spec fn counts_view(&self) -> (nat, nat) {
        (self.user_msg_count as nat, self.bg_result_count as nat)
    }

    /// The activity tag.
    pub closed spec fn tag_view(&self) -> Option<Seq<char>> {
        match self.activity_tag {
            Some(t) => Some(t@),
            None => None,
        }
    }

    pub fn new(
        buffer: &'a str,
        cursor: usize,
        mode: &'a str,
        user_msg_count: usize,
        bg_result_count: usize,
        activity_tag: Option<&'a str>,
    ) -> (r: Self)
        ensures
            r.buffer_view() == buffer@,
            r.cursor_view() == cursor,
            r.mode_view() == mode@,
            r.counts_view() == (user_msg_count as nat, bg_result_count as nat),
            r.tag_view() == match activity_tag {
                Some(t) => Some(t@),
                None => None,
            },
    {
        InputWidget { buffer, cursor, mode, user_msg_count, bg_result_count, activity_tag }
    }

    /// Lays the widget out in an area `width` columns wide and `height`
    /// rows high; nothing where it has fewer than two rows.
    pub fn layout(&self, width: u16, height: u16) -> (r: Option<InputLayout>)
        requires
            height >= 2 ==> self.counts_view().0 + self.counts_view().1 <= usize::MAX,
        ensures
            height < 2 <==> r is None,
            r matches Some(l) ==> l.plan_accent == (self.mode_view() == "PLAN"@)
                && header_is(l.header, self.mode_view(), self.counts_view().0, self.counts_view().1, self.tag_view(), width)
                && (self.buffer_view().len() == 0 <==> l.body is Placeholder)
                && (l.body matches InputBody::Rows(rows) ==> rows@.map_values(|x: InputRow| x@)
                    == visible_rows(
                    physical_lines(self.buffer_view(), self.cursor_view(), width as nat),
                    (height - 1) as nat,
                )),
    {
        if height < 2 {
            return None;
        }
        let header = header_layout(
            self.mode,
            self.user_msg_count,
            self.bg_result_count,
            self.activity_tag,
            width,
        );
        let plan_accent = str_eq(self.mode, "PLAN");
        let body = if self.buffer.is_empty() {
            InputBody::Placeholder
        } else {
            let lines = layout_lines(self.buffer, self.cursor, width);
            InputBody::Rows(layout_visible_rows(&lines, height - 1))
        };
        Some(InputLayout { plan_accent, header, body })
    }
}

} // verus!
