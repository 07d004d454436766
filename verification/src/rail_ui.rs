//! The rail-style screens of the setup wizard: what each line shows and in
//! which style, the geometry of info boxes, and the reading of answers.
//! Writing to the terminal and reading keys are the caller's part.
use vstd::prelude::*;

use crate::text::{byte_len, owned, push_char, push_str, str_byte_len};

verus! {

/// How a piece of a line is shown.
#[derive(Debug, Clone, Copy, PartialEq, Eq, Structural)]
pub enum Style {
    Plain,
    /// The rail's accent colour.
    Accent,
    Bold,
    Dim,
    Success,
    Error,
    Warning,
}

/// A piece of a line in one style.
#[derive(Debug, Clone)]
pub struct Segment {
    pub style: Style,
    pub text: String,
}

/// The form of a segment.
pub open spec fn seg_view(s: Segment) -> (Style, Seq<char>) {
    (s.style, s.text@)
}

/// The form of a line.
pub open spec fn line_view(l: Seq<Segment>) -> Seq<(Style, Seq<char>)> {
    l.map_values(|s: Segment| seg_view(s))
}

/// The form of a screen: its lines.
pub open spec fn screen_view(ls: Seq<Vec<Segment>>) -> Seq<Seq<(Style, Seq<char>)>> {
    ls.map_values(|l: Vec<Segment>| line_view(l@))
}

/// `n` copies of `c`.
pub open spec fn repeat_char(c: char, n: nat) -> Seq<char> {
    Seq::new(n, |i: int| c)
}

/// `a - b`, or 0 where `b` is larger (`usize::saturating_sub`).
pub open spec fn sat_sub(a: int, b: int) -> int {
    if a >= b {
        a - b
    } else {
        0
    }
}

/// The larger of two numbers.
pub open spec fn max_of(a: int, b: int) -> int {
    if a >= b {
        a
    } else {
        b
    }
}

/// The smaller of two numbers.
pub open spec fn min_of(a: int, b: int) -> int {
    if a <= b {
        a
    } else {
        b
    }
}

/// The indent and rail mark that start a line.
pub open spec fn rail(mark: char) -> Seq<(Style, Seq<char>)> {
    seq![(Style::Plain, "  "@), (Style::Accent, seq![mark])]
}

/// A bare rail line: `│`.
pub open spec fn bar_line() -> Seq<(Style, Seq<char>)> {
    rail('│')
}

fn segment(style: Style, text: &str) -> (r: Segment)
    ensures
        seg_view(r) == (style, text@),
{
    Segment { style, text: owned(text) }
}

fn segment_of(style: Style, text: String) -> (r: Segment)
    ensures
        seg_view(r) == (style, text@),
{
    Segment { style, text }
}

fn char_text(c: char) -> (r: String)
    ensures
        r@ == seq![c],
{
    let mut s = String::new();
    push_char(&mut s, c);
    s
}

fn repeated(c: char, n: usize) -> (r: String)
    ensures
        r@ == repeat_char(c, n as nat),
{
    let mut s = String::new();
    let mut k: usize = 0;
    while k < n
        invariant
            k <= n,
            s@ == repeat_char(c, k as nat),
        decreases n - k,
    {
        push_char(&mut s, c);
        k = k + 1;
        assert(s@ =~= repeat_char(c, k as nat));
    }
    s
}

/// A line that starts with the rail mark `mark`, followed by `rest`.
fn rail_line(mark: char, rest: Vec<Segment>) -> (r: Vec<Segment>)
    ensures
        line_view(r@) == rail(mark) + line_view(rest@),
{
    let mut l: Vec<Segment> = Vec::new();
    l.push(segment(Style::Plain, "  "));
    l.push(segment_of(Style::Accent, char_text(mark)));
    let ghost head = l@;
    let mut i: usize = 0;
    while i < rest.len()
        invariant
            i <= rest@.len(),
            head.len() == 2,
            line_view(head) == rail(mark),
            l@ == head + rest@.take(i as int),
        decreases rest@.len() - i,
    {
        l.push(rest[i].clone_segment());
        i = i + 1;
        assert(l@ =~= head + rest@.take(i as int));
    }
    proof {
        assert(rest@.take(rest@.len() as int) =~= rest@);
        assert(line_view(l@) =~= line_view(head) + line_view(rest@));
    }
    l
}

impl Segment {
    /// An exact copy.
    pub fn clone_segment(&self) -> (r: Segment)
        ensures
            r == *self,
    {
        Segment { style: self.style, text: self.text.clone() }
    }
}

/// The bare rail line `│`.
fn bar() -> (r: Vec<Segment>)
    ensures
        line_view(r@) == bar_line(),
{
    let r = rail_line('│', Vec::new());
    assert(line_view(r@) =~= bar_line());
    r
}

/// Appends a line to a screen.
fn push_line(screen: &mut Vec<Vec<Segment>>, l: Vec<Segment>)
    ensures
        screen_view(final(screen)@) == screen_view(old(screen)@).push(line_view(l@)),
{
    screen.push(l);
    assert(screen_view(screen@) =~= screen_view(old(screen)@).push(line_view(l@)));
}

// ---------------------------------------------------------------------------
// Headings and messages
// ---------------------------------------------------------------------------

/// The opening block: `┌  Title`, a bare rail, each line on the rail, and
/// a bare rail.
pub open spec fn intro_screen(title: Seq<char>, lines: Seq<Seq<char>>) -> Seq<Seq<(Style, Seq<char>)>> {
    seq![Seq::empty(), rail('┌') + seq![(Style::Plain, "  "@), (Style::Bold, title)], bar_line()]
        + lines.map_values(|l: Seq<char>| rail('│') + seq![(Style::Plain, "  "@ + l)])
        + seq![bar_line()]
}

/// The opening block of the wizard.
pub fn rail_intro(title: &str, lines: &[&str]) -> (r: Vec<Vec<Segment>>)
    ensures
        screen_view(r@) == intro_screen(title@, lines@.map_values(|l: &str| l@)),
{
    let mut screen: Vec<Vec<Segment>> = Vec::new();
    let empty: Vec<Segment> = Vec::new();
    assert(line_view(empty@) =~= Seq::<(Style, Seq<char>)>::empty());
    push_line(&mut screen, empty);
    let mut head: Vec<Segment> = Vec::new();
    head.push(segment(Style::Plain, "  "));
    head.push(segment(Style::Bold, title));
    push_line(&mut screen, rail_line('┌', head));
    push_line(&mut screen, bar());
    let ghost start = screen_view(screen@);
    let ghost lv = lines@.map_values(|l: &str| l@);
    let mut i: usize = 0;
    while i < lines.len()
        invariant
            i <= lines@.len(),
            lv == lines@.map_values(|l: &str| l@),
            screen_view(screen@) == start + lv.take(i as int).map_values(
                |l: Seq<char>| rail('│') + seq![(Style::Plain, "  "@ + l)],
            ),
        decreases lines@.len() - i,
    {
        let mut t = owned("  ");
        push_str(&mut t, lines[i]);
        let mut rest: Vec<Segment> = Vec::new();
        rest.push(segment_of(Style::Plain, t));
        let l = rail_line('│', rest);
        push_line(&mut screen, l);
        proof {
            assert(lv.take(i + 1).map_values(|l: Seq<char>| rail('│') + seq![(Style::Plain, "  "@ + l)])
                =~= lv.take(i as int).map_values(|l: Seq<char>| rail('│') + seq![(Style::Plain, "  "@ + l)]).push(
                rail('│') + seq![(Style::Plain, "  "@ + lv[i as int])],
            ));
            assert(line_view(rest@) =~= seq![(Style::Plain, "  "@ + lv[i as int])]);
        }
        i = i + 1;
    }
    push_line(&mut screen, bar());
    proof {
        assert(lv.take(lines@.len() as int) =~= lv);
        assert(screen_view(screen@) =~~= intro_screen(title@, lv));
    }
    screen
}

/// The closing block: `└  message` and an empty line.
pub open spec fn outro_screen(message: Seq<char>) -> Seq<Seq<(Style, Seq<char>)>> {
    seq![rail('└') + seq![(Style::Plain, "  "@), (Style::Bold, message)], Seq::empty()]
}

/// The closing block of the wizard.
pub fn rail_outro(message: &str) -> (r: Vec<Vec<Segment>>)
    ensures
        screen_view(r@) == outro_screen(message@),
{
    let mut screen: Vec<Vec<Segment>> = Vec::new();
    let mut rest: Vec<Segment> = Vec::new();
    rest.push(segment(Style::Plain, "  "));
    rest.push(segment(Style::Bold, message));
    push_line(&mut screen, rail_line('└', rest));
    let empty: Vec<Segment> = Vec::new();
    assert(line_view(empty@) =~= Seq::<(Style, Seq<char>)>::empty());
    push_line(&mut screen, empty);
    assert(screen_view(screen@) =~~= outro_screen(message@));
    screen
}

/// The label that follows a heading: ` ── Step label`.
pub open spec fn step_suffix(label: Seq<char>) -> Seq<char> {
    " ── Step "@ + label
}

/// A step heading: an empty line, then `◇  Title`, with the step label
/// dimmed where there is one.
pub open spec fn step_screen(title: Seq<char>, label: Option<Seq<char>>) -> Seq<Seq<(Style, Seq<char>)>> {
    let head = rail('◇') + seq![(Style::Plain, "  "@), (Style::Bold, title)];
    seq![
        Seq::empty(),
        match label {
            Some(l) => head.push((Style::Dim, step_suffix(l))),
            None => head,
        },
    ]
}

fn step_suffix_text(label: &str) -> (r: String)
    ensures
        r@ == step_suffix(label@),
{
    let mut s = owned(" ── Step ");
    push_str(&mut s, label);
    s
}

/// A step heading with a diamond marker.
pub fn rail_step(title: &str, step_label: Option<&str>) -> (r: Vec<Vec<Segment>>)
    ensures
        screen_view(r@) == step_screen(
            title@,
            match step_label {
                Some(l) => Some(l@),
                None => None,
            },
        ),
{
    let mut screen: Vec<Vec<Segment>> = Vec::new();
    let empty: Vec<Segment> = Vec::new();
    assert(line_view(empty@) =~= Seq::<(Style, Seq<char>)>::empty());
    push_line(&mut screen, empty);
    let mut rest: Vec<Segment> = Vec::new();
    rest.push(segment(Style::Plain, "  "));
    rest.push(segment(Style::Bold, title));
    if let Some(l) = step_label {
        rest.push(segment_of(Style::Dim, step_suffix_text(l)));
    }
    push_line(&mut screen, rail_line('◇', rest));
    assert(screen_view(screen@) =~~= step_screen(
        title@,
        match step_label {
            Some(l) => Some(l@),
            None => None,
        },
    ));
    screen
}

/// The line that shows an answer below a step: `│  value`.
pub fn rail_answer(value: &str) -> (r: Vec<Segment>)
    ensures
        line_view(r@) == rail('│') + seq![(Style::Plain, "  "@ + value@)],
{
    let mut t = owned("  ");
    push_str(&mut t, value);
    let mut rest: Vec<Segment> = Vec::new();
    rest.push(segment_of(Style::Plain, t));
    let r = rail_line('│', rest);
    assert(line_view(rest@) =~= seq![(Style::Plain, "  "@ + value@)]);
    r
}

/// A status line on the rail: `│  ` then the mark and the message in the
/// style of the status.
pub open spec fn status_line(style: Style, mark: char, message: Seq<char>) -> Seq<(Style, Seq<char>)> {
    rail('│') + seq![(Style::Plain, "  "@), (style, seq![mark, ' '] + message)]
}

fn status(style: Style, mark: char, message: &str) -> (r: Vec<Segment>)
    ensures
        line_view(r@) == status_line(style, mark, message@),
{
    let mut t = char_text(mark);
    push_char(&mut t, ' ');
    push_str(&mut t, message);
    assert(t@ =~= seq![mark, ' '] + message@);
    let mut rest: Vec<Segment> = Vec::new();
    rest.push(segment(Style::Plain, "  "));
    rest.push(segment_of(style, t));
    let r = rail_line('│', rest);
    assert(line_view(rest@) =~= seq![(Style::Plain, "  "@), (style, seq![mark, ' '] + message@)]);
    r
}

/// A success message on the rail, marked `✓`.
pub fn rail_success(message: &str) -> (r: Vec<Segment>)
    ensures
        line_view(r@) == status_line(Style::Success, '✓', message@),
{
    status(Style::Success, '✓', message)
}

/// An error message on the rail, marked `✖`.
pub fn rail_error(message: &str) -> (r: Vec<Segment>)
    ensures
        line_view(r@) == status_line(Style::Error, '✖', message@),
{
    status(Style::Error, '✖', message)
}

/// A warning on the rail, marked `⚠`.
pub fn rail_warning(message: &str) -> (r: Vec<Segment>)
    ensures
        line_view(r@) == status_line(Style::Warning, '⚠', message@),
{
    status(Style::Warning, '⚠', message)
}

/// A blank rail line.
pub fn rail_separator() -> (r: Vec<Segment>)
    ensures
        line_view(r@) == bar_line(),
{
    bar()
}

// ---------------------------------------------------------------------------
// Info boxes
// ---------------------------------------------------------------------------

/// The label that follows a box's title.
pub open spec fn label_text(label: Option<Seq<char>>) -> Seq<char> {
    match label {
        Some(l) => step_suffix(l),
        None => Seq::empty(),
    }
}

/// The longest line, in bytes (0 for none).
pub open spec fn longest(lines: Seq<Seq<char>>) -> nat
    decreases lines.len(),
{
    if lines.len() == 0 {
        0
    } else {
        max_of(longest(lines.drop_last()) as int, byte_len(lines.last()) as int) as nat
    }
}

/// The width of a box: wide enough for its longest line, its header and
/// 52 columns, but no wider than the terminal less 4.
pub open spec fn box_width(header_len: nat, longest_line: nat, term_width: nat) -> int {
    min_of(max_of(max_of(longest_line as int, header_len + 8int), 52), sat_sub(term_width as int, 4))
}

/// An empty row of a box of width `w`.
pub open spec fn box_blank(w: int) -> Seq<(Style, Seq<char>)> {
    rail('│') + seq![(Style::Plain, repeat_char(' ', sat_sub(w, 5) as nat) + " "@), (Style::Accent, seq!['│'])]
}

/// The row of `line` in a box of width `w`.
pub open spec fn box_row(w: int, line: Seq<char>) -> Seq<(Style, Seq<char>)> {
    let pad = max_of(sat_sub(w, byte_len(line) + 7int), 1);
    rail('│') + seq![
        (Style::Plain, "  "@ + line + repeat_char(' ', pad as nat) + " "@),
        (Style::Accent, seq!['│']),
    ]
}

/// A box attached to the rail: its header with a dashed top edge, a blank
/// row, a row for each line, a blank row, the bottom edge and a bare rail.
pub open spec fn info_box_screen(
    title: Seq<char>,
    lines: Seq<Seq<char>>,
    label: Option<Seq<char>>,
    term_width: nat,
) -> Seq<Seq<(Style, Seq<char>)>> {
    let h = title + label_text(label);
    let w = box_width(byte_len(h), longest(lines), term_width);
    let top = max_of(sat_sub(w, byte_len(h) + 7int), 1);
    seq![
        Seq::empty(),
        rail('◇') + seq![
            (Style::Plain, "  "@),
            (Style::Bold, h),
            (Style::Plain, " "@),
            (Style::Accent, repeat_char('─', top as nat) + seq!['╮']),
        ],
        box_blank(w),
    ] + lines.map_values(|l: Seq<char>| box_row(w, l)) + seq![
        box_blank(w),
        seq![(Style::Plain, "  "@), (Style::Accent, seq!['├'] + repeat_char('─', sat_sub(w, 4) as nat) + seq!['╯'])],
        bar_line(),
    ]
}

/// Whether the byte lengths of a box's header and lines leave room for
/// its arithmetic.
pub open spec fn box_fits(title: Seq<char>, lines: Seq<Seq<char>>, label: Option<Seq<char>>) -> bool {
    &&& byte_len(title + label_text(label)) + 8 <= usize::MAX
    &&& forall|i: int| 0 <= i < lines.len() ==> byte_len(#[trigger] lines[i]) + 7 <= usize::MAX
}

fn box_blank_line(w: usize) -> (r: Vec<Segment>)
    ensures
        line_view(r@) == box_blank(w as int),
{
    let n = if w >= 5 {
        w - 5
    } else {
        0
    };
    let mut t = repeated(' ', n);
    push_str(&mut t, " ");
    let mut rest: Vec<Segment> = Vec::new();
    rest.push(segment_of(Style::Plain, t));
    rest.push(segment(Style::Accent, "│"));
    proof {
        reveal_strlit("│");
    }
    let r = rail_line('│', rest);
    assert(line_view(r@) =~~= box_blank(w as int));
    r
}

fn box_row_line(w: usize, line: &str) -> (r: Vec<Segment>)
    requires
        byte_len(line@) + 7 <= usize::MAX,
    ensures
        line_view(r@) == box_row(w as int, line@),
{
    let len = str_byte_len(line);
    let need = len + 7;
    let pad = if w >= need && w - need >= 1 {
        w - need
    } else {
        1
    };
    let mut t = owned("  ");
    push_str(&mut t, line);
    let sp = repeated(' ', pad);
    push_str(&mut t, sp.as_str());
    push_str(&mut t, " ");
    let mut rest: Vec<Segment> = Vec::new();
    rest.push(segment_of(Style::Plain, t));
    rest.push(segment(Style::Accent, "│"));
    proof {
        reveal_strlit("│");
    }
    let r = rail_line('│', rest);
    assert(line_view(r@) =~~= box_row(w as int, line@));
    r
}

/// A box attached to the rail, for a terminal `term_width` columns wide.
pub fn rail_info_box(title: &str, lines: &[String], step_label: Option<&str>, term_width: usize) -> (r: Vec<Vec<Segment>>)
    requires
        box_fits(
            title@,
            lines@.map_values(|l: String| l@),
            match step_label {
                Some(l) => Some(l@),
                None => None,
            },
        ),
    ensures
        screen_view(r@) == info_box_screen(
            title@,
            lines@.map_values(|l: String| l@),
            match step_label {
                Some(l) => Some(l@),
                None => None,
            },
            term_width as nat,
        ),
{
    let ghost lv = lines@.map_values(|l: String| l@);
    let ghost lab = match step_label {
        Some(l) => Some(l@),
        None => None,
    };
    let mut header = owned(title);
    if let Some(l) = step_label {
        let suffix = step_suffix_text(l);
        push_str(&mut header, suffix.as_str());
    }
    assert(header@ =~= title@ + label_text(lab));
    let hlen = str_byte_len(header.as_str());
    let mut longest_line: usize = 0;
    let mut i: usize = 0;
    while i < lines.len()
        invariant
            i <= lines@.len(),
            lv == lines@.map_values(|l: String| l@),
            longest_line == longest(lv.take(i as int)),
        decreases lines@.len() - i,
    {
        proof {
            assert(lv.take(i + 1).drop_last() =~= lv.take(i as int));
        }
        let n = str_byte_len(lines[i].as_str());
        if n > longest_line {
            longest_line = n;
        }
        i = i + 1;
    }
    assert(lv.take(lines@.len() as int) =~= lv);
    let mut w = longest_line;
    if hlen + 8 > w {
        w = hlen + 8;
    }
    if 52 > w {
        w = 52;
    }
    let cap = if term_width >= 4 {
        term_width - 4
    } else {
        0
    };
    if cap < w {
        w = cap;
    }
    let top = if w >= hlen + 7 && w - (hlen + 7) >= 1 {
        w - (hlen + 7)
    } else {
        1
    };
    let mut screen: Vec<Vec<Segment>> = Vec::new();
    let empty: Vec<Segment> = Vec::new();
    assert(line_view(empty@) =~= Seq::<(Style, Seq<char>)>::empty());
    push_line(&mut screen, empty);
    let mut edge = repeated('─', top);
    push_char(&mut edge, '╮');
    let mut head: Vec<Segment> = Vec::new();
    head.push(segment(Style::Plain, "  "));
    head.push(segment_of(Style::Bold, header));
    head.push(segment(Style::Plain, " "));
    head.push(segment_of(Style::Accent, edge));
    push_line(&mut screen, rail_line('◇', head));
    push_line(&mut screen, box_blank_line(w));
    let ghost start = screen_view(screen@);
    let mut k: usize = 0;
    while k < lines.len()
        invariant
            k <= lines@.len(),
            lv == lines@.map_values(|l: String| l@),
            box_fits(title@, lv, lab),
            screen_view(screen@) == start + lv.take(k as int).map_values(|l: Seq<char>| box_row(w as int, l)),
        decreases lines@.len() - k,
    {
        assert(lv[k as int] == lines@[k as int]@);
        let row = box_row_line(w, lines[k].as_str());
        push_line(&mut screen, row);
        proof {
            assert(lv.take(k + 1).map_values(|l: Seq<char>| box_row(w as int, l)) =~= lv.take(k as int).map_values(
                |l: Seq<char>| box_row(w as int, l),
            ).push(box_row(w as int, lv[k as int])));
        }
        k = k + 1;
    }
    push_line(&mut screen, box_blank_line(w));
    let bottom = if w >= 4 {
        w - 4
    } else {
        0
    };
    let mut b = char_text('├');
    let d = repeated('─', bottom);
    push_str(&mut b, d.as_str());
    push_char(&mut b, '╯');
    let mut last: Vec<Segment> = Vec::new();
    last.push(segment(Style::Plain, "  "));
    last.push(segment_of(Style::Accent, b));
    push_line(&mut screen, last);
    push_line(&mut screen, bar());
    proof {
        assert(lv.take(lines@.len() as int) =~= lv);
        assert(w as int == box_width(byte_len(header@), longest(lv), term_width as nat));
        assert(screen_view(screen@) =~~= info_box_screen(title@, lv, lab, term_width as nat));
    }
    screen
}

/// A row of a summary table: the label padded to 12 characters, then the
/// value (what `{:<12}{}` prints).
pub open spec fn summary_row(label: Seq<char>, value: Seq<char>) -> Seq<char> {
    let pad = if label.len() < 12 {
        (12 - label.len()) as nat
    } else {
        0
    };
    label + repeat_char(' ', pad) + value
}

/// The lines of a summary table: a row for each pair and, where there are
/// extra lines, an empty line and those.
pub open spec fn summary_lines(rows: Seq<(Seq<char>, Seq<char>)>, extra: Option<Seq<Seq<char>>>) -> Seq<Seq<char>> {
    let rs = rows.map_values(|r: (Seq<char>, Seq<char>)| summary_row(r.0, r.1));
    match extra {
        Some(e) => rs + seq![Seq::empty()] + e,
        None => rs,
    }
}

/// The lines of a summary table.
pub fn summary_box_lines(rows: &[(&str, &str)], extra_lines: Option<&[String]>) -> (r: Vec<String>)
    ensures
        r@.map_values(|l: String| l@) == summary_lines(
            rows@.map_values(|r: (&str, &str)| (r.0@, r.1@)),
            match extra_lines {
                Some(e) => Some(e@.map_values(|l: String| l@)),
                None => None,
            },
        ),
{
    let ghost rv = rows@.map_values(|r: (&str, &str)| (r.0@, r.1@));
    let ghost rs = rv.map_values(|r: (Seq<char>, Seq<char>)| summary_row(r.0, r.1));
    let mut out: Vec<String> = Vec::new();
    let mut i: usize = 0;
    while i < rows.len()
        invariant
            i <= rows@.len(),
            rv == rows@.map_values(|r: (&str, &str)| (r.0@, r.1@)),
            rs == rv.map_values(|r: (Seq<char>, Seq<char>)| summary_row(r.0, r.1)),
            out@.map_values(|l: String| l@) == rs.take(i as int),
        decreases rows@.len() - i,
    {
        let (label, value) = rows[i];
        let n = crate::text::chars_of(label).len();
        let mut t = owned(label);
        if n < 12 {
            let sp = repeated(' ', 12 - n);
            push_str(&mut t, sp.as_str());
        }
        push_str(&mut t, value);
        let ghost before = out@;
        out.push(t);
        proof {
            assert(rv[i as int] == (label@, value@));
            assert(t@ =~= summary_row(label@, value@));
            assert(out@.map_values(|l: String| l@) =~= before.map_values(|l: String| l@).push(t@));
            assert(rs.take(i + 1) =~= rs.take(i as int).push(rs[i as int]));
        }
        i = i + 1;
    }
    assert(rs.take(rows@.len() as int) =~= rs);
    match extra_lines {
        Some(e) => {
            let ghost base = out@.map_values(|l: String| l@);
            out.push(String::new());
            let ghost ev = e@.map_values(|l: String| l@);
            let mut j: usize = 0;
            while j < e.len()
                invariant
                    j <= e@.len(),
                    ev == e@.map_values(|l: String| l@),
                    out@.map_values(|l: String| l@) == base + seq![Seq::<char>::empty()] + ev.take(j as int),
                decreases e@.len() - j,
            {
                let ghost before = out@;
                out.push(e[j].clone());
                proof {
                    assert(out@.map_values(|l: String| l@) =~= before.map_values(|l: String| l@).push(e@[j as int]@));
                    assert(ev.take(j + 1) =~= ev.take(j as int).push(ev[j as int]));
                }
                j = j + 1;
            }
            assert(ev.take(e@.len() as int) =~= ev);
        },
        None => {},
    }
    out
}

/// A summary table in an info box, for a terminal `term_width` columns wide.
pub fn rail_summary_box(
    title: &str,
    rows: &[(&str, &str)],
    extra_lines: Option<&[String]>,
    term_width: usize,
) -> (r: Vec<Vec<Segment>>)
    requires
        box_fits(
            title@,
            summary_lines(
                rows@.map_values(|r: (&str, &str)| (r.0@, r.1@)),
                match extra_lines {
                    Some(e) => Some(e@.map_values(|l: String| l@)),
                    None => None,
                },
            ),
            None,
        ),
    ensures
        screen_view(r@) == info_box_screen(
            title@,
            summary_lines(
                rows@.map_values(|r: (&str, &str)| (r.0@, r.1@)),
                match extra_lines {
                    Some(e) => Some(e@.map_values(|l: String| l@)),
                    None => None,
                },
            ),
            None,
            term_width as nat,
        ),
{
    let lines = summary_box_lines(rows, extra_lines);
    rail_info_box(title, lines.as_slice(), None, term_width)
}

// ---------------------------------------------------------------------------
// Questions
// ---------------------------------------------------------------------------

/// The question of a yes/no prompt: an empty line and `◇  prompt (Y/n)`
/// (or `(y/N)` where the default is no); then, without a line break, the
/// input mark `│  > `.
pub open spec fn confirm_screen(prompt: Seq<char>, default: bool) -> (Seq<Seq<(Style, Seq<char>)>>, Seq<(Style, Seq<char>)>) {
    let hint = if default {
        " (Y/n)"@
    } else {
        " (y/N)"@
    };
    (
        seq![Seq::empty(), rail('◇') + seq![(Style::Plain, "  "@), (Style::Bold, prompt), (Style::Plain, hint)]],
        rail('│') + seq![(Style::Plain, "  > "@)],
    )
}

fn input_mark() -> (r: Vec<Segment>)
    ensures
        line_view(r@) == rail('│') + seq![(Style::Plain, "  > "@)],
{
    let mut rest: Vec<Segment> = Vec::new();
    rest.push(segment(Style::Plain, "  > "));
    let r = rail_line('│', rest);
    assert(line_view(rest@) =~= seq![(Style::Plain, "  > "@)]);
    r
}

/// The question of a yes/no prompt, and the input mark after it.
pub fn rail_confirm_screen(prompt_text: &str, default: bool) -> (r: (Vec<Vec<Segment>>, Vec<Segment>))
    ensures
        (screen_view(r.0@), line_view(r.1@)) == confirm_screen(prompt_text@, default),
{
    let mut screen: Vec<Vec<Segment>> = Vec::new();
    let empty: Vec<Segment> = Vec::new();
    assert(line_view(empty@) =~= Seq::<(Style, Seq<char>)>::empty());
    push_line(&mut screen, empty);
    let mut rest: Vec<Segment> = Vec::new();
    rest.push(segment(Style::Plain, "  "));
    rest.push(segment(Style::Bold, prompt_text));
    rest.push(segment(Style::Plain, if default {
        " (Y/n)"
    } else {
        " (y/N)"
    }));
    push_line(&mut screen, rail_line('◇', rest));
    let m = input_mark();
    assert(screen_view(screen@) =~~= confirm_screen(prompt_text@, default).0);
    (screen, m)
}

/// The answer that a yes/no reply gives: the default for an empty reply,
/// otherwise whether the lower-cased reply starts with `y`.
pub open spec fn confirm_value(reply: Seq<char>, default: bool) -> bool {
    let a = crate::text::lowercase(crate::text::trim(reply));
    if a.len() == 0 {
        default
    } else {
        a[0] == 'y'
    }
}

/// The answer that a yes/no reply gives.
pub fn rail_confirm_answer(reply: &str, default: bool) -> (r: bool)
    ensures
        r == confirm_value(reply@, default),
{
    let cs = crate::text::chars_of(reply);
    let t = crate::text::string_of(crate::text::trim_chars(cs.as_slice()).as_slice());
    let a = crate::text::to_lowercase(t.as_str());
    let ac = crate::text::chars_of(a.as_str());
    if ac.len() == 0 {
        default
    } else {
        ac[0] == 'y'
    }
}

/// The question of a text prompt: an empty line and `◇  prompt`; then,
/// without a line break, the input mark `│  > `.
pub open spec fn prompt_screen(prompt: Seq<char>) -> (Seq<Seq<(Style, Seq<char>)>>, Seq<(Style, Seq<char>)>) {
    (
        seq![Seq::empty(), rail('◇') + seq![(Style::Plain, "  "@), (Style::Bold, prompt)]],
        rail('│') + seq![(Style::Plain, "  > "@)],
    )
}

/// The question of a text prompt, and the input mark after it.
pub fn rail_prompt_screen(prompt_text: &str) -> (r: (Vec<Vec<Segment>>, Vec<Segment>))
    ensures
        (screen_view(r.0@), line_view(r.1@)) == prompt_screen(prompt_text@),
{
    let mut screen: Vec<Vec<Segment>> = Vec::new();
    let empty: Vec<Segment> = Vec::new();
    assert(line_view(empty@) =~= Seq::<(Style, Seq<char>)>::empty());
    push_line(&mut screen, empty);
    let mut rest: Vec<Segment> = Vec::new();
    rest.push(segment(Style::Plain, "  "));
    rest.push(segment(Style::Bold, prompt_text));
    push_line(&mut screen, rail_line('◇', rest));
    let m = input_mark();
    assert(screen_view(screen@) =~~= prompt_screen(prompt_text@).0);
    (screen, m)
}

/// The text that a reply to a text prompt gives: the reply trimmed.
pub fn rail_prompt_answer(reply: &str) -> (r: String)
    ensures
        r@ == crate::text::trim(reply@),
{
    let cs = crate::text::chars_of(reply);
    crate::text::string_of(crate::text::trim_chars(cs.as_slice()).as_slice())
}

// ---------------------------------------------------------------------------
// Password entry
// ---------------------------------------------------------------------------

/// A key pressed while a password is typed.
#[derive(Debug, Clone, Copy, PartialEq, Eq, Structural)]
pub enum PasswordKey {
    Enter,
    Backspace,
    /// `c` with the control key.
    CtrlC,
    Esc,
    Char(char),
    Other,
}

/// What the terminal does after a key of a password.
#[derive(Debug, Clone, PartialEq, Eq)]
pub enum PasswordStep {
    /// Show `*` for the character typed.
    Echo,
    /// Erase the last `*`.
    Erase,
    /// Entry is over; the password typed.
    Finish(String),
    /// Entry is abandoned; the password is empty.
    Cancel,
    /// Nothing to show.
    Ignore,
}

/// Takes one key of a password being typed into `password`: Enter ends the
/// entry, Backspace removes the last character, Ctrl-C and Esc abandon it,
/// a character is added.
pub fn password_step(password: &mut String, key: PasswordKey) -> (r: PasswordStep)
    ensures
        match key {
            PasswordKey::Enter => r matches PasswordStep::Finish(p) && p@ == old(password)@ && final(password)@
                == old(password)@,
            PasswordKey::Backspace => if old(password)@.len() > 0 {
                r == PasswordStep::Erase && final(password)@ == old(password)@.drop_last()
            } else {
                r == PasswordStep::Ignore && final(password)@ == old(password)@
            },
            PasswordKey::CtrlC | PasswordKey::Esc => r == PasswordStep::Cancel && final(password)@.len() == 0,
            PasswordKey::Char(c) => r == PasswordStep::Echo && final(password)@ == old(password)@.push(c),
            PasswordKey::Other => r == PasswordStep::Ignore && final(password)@ == old(password)@,
        },
{
    match key {
        PasswordKey::Enter => PasswordStep::Finish(password.clone()),
        PasswordKey::Backspace => {
            let cs = crate::text::chars_of(password.as_str());
            if cs.len() > 0 {
                let keep = crate::text::slice_range(cs.as_slice(), 0, cs.len() - 1);
                *password = crate::text::string_of(keep.as_slice());
                assert(password@ =~= old(password)@.drop_last());
                PasswordStep::Erase
            } else {
                PasswordStep::Ignore
            }
        },
        PasswordKey::CtrlC | PasswordKey::Esc => {
            *password = String::new();
            PasswordStep::Cancel
        },
        PasswordKey::Char(c) => {
            push_char(password, c);
            PasswordStep::Echo
        },
        PasswordKey::Other => PasswordStep::Ignore,
    }
}

/// The width of the terminal: its size where known, 80 columns otherwise.
pub fn term_width(size: Option<u16>) -> (r: usize)
    ensures
        r == match size {
            Some(w) => w as usize,
            None => 80,
        },
{
    match size {
        Some(w) => w as usize,
        None => 80,
    }
}

} // verus!
