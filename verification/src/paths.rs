//! Paths as text: their components, and their normal form.
use vstd::prelude::*;

use crate::text::{chars_of, slice_range, split_chars, split_on};

verus! {

/// The normal components of a path: the pieces between `/` that are
/// neither empty nor `.`, after a `/` marker for an absolute path.
pub open spec fn components(p: Seq<char>) -> Seq<Seq<char>> {
    (if p.len() > 0 && p[0] == '/' {
        seq!["/"@]
    } else {
        Seq::empty()
    }) + normal_pieces(split_on(p, '/'))
}

/// The pieces that are neither empty nor `.`.
pub open spec fn normal_pieces(ps: Seq<Seq<char>>) -> Seq<Seq<char>>
    decreases ps.len(),
{
    if ps.len() == 0 {
        Seq::empty()
    } else {
        let prev = normal_pieces(ps.drop_last());
        if ps.last().len() == 0 || ps.last() == "."@ {
            prev
        } else {
            prev.push(ps.last())
        }
    }
}

/// The components of `p`, as [`components`] gives them.
pub fn path_components(p: &str) -> (r: Vec<Vec<char>>)
    ensures
        r@.len() == components(p@).len(),
        forall|i: int| 0 <= i < r@.len() ==> #[trigger] r@[i]@ == components(p@)[i],
{
    proof {
        reveal_strlit("/");
        reveal_strlit(".");
    }
    let cs = chars_of(p);
    let pieces = split_chars(cs.as_slice(), '/');
    let ghost ps = split_on(p@, '/');
    let mut out: Vec<Vec<char>> = Vec::new();
    let ghost head: Seq<Seq<char>> = if p@.len() > 0 && p@[0] == '/' {
        seq!["/"@]
    } else {
        Seq::empty()
    };
    if cs.len() > 0 && cs[0] == '/' {
        out.push(chars_of("/"));
    }
    let mut i: usize = 0;
    while i < pieces.len()
        invariant
            i <= pieces@.len() == ps.len(),
            ps == split_on(p@, '/'),
            forall|m: int| 0 <= m < pieces@.len() ==> #[trigger] pieces@[m]@ == ps[m],
            out@.len() == (head + normal_pieces(ps.take(i as int))).len(),
            forall|m: int|
                0 <= m < out@.len() ==> #[trigger] out@[m]@ == (head + normal_pieces(
                    ps.take(i as int),
                ))[m],
            "."@ == seq!['.'],
        decreases pieces@.len() - i,
    {
        proof {
            assert(ps.take(i + 1).drop_last() =~= ps.take(i as int));
            assert(pieces@[i as int]@ == ps[i as int]);
        }
        let piece = &pieces[i];
        let is_dot = piece.len() == 1 && piece[0] == '.';
        proof {
            if is_dot {
                assert(piece@ =~= "."@);
            }
        }
        if piece.len() > 0 && !is_dot {
            let c = slice_range(piece.as_slice(), 0, piece.len());
            proof {
                assert(c@ =~= piece@);
            }
            out.push(c);
            proof {
                assert(head + normal_pieces(ps.take(i + 1)) =~= (head + normal_pieces(
                    ps.take(i as int),
                )).push(ps[i as int]));
            }
        } else {
            proof {
                assert(normal_pieces(ps.take(i + 1)) == normal_pieces(ps.take(i as int)));
            }
        }
        i = i + 1;
    }
    proof {
        assert(ps.take(ps.len() as int) =~= ps);
    }
    out
}

/// Whether the components of `p` begin with those of `base`.
pub open spec fn path_starts_with(p: Seq<char>, base: Seq<char>) -> bool {
    let a = components(p);
    let b = components(base);
    b.len() <= a.len() && a.take(b.len() as int) == b
}

/// Pieces joined with `sep`.
pub open spec fn join_with(ps: Seq<Seq<char>>, sep: char) -> Seq<char>
    decreases ps.len(),
{
    if ps.len() == 0 {
        Seq::empty()
    } else if ps.len() == 1 {
        ps[0]
    } else {
        join_with(ps.drop_last(), sep).push(sep) + ps.last()
    }
}

/// Pieces joined with the separator `sep`.
pub open spec fn join_sep(ps: Seq<Seq<char>>, sep: Seq<char>) -> Seq<char>
    decreases ps.len(),
{
    if ps.len() == 0 {
        Seq::empty()
    } else if ps.len() == 1 {
        ps[0]
    } else {
        join_sep(ps.drop_last(), sep) + sep + ps.last()
    }
}

/// The components left after each `..` removes the one before it.
pub open spec fn resolve_dots(cs: Seq<Seq<char>>) -> Seq<Seq<char>>
    decreases cs.len(),
{
    if cs.len() == 0 {
        Seq::empty()
    } else {
        let prev = resolve_dots(cs.drop_last());
        if cs.last() == ".."@ {
            if prev.len() > 0 {
                prev.drop_last()
            } else {
                prev
            }
        } else {
            prev.push(cs.last())
        }
    }
}

/// A path written from its components.
pub open spec fn render_path(cs: Seq<Seq<char>>) -> Seq<char> {
    if cs.len() > 0 && cs[0] == "/"@ {
        "/"@ + join_with(cs.drop_first(), '/')
    } else {
        join_with(cs, '/')
    }
}

/// `p` with its `.` and `..` components resolved, without filesystem access.
pub open spec fn normalized_path(p: Seq<char>) -> Seq<char> {
    render_path(resolve_dots(components(p)))
}

/// Writes `pieces` joined with `/` after `out`.
fn push_joined(out: &mut String, pieces: &Vec<Vec<char>>, from: usize)
    requires
        from <= pieces@.len(),
    ensures
        final(out)@ == old(out)@ + join_with(
            pieces@.subrange(from as int, pieces@.len() as int).map_values(|v: Vec<char>| v@),
            '/',
        ),
{
    let ghost ps = pieces@.subrange(from as int, pieces@.len() as int).map_values(
        |v: Vec<char>| v@,
    );
    let ghost o0 = out@;
    let mut k = from;
    while k < pieces.len()
        invariant
            from <= k <= pieces@.len(),
            ps == pieces@.subrange(from as int, pieces@.len() as int).map_values(|v: Vec<char>| v@),
            out@ == o0 + join_with(ps.take(k - from), '/'),
        decreases pieces@.len() - k,
    {
        let ghost before = out@;
        if k > from {
            crate::text::push_char(out, '/');
        }
        crate::text::push_chars(out, pieces[k].as_slice());
        proof {
            let t = ps.take(k + 1 - from);
            assert(t.drop_last() =~= ps.take(k - from));
            assert(t.last() == pieces@[k as int]@);
            if k == from {
                assert(join_with(t, '/') == t[0]);
                assert(out@ =~= o0 + join_with(t, '/'));
            } else {
                assert(out@ =~= o0 + join_with(t, '/'));
            }
        }
        k = k + 1;
    }
    proof {
        assert(ps.take(pieces@.len() - from) =~= ps);
    }
}

/// Resolves the `.` and `..` components of a path without filesystem access.
pub fn normalize_path(path: &str) -> (r: String)
    ensures
        r@ == normalized_path(path@),
{
    proof {
        reveal_strlit("/");
        reveal_strlit("..");
    }
    let cs = path_components(path);
    let ghost cv = components(path@);
    let mut kept: Vec<Vec<char>> = Vec::new();
    let mut i: usize = 0;
    while i < cs.len()
        invariant
            i <= cs@.len() == cv.len(),
            cv == components(path@),
            forall|m: int| 0 <= m < cs@.len() ==> #[trigger] cs@[m]@ == cv[m],
            kept@.map_values(|v: Vec<char>| v@) == resolve_dots(cv.take(i as int)),
            ".."@ == seq!['.', '.'],
        decreases cs@.len() - i,
    {
        proof {
            assert(cv.take(i + 1).drop_last() =~= cv.take(i as int));
            assert(cs@[i as int]@ == cv[i as int]);
        }
        let c = &cs[i];
        let is_up = c.len() == 2 && c[0] == '.' && c[1] == '.';
        proof {
            if is_up {
                assert(c@ =~= ".."@);
            }
            if c@ == ".."@ {
                assert(c@.len() == 2);
            }
        }
        let ghost kv = kept@.map_values(|v: Vec<char>| v@);
        if is_up {
            if kept.len() > 0 {
                kept.pop();
                proof {
                    assert(kept@.map_values(|v: Vec<char>| v@) =~= kv.drop_last());
                }
            }
        } else {
            let piece = slice_range(c.as_slice(), 0, c.len());
            proof {
                assert(piece@ =~= c@);
            }
            kept.push(piece);
            proof {
                assert(kept@.map_values(|v: Vec<char>| v@) =~= kv.push(cv[i as int]));
            }
        }
        i = i + 1;
    }
    proof {
        assert(cv.take(cv.len() as int) =~= cv);
    }
    let ghost kv = kept@.map_values(|v: Vec<char>| v@);
    let mut out = String::new();
    if kept.len() > 0 && kept[0].len() == 1 && kept[0][0] == '/' {
        crate::text::push_char(&mut out, '/');
        push_joined(&mut out, &kept, 1);
        proof {
            assert(kv[0] =~= "/"@);
            assert(kept@.subrange(1, kept@.len() as int).map_values(|v: Vec<char>| v@) =~= kv.drop_first());
            assert(out@ =~= "/"@ + join_with(kv.drop_first(), '/'));
        }
    } else {
        push_joined(&mut out, &kept, 0);
        proof {
            if kv.len() > 0 && kv[0] == "/"@ {
                assert(kept@[0]@ == kv[0]);
                assert(kept@[0]@.len() == 1);
            }
            assert(kept@.subrange(0, kept@.len() as int).map_values(|v: Vec<char>| v@) =~= kv);
            assert(out@ =~= join_with(kv, '/'));
        }
    }
    out
}

/// `dir` joined with `name` as `Path::join` does it: an absolute `name`
/// stands alone; otherwise a `/` goes between them unless `dir` is empty or
/// already ends with one.
pub open spec fn joined(dir: Seq<char>, name: Seq<char>) -> Seq<char> {
    if name.len() > 0 && name[0] == '/' {
        name
    } else if dir.len() == 0 || dir.last() == '/' {
        dir + name
    } else {
        dir + "/"@ + name
    }
}

/// `dir` joined with `name`.
pub fn join_path(dir: &str, name: &str) -> (r: String)
    ensures
        r@ == joined(dir@, name@),
{
    let nc = crate::text::chars_of(name);
    if nc.len() > 0 && nc[0] == '/' {
        return crate::text::owned(name);
    }
    let dc = crate::text::chars_of(dir);
    let mut r = crate::text::owned(dir);
    if !(dc.len() == 0 || dc[dc.len() - 1] == '/') {
        crate::text::push_str(&mut r, "/");
    }
    crate::text::push_str(&mut r, name);
    r
}

} // verus!
