//! The text that the `marketplace` and `plugin` commands print: table rows,
//! shortened descriptions, scope and status labels. Talking to the plugin
//! manager and printing are the caller's part.
use vstd::prelude::*;

use crate::text::{byte_len, owned, push_char, push_str, str_eq};

verus! {

/// `s` padded with spaces to `w` characters (what `{:<w}` prints).
pub open spec fn pad_right(s: Seq<char>, w: nat) -> Seq<char> {
    if s.len() >= w {
        s
    } else {
        s + Seq::new((w - s.len()) as nat, |i: int| ' ')
    }
}

/// Appends `s` padded with spaces to `w` characters.
pub fn push_padded(out: &mut String, s: &str, w: usize)
    ensures
        final(out)@ == old(out)@ + pad_right(s@, w as nat),
{
    push_str(out, s);
    let n = crate::text::chars_of(s).len();
    let mut k = n;
    let ghost o1 = out@;
    while k < w
        invariant
            n == s@.len(),
            n <= k <= w || (k == n && n >= w),
            out@ == o1 + Seq::new((k - n) as nat, |i: int| ' '),
        decreases w - k,
    {
        push_char(out, ' ');
        k = k + 1;
        assert(out@ =~= o1 + Seq::new((k - n) as nat, |i: int| ' '));
    }
    if n >= w {
        assert(out@ =~= old(out)@ + s@);
    } else {
        assert(out@ =~= old(out)@ + pad_right(s@, w as nat));
    }
}

/// A row of `w` dashes.
pub fn dashes(w: usize) -> (r: String)
    ensures
        r@ == Seq::new(w as nat, |i: int| '-'),
{
    let mut r = String::new();
    let mut k: usize = 0;
    while k < w
        invariant
            k <= w,
            r@ == Seq::new(k as nat, |i: int| '-'),
        decreases w - k,
    {
        push_char(&mut r, '-');
        k = k + 1;
        assert(r@ =~= Seq::new(k as nat, |i: int| '-'));
    }
    r
}

/// A description shortened for a table column: where longer than `limit`
/// bytes, its first `keep` bytes and `...`; `None` where that cut would
/// fall inside a character.
pub fn shorten_description(desc: &str, limit: usize, keep: usize) -> (r: Option<String>)
    ensures
        byte_len(desc@) <= limit ==> (r matches Some(s) && s@ == desc@),
        byte_len(desc@) > limit ==> (r is None <==> !crate::text::is_boundary(desc@, keep as nat)),
        byte_len(desc@) > limit ==> (r matches Some(s) ==> s@ == desc@.take(
            crate::text::chars_for_bytes(desc@, keep as nat, 0),
        ) + "..."@),
{
    if crate::text::str_byte_len(desc) <= limit {
        return Some(owned(desc));
    }
    match crate::text::byte_prefix(desc, keep) {
        Some(p) => {
            let mut s = p;
            push_str(&mut s, "...");
            Some(s)
        },
        None => None,
    }
}

/// A row of the marketplace list: name, URL and branch.
pub open spec fn marketplace_row_text(name: Seq<char>, url: Seq<char>, branch: Seq<char>) -> Seq<char> {
    pad_right(name, 20) + " "@ + pad_right(url, 60) + " "@ + pad_right(branch, 10)
}

/// A row of the marketplace list: name, URL and branch.
pub fn marketplace_row(name: &str, url: &str, branch: &str) -> (r: String)
    ensures
        r@ == marketplace_row_text(name@, url@, branch@),
{
    let mut r = String::new();
    push_padded(&mut r, name, 20);
    push_str(&mut r, " ");
    push_padded(&mut r, url, 60);
    push_str(&mut r, " ");
    push_padded(&mut r, branch, 10);
    assert(r@ =~= marketplace_row_text(name@, url@, branch@));
    r
}

/// A row of the search results: marketplace, name, version, description.
pub open spec fn search_row_text(mkt: Seq<char>, name: Seq<char>, version: Seq<char>, desc: Seq<char>) -> Seq<char> {
    pad_right(mkt, 20) + " "@ + pad_right(name, 25) + " "@ + pad_right(version, 10) + " "@ + pad_right(desc, 40)
}

/// A row of the search results: marketplace, name, version, description.
pub fn search_row(mkt: &str, name: &str, version: &str, desc: &str) -> (r: String)
    ensures
        r@ == search_row_text(mkt@, name@, version@, desc@),
{
    let mut r = String::new();
    push_padded(&mut r, mkt, 20);
    push_str(&mut r, " ");
    push_padded(&mut r, name, 25);
    push_str(&mut r, " ");
    push_padded(&mut r, version, 10);
    push_str(&mut r, " ");
    push_padded(&mut r, desc, 40);
    assert(r@ =~= search_row_text(mkt@, name@, version@, desc@));
    r
}

/// A row of a marketplace's plugins: name, version, description.
pub open spec fn plugin_row_text(name: Seq<char>, version: Seq<char>, desc: Seq<char>) -> Seq<char> {
    pad_right(name, 25) + " "@ + pad_right(version, 10) + " "@ + pad_right(desc, 50)
}

/// A row of a marketplace's plugins: name, version, description.
pub fn plugin_row(name: &str, version: &str, desc: &str) -> (r: String)
    ensures
        r@ == plugin_row_text(name@, version@, desc@),
{
    let mut r = String::new();
    push_padded(&mut r, name, 25);
    push_str(&mut r, " ");
    push_padded(&mut r, version, 10);
    push_str(&mut r, " ");
    push_padded(&mut r, desc, 50);
    assert(r@ =~= plugin_row_text(name@, version@, desc@));
    r
}

/// Where a plugin is installed.
#[derive(Debug, Clone, Copy, PartialEq, Eq, Structural)]
pub enum PluginScopeChoice {
    /// The user's global plugins.
    User,
    /// The project's plugins.
    Project,
}

/// The state of an installed plugin.
#[derive(Debug, Clone, Copy, PartialEq, Eq, Structural)]
pub enum PluginStatusKind {
    Installed,
    Disabled,
    Error,
}

/// The scope that the `--global` flag selects.
pub fn scope_of_flag(global: bool) -> (r: (PluginScopeChoice, &'static str))
    ensures
        r.0 == (if global {
            PluginScopeChoice::User
        } else {
            PluginScopeChoice::Project
        }),
        r.1@ == (if global {
            "global"@
        } else {
            "project"@
        }),
{
    if global {
        (PluginScopeChoice::User, "global")
    } else {
        (PluginScopeChoice::Project, "project")
    }
}

/// The scope filter that `--scope` names: `global`/`user`, `project`/`local`,
/// or none; any other name is an error.
pub open spec fn scope_filter(scope: Option<Seq<char>>) -> Result<Option<PluginScopeChoice>, Seq<char>> {
    match scope {
        None => Ok(None),
        Some(s) => if s == "global"@ || s == "user"@ {
            Ok(Some(PluginScopeChoice::User))
        } else if s == "project"@ || s == "local"@ {
            Ok(Some(PluginScopeChoice::Project))
        } else {
            Err("Error: unknown scope '"@ + s + "' (expected 'global' or 'project')"@)
        },
    }
}

/// Parses the `--scope` filter of `plugin list`.
pub fn parse_scope_filter(scope: Option<&str>) -> (r: Result<Option<PluginScopeChoice>, String>)
    ensures
        match (r, scope_filter(match scope {
            Some(s) => Some(s@),
            None => None,
        })) {
            (Ok(a), Ok(b)) => a == b,
            (Err(e), Err(f)) => e@ == f,
            _ => false,
        },
{
    match scope {
        None => Ok(None),
        Some(s) => {
            if str_eq(s, "global") || str_eq(s, "user") {
                Ok(Some(PluginScopeChoice::User))
            } else if str_eq(s, "project") || str_eq(s, "local") {
                Ok(Some(PluginScopeChoice::Project))
            } else {
                let mut e = owned("Error: unknown scope '");
                push_str(&mut e, s);
                push_str(&mut e, "' (expected 'global' or 'project')");
                Err(e)
            }
        },
    }
}

/// A row of the installed plugins: name, version, scope, status and
/// marketplace (`local` where none).
pub open spec fn installed_row_text(
    name: Seq<char>,
    version: Seq<char>,
    scope: PluginScopeChoice,
    status: PluginStatusKind,
    marketplace: Option<Seq<char>>,
) -> Seq<char> {
    pad_right(name, 25) + " "@ + pad_right(version, 10) + " "@ + pad_right(
        match scope {
            PluginScopeChoice::User => "global"@,
            PluginScopeChoice::Project => "project"@,
        },
        10,
    ) + " "@ + pad_right(
        match status {
            PluginStatusKind::Installed => "enabled"@,
            PluginStatusKind::Disabled => "disabled"@,
            PluginStatusKind::Error => "error"@,
        },
        10,
    ) + " "@ + pad_right(
        match marketplace {
            Some(m) => m,
            None => "local"@,
        },
        15,
    )
}

/// A row of the installed plugins.
pub fn installed_row(
    name: &str,
    version: &str,
    scope: PluginScopeChoice,
    status: PluginStatusKind,
    marketplace: Option<&str>,
) -> (r: String)
    ensures
        r@ == installed_row_text(name@, version@, scope, status, match marketplace {
            Some(m) => Some(m@),
            None => None,
        }),
{
    let scope_str = match scope {
        PluginScopeChoice::User => "global",
        PluginScopeChoice::Project => "project",
    };
    let status_str = match status {
        PluginStatusKind::Installed => "enabled",
        PluginStatusKind::Disabled => "disabled",
        PluginStatusKind::Error => "error",
    };
    let mkt = match marketplace {
        Some(m) => m,
        None => "local",
    };
    let mut r = String::new();
    push_padded(&mut r, name, 25);
    push_str(&mut r, " ");
    push_padded(&mut r, version, 10);
    push_str(&mut r, " ");
    push_padded(&mut r, scope_str, 10);
    push_str(&mut r, " ");
    push_padded(&mut r, status_str, 10);
    push_str(&mut r, " ");
    push_padded(&mut r, mkt, 15);
    assert(r@ =~= installed_row_text(name@, version@, scope, status, match marketplace {
        Some(m) => Some(m@),
        None => None,
    }));
    r
}

} // verus!
