//! Where prompt templates are found: a templates directory holding
//! `<name>.md` (preferred) or `<name>.txt` files, and the template names of
//! tool descriptions. Checking for and reading the files is the caller's
//! part.
use vstd::prelude::*;

use crate::paths::{join_path, joined};
use crate::text::{owned, push_str};

verus! {

/// Resolves prompt template files under a templates directory.
#[derive(Debug, Clone)]
pub struct PromptLoader {
    templates_dir: String,
}

/// Why a prompt could not be loaded.
#[derive(Debug, Clone)]
pub enum PromptLoadError {
    /// No template file, embedded template or fallback: the file looked for.
    NotFound(String),
    /// The template file could not be read: the file and the reason.
    Io(String, String),
}

/// The path of prompt `name`: `<dir>/<name>.md` where that file exists,
/// `<dir>/<name>.txt` otherwise.
pub open spec fn prompt_path(dir: Seq<char>, name: Seq<char>, md_exists: bool) -> Seq<char> {
    if md_exists {
        joined(dir, name + ".md"@)
    } else {
        joined(dir, name + ".txt"@)
    }
}

/// The template name of a tool's description: `tools/tool-<name>` with `_`
/// made `-`.
pub open spec fn tool_prompt_name(tool: Seq<char>) -> Seq<char> {
    "tools/tool-"@ + crate::text::replace_all(tool, "_"@, "-"@)
}

impl PromptLoader {
    /// The templates directory.
    pub closed spec fn dir_view(&self) -> Seq<char> {
        self.templates_dir@
    }

    /// A loader rooted at `templates_dir`.
    pub fn new(templates_dir: &str) -> (r: Self)
        ensures
            r.dir_view() == templates_dir@,
    {
        PromptLoader { templates_dir: owned(templates_dir) }
    }

    /// The templates directory.
    pub fn templates_dir(&self) -> (r: &str)
        ensures
            r@ == self.dir_view(),
    {
        self.templates_dir.as_str()
    }

    /// The `.md` file that prompt `name` would have.
    pub fn md_path(&self, prompt_name: &str) -> (r: String)
        ensures
            r@ == joined(self.dir_view(), prompt_name@ + ".md"@),
    {
        let mut f = owned(prompt_name);
        push_str(&mut f, ".md");
        join_path(self.templates_dir.as_str(), f.as_str())
    }

    /// The file of prompt `name`, the `.md` one preferred where it exists
    /// (`md_exists` says whether it does).
    pub fn get_prompt_path(&self, prompt_name: &str, md_exists: bool) -> (r: String)
        ensures
            r@ == prompt_path(self.dir_view(), prompt_name@, md_exists),
    {
        if md_exists {
            return self.md_path(prompt_name);
        }
        let mut f = owned(prompt_name);
        push_str(&mut f, ".txt");
        join_path(self.templates_dir.as_str(), f.as_str())
    }

    /// The template name under which a tool's description is found.
    pub fn tool_description_name(tool_name: &str) -> (r: String)
        ensures
            r@ == tool_prompt_name(tool_name@),
    {
        let cs = crate::text::chars_of(tool_name);
        let u = crate::text::chars_of("_");
        let d = crate::text::chars_of("-");
        proof {
            reveal_strlit("_");
        }
        let k = crate::text::replace_chars(cs.as_slice(), u.as_slice(), d.as_slice());
        let mut r = owned("tools/tool-");
        push_str(&mut r, crate::text::string_of(k.as_slice()).as_str());
        r
    }
}

/// Where a prompt's text comes from.
#[derive(Debug)]
pub enum PromptSource {
    /// The template file at `path`; a Markdown one has its frontmatter
    /// stripped, another is trimmed.
    File { path: String, markdown: bool },
    /// The built-in template under `key`, its frontmatter stripped.
    Embedded { key: String },
    /// The caller's fallback text, as it is.
    Fallback(String),
    /// Nowhere: the file that was looked for.
    NotFound(String),
}

/// The view of a [`PromptSource`].
pub enum PromptSourceView {
    File { path: Seq<char>, markdown: bool },
    Embedded { key: Seq<char> },
    Fallback(Seq<char>),
    NotFound(Seq<char>),
}

impl View for PromptSource {
    type V = PromptSourceView;

    open spec fn view(&self) -> PromptSourceView {
        match self {
            PromptSource::File { path, markdown } => PromptSourceView::File { path: path@, markdown: *markdown },
            PromptSource::Embedded { key } => PromptSourceView::Embedded { key: key@ },
            PromptSource::Fallback(t) => PromptSourceView::Fallback(t@),
            PromptSource::NotFound(p) => PromptSourceView::NotFound(p@),
        }
    }
}

/// Where prompt `name` under `dir` is loaded from: the built-in
/// `<name>.md` where the store has it, then the template file where it
/// exists (the `.md` one preferred), then the fallback; else it is not
/// found.
pub open spec fn prompt_source(
    dir: Seq<char>,
    name: Seq<char>,
    md_exists: bool,
    txt_exists: bool,
    embedded: bool,
    fallback: Option<Seq<char>>,
) -> PromptSourceView {
    if embedded {
        PromptSourceView::Embedded { key: name + ".md"@ }
    } else if md_exists || txt_exists {
        PromptSourceView::File { path: prompt_path(dir, name, md_exists), markdown: md_exists }
    } else {
        match fallback {
            Some(f) => PromptSourceView::Fallback(f),
            None => PromptSourceView::NotFound(prompt_path(dir, name, false)),
        }
    }
}

impl PromptLoader {
    /// Decides where prompt `name` is loaded from. `md_exists` and
    /// `txt_exists` say whether its template files exist, `embedded`
    /// whether the built-in store holds `<name>.md`.
    pub fn resolve_prompt(
        &self,
        prompt_name: &str,
        md_exists: bool,
        txt_exists: bool,
        embedded: bool,
        fallback: Option<&str>,
    ) -> (r: PromptSource)
        ensures
            r@ == prompt_source(
                self.dir_view(),
                prompt_name@,
                md_exists,
                txt_exists,
                embedded,
                match fallback {
                    Some(f) => Some(f@),
                    None => None,
                },
            ),
    {
        if embedded {
            let mut key = owned(prompt_name);
            push_str(&mut key, ".md");
            return PromptSource::Embedded { key };
        }
        if md_exists || txt_exists {
            return PromptSource::File { path: self.get_prompt_path(prompt_name, md_exists), markdown: md_exists };
        }
        match fallback {
            Some(f) => PromptSource::Fallback(owned(f)),
            None => PromptSource::NotFound(self.get_prompt_path(prompt_name, false)),
        }
    }
}

impl PromptLoader {
    /// Where prompt `name` is loaded from, with no fallback.
    pub fn load_prompt(&self, prompt_name: &str, md_exists: bool, txt_exists: bool, embedded: bool) -> (r:
        PromptSource)
        ensures
            r@ == prompt_source(self.dir_view(), prompt_name@, md_exists, txt_exists, embedded, None),
    {
        self.resolve_prompt(prompt_name, md_exists, txt_exists, embedded, None)
    }

    /// Where a tool's description is loaded from: its template
    /// `tools/tool-<name>` (with `_` made `-`), with no fallback. The flags
    /// say what exists for that template name.
    pub fn load_tool_description(&self, tool_name: &str, md_exists: bool, txt_exists: bool, embedded: bool) -> (r:
        PromptSource)
        ensures
            r@ == prompt_source(self.dir_view(), tool_prompt_name(tool_name@), md_exists, txt_exists, embedded, None),
    {
        let name = Self::tool_description_name(tool_name);
        self.resolve_prompt(name.as_str(), md_exists, txt_exists, embedded, None)
    }
}

/// Where a prompt comes from, in priority order: a built-in template where
/// the store has one; else the `.md` file where it exists, else the `.txt`
/// file where it exists; the caller's fallback only when none of these
/// exists; and otherwise not found, naming the `.txt` file.
pub proof fn law_prompt_source_order(
    dir: Seq<char>,
    name: Seq<char>,
    md_exists: bool,
    txt_exists: bool,
    embedded: bool,
    fallback: Option<Seq<char>>,
)
    ensures
        ({
            let r = prompt_source(dir, name, md_exists, txt_exists, embedded, fallback);
            &&& embedded ==> r == PromptSourceView::Embedded { key: name + ".md"@ }
            &&& (!embedded && md_exists) ==> r == PromptSourceView::File {
                path: joined(dir, name + ".md"@),
                markdown: true,
            }
            &&& (!embedded && !md_exists && txt_exists) ==> r == PromptSourceView::File {
                path: joined(dir, name + ".txt"@),
                markdown: false,
            }
            &&& (!embedded && !md_exists && !txt_exists && fallback is Some) ==> r == PromptSourceView::Fallback(
                fallback->0,
            )
            &&& (!embedded && !md_exists && !txt_exists && fallback is None) ==> r == PromptSourceView::NotFound(
                joined(dir, name + ".txt"@),
            )
            &&& r is Fallback ==> !embedded && !md_exists && !txt_exists
            &&& (r is File) == (!embedded && (md_exists || txt_exists))
        }),
{
}

} // verus!
