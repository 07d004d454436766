//! Handler for thinking/reasoning content: formats thinking traces for
//! display and extracts short summaries from them.
use vstd::prelude::*;

use crate::text::{chars_of, join_first_words, join_words, push_chars, push_str, split_words, trim, trim_chars, words};

verus! {

/// The opening delimiter of a formatted thinking block.
pub open spec fn thinking_open() -> Seq<char> {
    "--- thinking ---\n"@
}

/// The closing delimiter of a formatted thinking block.
pub open spec fn thinking_close() -> Seq<char> {
    "\n--- end thinking ---"@
}

/// The display form of thinking content: empty for empty content, otherwise
/// the trimmed content between the two delimiters.
pub open spec fn formatted_thinking(content: Seq<char>) -> Seq<char> {
    if content.len() == 0 {
        Seq::empty()
    } else {
        thinking_open() + trim(content) + thinking_close()
    }
}

/// The summary of `content`: its first `max_words` words joined by single
/// spaces, followed by `...` when words were left out.
pub open spec fn thinking_summary(content: Seq<char>, max_words: nat) -> Seq<char> {
    let ws = words(content);
    if ws.len() <= max_words {
        join_words(ws)
    } else {
        join_words(ws.take(max_words as int)) + "..."@
    }
}

/// Outcome of post-processing a tool call.
#[derive(Debug, Clone)]
pub struct HandlerResult {
    pub output: Option<String>,
    pub error: Option<String>,
    pub success: bool,
}

/// Decision taken before a tool call runs.
#[derive(Debug, Clone, Copy, PartialEq, Eq, Structural)]
pub enum PreCheckResult {
    Allow,
}

/// Handler for the Think tool.
#[derive(Debug, Clone, Copy)]
pub struct ThinkingHandler;

impl Default for ThinkingHandler {
    fn default() -> (r: Self) {
        ThinkingHandler
    }
}

impl ThinkingHandler {
    /// Create a new thinking handler.
    pub fn new() -> (r: Self) {
        ThinkingHandler
    }

    /// Format thinking content for display.
    pub fn format_thinking(content: &str) -> (r: String)
        ensures
            r@ == formatted_thinking(content@),
    {
        if content.is_empty() {
            return String::new();
        }
        let mut result = String::new();
        push_str(&mut result, "--- thinking ---\n");
        let cs = chars_of(content);
        let t = trim_chars(cs.as_slice());
        push_chars(&mut result, t.as_slice());
        push_str(&mut result, "\n--- end thinking ---");
        assert(result@ =~= formatted_thinking(content@));
        result
    }

    /// Extract a summary line from thinking content.
    pub fn summarize(content: &str, max_words: usize) -> (r: String)
        ensures
            r@ == thinking_summary(content@, max_words as nat),
    {
        let cs = chars_of(content);
        let ws = split_words(cs.as_slice());
        let ghost all = words(content@);
        assert(ws@.map_values(|w: Vec<char>| w@) =~= all);
        if ws.len() <= max_words {
            let r = join_first_words(&ws, ws.len());
            assert(ws@.take(ws@.len() as int) =~= ws@);
            r
        } else {
            let mut r = join_first_words(&ws, max_words);
            assert(ws@.take(max_words as int).map_values(|w: Vec<char>| w@) =~= all.take(
                max_words as int,
            ));
            push_str(&mut r, "...");
            r
        }
    }

    /// The tool names this handler serves.
    pub fn handles(&self) -> (r: &'static [&'static str])
        ensures
            r@ == seq!["Think", "think"],
    {
        let r: &'static [&'static str] = &["Think", "think"];
        assert(r@ =~= seq!["Think", "think"]);
        r
    }

    /// Thinking calls are always allowed.
    pub fn pre_check(&self, tool_name: &str) -> (r: PreCheckResult)
        ensures
            r == PreCheckResult::Allow,
    {
        PreCheckResult::Allow
    }

    /// Wrap the tool output in the thinking delimiters; the error and the
    /// success flag pass through.
    pub fn post_process(&self, output: Option<&str>, error: Option<&str>, success: bool) -> (r:
        HandlerResult)
        ensures
            r.success == success,
            r.output is Some <==> output is Some,
            output is Some ==> r.output->0@ == formatted_thinking(output->0@),
            r.error is Some <==> error is Some,
            error is Some ==> r.error->0@ == error->0@,
    {
        let formatted = match output {
            Some(o) => Some(Self::format_thinking(o)),
            None => None,
        };
        let err = match error {
            Some(e) => Some(crate::text::owned(e)),
            None => None,
        };
        HandlerResult { output: formatted, error: err, success }
    }
}

} // verus!
