//! Tool result sanitization: truncates large outputs before they enter the
//! LLM context.
use vstd::prelude::*;

use crate::text::{
    byte_len, chars_has_prefix, chars_of, lemma_byte_len_subrange, owned, push_chars, push_decimal,
    push_str, slice_range, str_byte_len, str_eq, string_of, decimal, has_prefix,
};

verus! {

/// Truncation strategy for a tool's output.
#[derive(Debug, Clone, Copy, PartialEq, Eq, Structural)]
pub enum TruncationStrategy {
    /// Keep the beginning of the text.
    Head,
    /// Keep the end of the text (most recent output).
    Tail,
    /// Keep beginning and end, cut the middle. The head receives
    /// `head_ratio_permille` thousandths of the character budget.
    HeadTail { head_ratio_permille: u32 },
}

/// Per-tool truncation configuration.
#[derive(Debug, Clone, Copy, PartialEq, Eq, Structural)]
pub struct TruncationRule {
    pub max_chars: usize,
    pub strategy: TruncationStrategy,
}

impl TruncationRule {
    pub fn head(max_chars: usize) -> (r: Self)
        ensures
            r == (TruncationRule { max_chars, strategy: TruncationStrategy::Head }),
    {
        TruncationRule { max_chars, strategy: TruncationStrategy::Head }
    }

    pub fn tail(max_chars: usize) -> (r: Self)
        ensures
            r == (TruncationRule { max_chars, strategy: TruncationStrategy::Tail }),
    {
        TruncationRule { max_chars, strategy: TruncationStrategy::Tail }
    }

    pub fn head_tail(max_chars: usize, head_ratio_permille: u32) -> (r: Self)
        ensures
            r == (TruncationRule {
                max_chars,
                strategy: TruncationStrategy::HeadTail { head_ratio_permille },
            }),
    {
        TruncationRule { max_chars, strategy: TruncationStrategy::HeadTail { head_ratio_permille } }
    }
}

/// Whether every head-tail ratio of a rule list is at most one.
pub open spec fn rule_ok(r: TruncationRule) -> bool {
    match r.strategy {
        TruncationStrategy::HeadTail { head_ratio_permille } => head_ratio_permille <= 1000,
        _ => true,
    }
}

/// Maximum characters for error messages.
pub open spec fn error_max_chars() -> nat {
    2000
}

/// Budget of the default rule for MCP tools.
pub open spec fn mcp_max_chars() -> nat {
    8000
}

/// The built-in rules, by tool name.
pub open spec fn default_rule_list() -> Seq<(Seq<char>, TruncationRule)> {
    seq![
        ("run_command"@, TruncationRule { max_chars: 8000, strategy: TruncationStrategy::Tail }),
        ("read_file"@, TruncationRule { max_chars: 15000, strategy: TruncationStrategy::Head }),
        ("search"@, TruncationRule { max_chars: 10000, strategy: TruncationStrategy::Head }),
        ("list_files"@, TruncationRule { max_chars: 10000, strategy: TruncationStrategy::Head }),
        ("fetch_url"@, TruncationRule { max_chars: 12000, strategy: TruncationStrategy::Head }),
        ("web_search"@, TruncationRule { max_chars: 10000, strategy: TruncationStrategy::Head }),
        ("git"@, TruncationRule {
            max_chars: 12000,
            strategy: TruncationStrategy::HeadTail { head_ratio_permille: 700 },
        }),
        ("browser"@, TruncationRule { max_chars: 5000, strategy: TruncationStrategy::Head }),
        ("get_session_history"@, TruncationRule {
            max_chars: 15000,
            strategy: TruncationStrategy::Tail,
        }),
        ("memory_search"@, TruncationRule { max_chars: 10000, strategy: TruncationStrategy::Head }),
    ]
}

/// The position of the first rule named `name`, if any.
pub open spec fn rule_index(rules: Seq<(Seq<char>, TruncationRule)>, name: Seq<char>) -> Option<
    int,
> {
    if exists|i: int|
        0 <= i < rules.len() && rules[i].0 == name && forall|j: int| 0 <= j < i ==> rules[j].0 != name {
        Some(
            choose|i: int|
                0 <= i < rules.len() && rules[i].0 == name && forall|j: int|
                    0 <= j < i ==> rules[j].0 != name,
        )
    } else {
        None
    }
}

/// The rule for `name`, if any.
pub open spec fn lookup_rule(rules: Seq<(Seq<char>, TruncationRule)>, name: Seq<char>) -> Option<
    TruncationRule,
> {
    match rule_index(rules, name) {
        Some(i) => Some(rules[i].1),
        None => None,
    }
}

/// The rules after a custom limit for `name`: an existing rule keeps its
/// strategy and takes the new budget; a new tool gets a head rule.
pub open spec fn with_limit(rules: Seq<(Seq<char>, TruncationRule)>, name: Seq<char>, max: usize) -> Seq<
    (Seq<char>, TruncationRule),
> {
    match rule_index(rules, name) {
        Some(i) => rules.update(
            i,
            (name, TruncationRule { max_chars: max, strategy: rules[i].1.strategy }),
        ),
        None => rules.push((name, TruncationRule { max_chars: max, strategy: TruncationStrategy::Head })),
    }
}

/// The rules after all custom limits, applied in order.
pub open spec fn with_limits(rules: Seq<(Seq<char>, TruncationRule)>, limits: Seq<(Seq<char>, usize)>) -> Seq<
    (Seq<char>, TruncationRule),
>
    decreases limits.len(),
{
    if limits.len() == 0 {
        rules
    } else {
        with_limit(with_limits(rules, limits.drop_last()), limits.last().0, limits.last().1)
    }
}

/// The first `n` characters of `s` (all of `s` if it is shorter).
pub open spec fn head_chars(s: Seq<char>, n: nat) -> Seq<char> {
    if s.len() <= n {
        s
    } else {
        s.subrange(0, n as int)
    }
}

/// The last `n` characters of `s` (all of `s` if it is shorter).
pub open spec fn tail_chars(s: Seq<char>, n: nat) -> Seq<char> {
    if s.len() <= n {
        s
    } else {
        s.subrange(s.len() - n, s.len() as int)
    }
}

/// The separator between head and tail.
pub open spec fn middle_marker() -> Seq<char> {
    "\n\n... [middle truncated] ...\n\n"@
}

/// The number of characters the head receives.
pub open spec fn head_size(max_chars: nat, permille: nat) -> nat {
    max_chars * permille / 1000
}

/// `text` truncated by `rule`.
pub open spec fn apply_rule(text: Seq<char>, rule: TruncationRule) -> Seq<char> {
    match rule.strategy {
        TruncationStrategy::Head => head_chars(text, rule.max_chars as nat),
        TruncationStrategy::Tail => tail_chars(text, rule.max_chars as nat),
        TruncationStrategy::HeadTail { head_ratio_permille } => {
            let h = head_size(rule.max_chars as nat, head_ratio_permille as nat);
            head_chars(text, h) + middle_marker() + tail_chars(
                text,
                (rule.max_chars - h) as nat,
            )
        },
    }
}

/// The name of a strategy as the truncation marker shows it.
pub open spec fn strategy_name(s: TruncationStrategy) -> Seq<char> {
    match s {
        TruncationStrategy::Head => "head"@,
        TruncationStrategy::Tail => "tail"@,
        TruncationStrategy::HeadTail { .. } => "head_tail"@,
    }
}

/// The marker appended to truncated output.
pub open spec fn truncation_marker(shown: nat, total: nat, strategy: Seq<char>) -> Seq<char> {
    "\n\n[truncated: showing "@ + decimal(shown) + " of "@ + decimal(total) + " chars, strategy="@
        + strategy + "]"@
}

/// Truncated output followed by its marker.
pub open spec fn truncated_output(text: Seq<char>, rule: TruncationRule) -> Seq<char> {
    let t = apply_rule(text, rule);
    t + truncation_marker(byte_len(t), byte_len(text), strategy_name(rule.strategy))
}

/// An optional string by its view.
pub open spec fn opt_view(o: Option<&str>) -> Option<Seq<char>> {
    match o {
        Some(s) => Some(s@),
        None => None,
    }
}

/// Result of sanitization.
#[derive(Debug, Clone)]
pub struct SanitizedResult {
    pub output: Option<String>,
    pub error: Option<String>,
    pub was_truncated: bool,
}

/// `SanitizedResult` by its views.
pub struct SanitizedView {
    pub output: Option<Seq<char>>,
    pub error: Option<Seq<char>>,
    pub was_truncated: bool,
}

impl View for SanitizedResult {
    type V = SanitizedView;

    open spec fn view(&self) -> SanitizedView {
        SanitizedView {
            output: match self.output {
                Some(s) => Some(s@),
                None => None,
            },
            error: match self.error {
                Some(s) => Some(s@),
                None => None,
            },
            was_truncated: self.was_truncated,
        }
    }
}

/// What `sanitize` returns for a tool result.
pub open spec fn sanitized(
    rules: Seq<(Seq<char>, TruncationRule)>,
    tool: Seq<char>,
    success: bool,
    output: Option<Seq<char>>,
    error: Option<Seq<char>>,
) -> SanitizedView {
    if !success {
        SanitizedView {
            output,
            error: match error {
                Some(e) => Some(
                    if byte_len(e) > error_max_chars() {
                        head_chars(e, error_max_chars())
                    } else {
                        e
                    },
                ),
                None => None,
            },
            was_truncated: false,
        }
    } else if output is None || output->0.len() == 0 {
        SanitizedView { output, error, was_truncated: false }
    } else {
        let o = output->0;
        match lookup_rule(rules, tool) {
            None => SanitizedView { output: Some(o), error: None, was_truncated: false },
            Some(rule) => if byte_len(o) <= rule.max_chars {
                SanitizedView { output: Some(o), error: None, was_truncated: false }
            } else {
                SanitizedView {
                    output: Some(truncated_output(o, rule)),
                    error: None,
                    was_truncated: true,
                }
            },
        }
    }
}

/// What `sanitize_with_mcp_fallback` returns for a tool result.
pub open spec fn sanitized_with_mcp(
    rules: Seq<(Seq<char>, TruncationRule)>,
    tool: Seq<char>,
    success: bool,
    output: Option<Seq<char>>,
    error: Option<Seq<char>>,
) -> SanitizedView {
    if success && has_prefix(tool, "mcp__"@) && lookup_rule(rules, tool) is None && output is Some
        && byte_len(output->0) > mcp_max_chars() {
        SanitizedView {
            output: Some(
                truncated_output(
                    output->0,
                    TruncationRule { max_chars: 8000, strategy: TruncationStrategy::Head },
                ),
            ),
            error: None,
            was_truncated: true,
        }
    } else {
        sanitized(rules, tool, success, output, error)
    }
}

/// The first `n` characters of `s`.
fn take_head(s: &[char], n: usize) -> (r: Vec<char>)
    ensures
        r@ == head_chars(s@, n as nat),
{
    if s.len() <= n {
        slice_range(s, 0, s.len())
    } else {
        slice_range(s, 0, n)
    }
}

/// The last `n` characters of `s`.
fn take_tail(s: &[char], n: usize) -> (r: Vec<char>)
    ensures
        r@ == tail_chars(s@, n as nat),
{
    if s.len() <= n {
        slice_range(s, 0, s.len())
    } else {
        slice_range(s, s.len() - n, s.len())
    }
}

/// The first `max_chars` characters of `text`.
pub fn truncate_head(text: &str, max_chars: usize) -> (r: String)
    ensures
        r@ == head_chars(text@, max_chars as nat),
{
    let cs = chars_of(text);
    string_of(take_head(cs.as_slice(), max_chars).as_slice())
}

/// The last `max_chars` characters of `text`.
pub fn truncate_tail(text: &str, max_chars: usize) -> (r: String)
    ensures
        r@ == tail_chars(text@, max_chars as nat),
{
    let cs = chars_of(text);
    string_of(take_tail(cs.as_slice(), max_chars).as_slice())
}

/// The beginning and end of `text`, around a marker for the cut middle.
pub fn truncate_head_tail(text: &str, max_chars: usize, head_ratio_permille: u32) -> (r: String)
    requires
        head_ratio_permille <= 1000,
    ensures
        r@ == apply_rule(
            text@,
            TruncationRule {
                max_chars,
                strategy: TruncationStrategy::HeadTail { head_ratio_permille },
            },
        ),
{
    let cs = chars_of(text);
    proof {
        assert((max_chars as u128 as nat) * (head_ratio_permille as u128 as nat) <= 0xffff_ffff_ffff_ffff * 1000)
            by (nonlinear_arith)
            requires
                head_ratio_permille <= 1000,
                max_chars <= 0xffff_ffff_ffff_ffff,
        ;
    }
    let h = ((max_chars as u128) * (head_ratio_permille as u128) / 1000) as usize;
    proof {
        assert((max_chars as nat) * (head_ratio_permille as nat) <= (max_chars as nat) * 1000)
            by (nonlinear_arith)
            requires
                head_ratio_permille <= 1000,
        ;
        assert(h == head_size(max_chars as nat, head_ratio_permille as nat));
    }
    let mut r = string_of(take_head(cs.as_slice(), h).as_slice());
    push_str(&mut r, "\n\n... [middle truncated] ...\n\n");
    let t = take_tail(cs.as_slice(), max_chars - h);
    push_chars(&mut r, t.as_slice());
    r
}

fn apply_strategy(text: &str, rule: &TruncationRule) -> (r: String)
    requires
        rule_ok(*rule),
    ensures
        r@ == apply_rule(text@, *rule),
{
    match rule.strategy {
        TruncationStrategy::Head => truncate_head(text, rule.max_chars),
        TruncationStrategy::Tail => truncate_tail(text, rule.max_chars),
        TruncationStrategy::HeadTail { head_ratio_permille } => truncate_head_tail(
            text,
            rule.max_chars,
            head_ratio_permille,
        ),
    }
}

fn strategy_label(s: TruncationStrategy) -> (r: &'static str)
    ensures
        r@ == strategy_name(s),
{
    match s {
        TruncationStrategy::Head => "head",
        TruncationStrategy::Tail => "tail",
        TruncationStrategy::HeadTail { .. } => "head_tail",
    }
}

/// `text` truncated by `rule`, followed by the truncation marker.
fn truncate_with_marker(text: &str, rule: &TruncationRule) -> (r: String)
    requires
        rule_ok(*rule),
    ensures
        r@ == truncated_output(text@, *rule),
{
    let original_len = str_byte_len(text);
    let mut out = apply_strategy(text, rule);
    let shown = str_byte_len(out.as_str());
    push_str(&mut out, "\n\n[truncated: showing ");
    push_decimal(&mut out, shown as u64);
    push_str(&mut out, " of ");
    push_decimal(&mut out, original_len as u64);
    push_str(&mut out, " chars, strategy=");
    push_str(&mut out, strategy_label(rule.strategy));
    push_str(&mut out, "]");
    assert(out@ =~= truncated_output(text@, *rule));
    out
}

fn opt_owned(o: Option<&str>) -> (r: Option<String>)
    ensures
        r is Some <==> o is Some,
        o is Some ==> r->0@ == o->0@,
{
    match o {
        Some(s) => Some(owned(s)),
        None => None,
    }
}

/// Sanitizes tool results by applying truncation rules.
#[derive(Debug, Clone)]
pub struct ToolResultSanitizer {
    rules: Vec<(String, TruncationRule)>,
}

impl View for ToolResultSanitizer {
    type V = Seq<(Seq<char>, TruncationRule)>;

    closed spec fn view(&self) -> Seq<(Seq<char>, TruncationRule)> {
        self.rules@.map_values(|p: (String, TruncationRule)| (p.0@, p.1))
    }
}

impl ToolResultSanitizer {
    /// Every rule's head share is at most the whole budget.
    pub open spec fn well_formed(&self) -> bool {
        forall|i: int| 0 <= i < self@.len() ==> rule_ok(#[trigger] self@[i].1)
    }

    fn default_rules() -> (r: Vec<(String, TruncationRule)>)
        ensures
            r@.map_values(|p: (String, TruncationRule)| (p.0@, p.1)) == default_rule_list(),
    {
        let r = vec![
            (owned("run_command"), TruncationRule::tail(8000)),
            (owned("read_file"), TruncationRule::head(15000)),
            (owned("search"), TruncationRule::head(10000)),
            (owned("list_files"), TruncationRule::head(10000)),
            (owned("fetch_url"), TruncationRule::head(12000)),
            (owned("web_search"), TruncationRule::head(10000)),
            (owned("git"), TruncationRule::head_tail(12000, 700)),
            (owned("browser"), TruncationRule::head(5000)),
            (owned("get_session_history"), TruncationRule::tail(15000)),
            (owned("memory_search"), TruncationRule::head(10000)),
        ];
        assert(r@.map_values(|p: (String, TruncationRule)| (p.0@, p.1)) =~= default_rule_list());
        r
    }

    /// Create with default rules.
    pub fn new() -> (r: Self)
        ensures
            r@ == default_rule_list(),
            r.well_formed(),
    {
        ToolResultSanitizer { rules: Self::default_rules() }
    }

    /// The position of the rule for `tool_name`, if any.
    fn find_rule(&self, tool_name: &[char]) -> (r: Option<usize>)
        ensures
            r is Some <==> rule_index(self@, tool_name@) is Some,
            r is Some ==> r->0 == rule_index(self@, tool_name@)->0,
            r is Some ==> r->0 < self.rules@.len(),
            self@.len() == self.rules@.len(),
    {
        let mut k: usize = 0;
        while k < self.rules.len()
            invariant
                k <= self.rules@.len(),
                self@.len() == self.rules@.len(),
                forall|j: int| 0 <= j < k ==> self@[j].0 != tool_name@,
            decreases self.rules@.len() - k,
        {
            let name = chars_of(self.rules[k].0.as_str());
            assert(self@[k as int].0 == self.rules@[k as int].0@);
            if crate::text::chars_eq(name.as_slice(), tool_name) {
                assert(forall|j: int| 0 <= j < k ==> self@[j].0 != tool_name@);
                let ghost i = rule_index(self@, tool_name@)->0;
                proof {
                    if i < k {
                        assert(self@[i].0 != tool_name@);
                    }
                    if i > k {
                        assert(self@[k as int].0 == tool_name@);
                    }
                }
                return Some(k);
            }
            k = k + 1;
        }
        None
    }

    /// Create with custom per-tool character limit overrides, applied in
    /// order. Custom limits override the default budget but keep the default
    /// strategy; tools without a default rule get a head rule.
    pub fn with_custom_limits(custom_limits: Vec<(String, usize)>) -> (r: Self)
        ensures
            r@ == with_limits(
                default_rule_list(),
                custom_limits@.map_values(|p: (String, usize)| (p.0@, p.1)),
            ),
            r.well_formed(),
    {
        let mut s = Self::new();
        let ghost lim = custom_limits@.map_values(|p: (String, usize)| (p.0@, p.1));
        let mut k: usize = 0;
        while k < custom_limits.len()
            invariant
                k <= custom_limits@.len() == lim.len(),
                lim == custom_limits@.map_values(|p: (String, usize)| (p.0@, p.1)),
                s@ == with_limits(default_rule_list(), lim.take(k as int)),
                s.well_formed(),
            decreases custom_limits@.len() - k,
        {
            assert(lim.take(k + 1).drop_last() =~= lim.take(k as int));
            let name = chars_of(custom_limits[k].0.as_str());
            let max = custom_limits[k].1;
            match s.find_rule(name.as_slice()) {
                Some(i) => {
                    assert(s@[i as int].1 == s.rules@[i as int].1);
                    let strategy = s.rules[i].1.strategy;
                    let ghost before = s@;
                    s.rules.set(i, (string_of(name.as_slice()), TruncationRule { max_chars: max, strategy }));
                    assert(s@ =~= before.update(
                        i as int,
                        (name@, TruncationRule { max_chars: max, strategy: before[i as int].1.strategy }),
                    ));
                },
                None => {
                    let ghost before = s@;
                    s.rules.push((string_of(name.as_slice()), TruncationRule::head(max)));
                    assert(s@ =~= before.push(
                        (name@, TruncationRule { max_chars: max, strategy: TruncationStrategy::Head }),
                    ));
                },
            }
            k = k + 1;
        }
        assert(lim.take(custom_limits@.len() as int) =~= lim);
        s
    }

    /// The rule for `tool_name`, if any.
    pub fn get_rule(&self, tool_name: &str) -> (r: Option<TruncationRule>)
        ensures
            r == lookup_rule(self@, tool_name@),
    {
        let name = chars_of(tool_name);
        match self.find_rule(name.as_slice()) {
            Some(i) => {
                assert(self@[i as int].1 == self.rules@[i as int].1);
                Some(self.rules[i].1)
            },
            None => None,
        }
    }

    /// Sanitize a tool result, truncating output if needed.
    ///
    /// Failed results keep their output and have their error cut to the
    /// first 2000 characters when it is longer than 2000 bytes. Successful
    /// non-empty output is truncated by the tool's rule when it is longer
    /// than the rule's budget, and the error is then dropped.
    pub fn sanitize(&self, tool_name: &str, success: bool, output: Option<&str>, error: Option<
        &str,
    >) -> (r: SanitizedResult)
        requires
            self.well_formed(),
        ensures
            r@ == sanitized(self@, tool_name@, success, opt_view(output), opt_view(error)),
    {
        if !success {
            let truncated_error = match error {
                Some(e) => {
                    if str_byte_len(e) > 2000 {
                        Some(truncate_head(e, 2000))
                    } else {
                        Some(owned(e))
                    }
                },
                None => None,
            };
            return SanitizedResult {
                output: opt_owned(output),
                error: truncated_error,
                was_truncated: false,
            };
        }
        let output_str = match output {
            Some(s) => {
                if s.is_empty() {
                    return SanitizedResult {
                        output: opt_owned(output),
                        error: opt_owned(error),
                        was_truncated: false,
                    };
                }
                s
            },
            None => {
                return SanitizedResult {
                    output: None,
                    error: opt_owned(error),
                    was_truncated: false,
                };
            },
        };
        let rule = match self.get_rule(tool_name) {
            Some(r) => r,
            None => {
                return SanitizedResult {
                    output: Some(owned(output_str)),
                    error: None,
                    was_truncated: false,
                };
            },
        };
        proof {
            let i = rule_index(self@, tool_name@)->0;
            assert(rule_ok(self@[i].1));
        }
        if str_byte_len(output_str) <= rule.max_chars {
            return SanitizedResult {
                output: Some(owned(output_str)),
                error: None,
                was_truncated: false,
            };
        }
        SanitizedResult {
            output: Some(truncate_with_marker(output_str, &rule)),
            error: None,
            was_truncated: true,
        }
    }

    /// Sanitize with the default head rule (8000 characters) for MCP tools
    /// (`mcp__` prefix) that have no rule of their own.
    pub fn sanitize_with_mcp_fallback(
        &self,
        tool_name: &str,
        success: bool,
        output: Option<&str>,
        error: Option<&str>,
    ) -> (r: SanitizedResult)
        requires
            self.well_formed(),
        ensures
            r@ == sanitized_with_mcp(self@, tool_name@, success, opt_view(output), opt_view(error)),
    {
        let name = chars_of(tool_name);
        let prefix = chars_of("mcp__");
        if success && chars_has_prefix(name.as_slice(), prefix.as_slice()) && self.get_rule(
            tool_name,
        ).is_none() {
            if let Some(output_str) = output {
                if str_byte_len(output_str) > 8000 {
                    let rule = TruncationRule::head(8000);
                    return SanitizedResult {
                        output: Some(truncate_with_marker(output_str, &rule)),
                        error: None,
                        was_truncated: true,
                    };
                }
            }
        }
        self.sanitize(tool_name, success, output, error)
    }
}

} // verus!
