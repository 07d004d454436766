//! Token counting heuristics for context management.
use vstd::prelude::*;

use crate::text::{char_utf8_len, byte_len, chars_of, lemma_byte_len_bounds, scan_step, scan_words, split_words, utf8_len, words};
use vstd::string::StringSliceAdditionalSpecFns;

verus! {

/// ASCII punctuation, as `char::is_ascii_punctuation` tests it.
pub open spec fn is_ascii_punct(c: char) -> bool {
    let u = c as u32;
    ||| 0x21 <= u <= 0x2F
    ||| 0x3A <= u <= 0x40
    ||| 0x5B <= u <= 0x60
    ||| 0x7B <= u <= 0x7E
}

/// Number of ASCII punctuation characters in `s`.
pub open spec fn punct_count(s: Seq<char>) -> nat
    decreases s.len(),
{
    if s.len() == 0 {
        0
    } else {
        punct_count(s.drop_last()) + if is_ascii_punct(s.last()) {
            1nat
        } else {
            0nat
        }
    }
}

/// Estimated tokens of one word: long words (over 12 bytes) count one token
/// per started 4 bytes; other words count one token plus one per started pair
/// of punctuation characters.
pub open spec fn word_tokens(w: Seq<char>) -> nat {
    let len = byte_len(w);
    if len > 12 {
        (len + 3) / 4
    } else {
        1 + (punct_count(w) + 1) / 2
    }
}

/// Sum of `word_tokens` over `ws`.
pub open spec fn sum_word_tokens(ws: Seq<Seq<char>>) -> nat
    decreases ws.len(),
{
    if ws.len() == 0 {
        0
    } else {
        sum_word_tokens(ws.drop_last()) + word_tokens(ws.last())
    }
}

/// The token estimate of `text`: the word estimates summed, times 3/4,
/// rounded up.
pub open spec fn token_estimate(text: Seq<char>) -> nat {
    if text.len() == 0 {
        0
    } else {
        (sum_word_tokens(words(text)) * 3 + 2) / 4
    }
}

/// Total length of the sequences in `ws`.
pub open spec fn total_len(ws: Seq<Seq<char>>) -> nat
    decreases ws.len(),
{
    if ws.len() == 0 {
        0
    } else {
        total_len(ws.drop_last()) + ws.last().len()
    }
}

proof fn lemma_punct_bound(s: Seq<char>)
    ensures
        punct_count(s) <= s.len(),
    decreases s.len(),
{
    if s.len() > 0 {
        lemma_punct_bound(s.drop_last());
    }
}

proof fn lemma_scan_bound(s: Seq<char>)
    ensures
        total_len(scan_words(s).0) + scan_words(s).1.len() <= s.len(),
        forall|k: int|
            0 <= k < scan_words(s).0.len() ==> #[trigger] scan_words(s).0[k].len() > 0,
    decreases s.len(),
{
    if s.len() > 0 {
        let st = scan_words(s.drop_last());
        lemma_scan_bound(s.drop_last());
        let n = scan_step(st, s.last());
        if crate::text::is_ws(s.last()) && st.1.len() > 0 {
            assert(n.0.drop_last() =~= st.0);
        }
    }
}

proof fn lemma_sum_bound(ws: Seq<Seq<char>>)
    requires
        forall|k: int| 0 <= k < ws.len() ==> #[trigger] ws[k].len() > 0,
    ensures
        sum_word_tokens(ws) <= 5 * total_len(ws),
    decreases ws.len(),
{
    if ws.len() > 0 {
        let w = ws.last();
        assert(w.len() > 0);
        lemma_sum_bound(ws.drop_last());
        lemma_byte_len_bounds(w);
        lemma_punct_bound(w);
    }
}

proof fn lemma_words_bound(s: Seq<char>)
    ensures
        sum_word_tokens(words(s)) <= 5 * s.len(),
{
    lemma_scan_bound(s);
    let st = scan_words(s);
    let ws = words(s);
    if st.1.len() > 0 {
        assert(ws.drop_last() =~= st.0);
    }
    assert forall|k: int| 0 <= k < ws.len() implies #[trigger] ws[k].len() > 0 by {
        if k < st.0.len() {
            assert(ws[k] == st.0[k]);
        }
    }
    lemma_sum_bound(ws);
}

fn char_is_ascii_punct(c: char) -> (b: bool)
    ensures
        b == is_ascii_punct(c),
{
    let u = c as u32;
    (0x21 <= u && u <= 0x2F) || (0x3A <= u && u <= 0x40) || (0x5B <= u && u <= 0x60) || (0x7B
        <= u && u <= 0x7E)
}

/// The estimate of one word.
fn estimate_word(w: &Vec<char>) -> (n: usize)
    requires
        w@.len() <= usize::MAX / 8,
    ensures
        n == word_tokens(w@),
{
    let mut len: usize = 0;
    let mut punct: usize = 0;
    let mut i: usize = 0;
    while i < w.len()
        invariant
            i <= w@.len() <= usize::MAX / 8,
            len == byte_len(w@.take(i as int)),
            punct == punct_count(w@.take(i as int)),
            len <= 4 * i,
            punct <= i,
        decreases w@.len() - i,
    {
        assert(w@.take(i + 1).drop_last() =~= w@.take(i as int));
        len = len + char_utf8_len(w[i]);
        if char_is_ascii_punct(w[i]) {
            punct = punct + 1;
        }
        i = i + 1;
    }
    assert(w@.take(w@.len() as int) =~= w@);
    if len > 12 {
        (len + 3) / 4
    } else {
        1 + (punct + 1) / 2
    }
}

/// Count tokens in text using a cl100k_base-style heuristic.
///
/// Splits on whitespace, estimates each word (long words by length, short
/// ones by their punctuation), then applies a 0.75 tokens-per-word ratio
/// rounded up.
pub fn count_tokens(text: &str) -> (r: usize)
    requires
        text@.len() <= usize::MAX / 16,
    ensures
        r == token_estimate(text@),
{
    if text.is_empty() {
        return 0;
    }
    let cs = chars_of(text);
    let ws = split_words(cs.as_slice());
    let ghost all = words(cs@);
    proof {
        lemma_words_bound(cs@);
        lemma_scan_bound(cs@);
    }
    let mut sum: usize = 0;
    let mut k: usize = 0;
    while k < ws.len()
        invariant
            k <= ws@.len() == all.len(),
            all == words(text@),
            forall|m: int| 0 <= m < ws@.len() ==> #[trigger] ws@[m]@ == all[m],
            sum == sum_word_tokens(all.take(k as int)),
            sum_word_tokens(all) <= 5 * text@.len(),
            text@.len() <= usize::MAX / 16,
        decreases ws@.len() - k,
    {
        assert(all.take(k + 1).drop_last() =~= all.take(k as int));
        proof {
            lemma_prefix_sum_le(all, k as int + 1);
            lemma_word_len_le(text@, k as int);
        }
        let e = estimate_word(&ws[k]);
        sum = sum + e;
        k = k + 1;
    }
    assert(all.take(ws@.len() as int) =~= all);
    (sum * 3 + 2) / 4
}

proof fn lemma_prefix_sum_le(ws: Seq<Seq<char>>, k: int)
    requires
        0 <= k <= ws.len(),
    ensures
        sum_word_tokens(ws.take(k)) <= sum_word_tokens(ws),
    decreases ws.len(),
{
    if k < ws.len() {
        assert(ws.drop_last().take(k) =~= ws.take(k));
        lemma_prefix_sum_le(ws.drop_last(), k);
    } else {
        assert(ws.take(k) =~= ws);
    }
}

proof fn lemma_word_len_le(s: Seq<char>, k: int)
    requires
        0 <= k < words(s).len(),
    ensures
        words(s)[k].len() <= s.len(),
{
    lemma_scan_bound(s);
    let st = scan_words(s);
    let ws = words(s);
    if k < st.0.len() {
        lemma_total_len_elem(st.0, k);
    }
}

proof fn lemma_total_len_elem(ws: Seq<Seq<char>>, k: int)
    requires
        0 <= k < ws.len(),
    ensures
        ws[k].len() <= total_len(ws),
    decreases ws.len(),
{
    if k < ws.len() - 1 {
        lemma_total_len_elem(ws.drop_last(), k);
    }
}

/// Stateless token counter using a character-based heuristic.
#[derive(Debug, Clone, Copy)]
pub struct ContextTokenMonitor;

impl Default for ContextTokenMonitor {
    fn default() -> (r: Self) {
        ContextTokenMonitor
    }
}

impl ContextTokenMonitor {
    /// Create a new token monitor.
    pub fn new() -> (r: Self) {
        ContextTokenMonitor
    }

    /// Estimate the number of tokens in the given text: its length in UTF-8
    /// bytes divided by 4, rounded down.
    pub fn count_tokens(&self, text: &str) -> (r: usize)
        ensures
            r == (text.spec_bytes().len() as usize) / 4,
    {
        text.len() / 4
    }
}

} // verus!
