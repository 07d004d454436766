use kendra::tokens::{count_tokens, ContextTokenMonitor};

#[test]
fn tokens_test_count_tokens_empty() {
    assert_eq!(count_tokens(""), 0);
}

#[test]
fn test_count_tokens_single_word() {
    let tokens = count_tokens("hello");
    assert!(tokens >= 1);
}

#[test]
fn test_count_tokens_sentence() {
    let tokens = count_tokens("The quick brown fox jumps over the lazy dog.");
    assert!(tokens >= 5 && tokens <= 15, "got {tokens}");
}

#[test]
fn test_count_tokens_code() {
    let code = r#"fn main() { println!("hello"); }"#;
    let tokens = count_tokens(code);
    assert!(tokens >= 3, "code should produce tokens, got {tokens}");
}

#[test]
fn test_count_tokens_better_than_chars_div_4() {
    let text = "This is a simple sentence with several common English words in it.";
    let heuristic = count_tokens(text);
    let naive = text.len() / 4;
    assert!(
        heuristic > 0 && naive > 0,
        "both should be positive: heuristic={heuristic}, naive={naive}"
    );
}

#[test]
fn count_tokens_exact_values() {
    // one word, no punctuation: base 1 -> (1*3+2)/4 = 1
    assert_eq!(count_tokens("hello"), 1);
    // 9 words; "dog." has one punctuation char -> 1 + 1 = 2; total 10 -> 32/4 = 8
    assert_eq!(count_tokens("The quick brown fox jumps over the lazy dog."), 8);
    // 16-byte word counts 4 tokens -> (4*3+2)/4 = 3
    assert_eq!(count_tokens("abcdefghijklmnop"), 3);
    // whitespace only
    assert_eq!(count_tokens("   \n\t "), 0);
}

#[test]
fn token_monitor_test_count_tokens_empty() {
    let monitor = ContextTokenMonitor::new();
    assert_eq!(monitor.count_tokens(""), 0);
}

#[test]
fn test_count_tokens_short() {
    let monitor = ContextTokenMonitor::new();
    assert_eq!(monitor.count_tokens("hello world"), 2);
}

#[test]
fn test_count_tokens_longer() {
    let monitor = ContextTokenMonitor::new();
    let text = "a".repeat(100);
    assert_eq!(monitor.count_tokens(&text), 25);
}

#[test]
fn test_default_trait() {
    let monitor = ContextTokenMonitor::default();
    assert_eq!(monitor.count_tokens("test"), 1);
}

#[test]
fn token_monitor_counts_bytes() {
    let monitor = ContextTokenMonitor::new();
    // "é" is two bytes: 8 of them are 16 bytes -> 4
    assert_eq!(monitor.count_tokens("éééééééé"), 4);
}
