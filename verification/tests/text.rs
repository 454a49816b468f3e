use windowscodexmonitor::text::{
    decimal_text, joined, same_text, split_lines, starts_with, truncate,
};

#[test]
fn writes_numbers_in_decimal() {
    for number in [0, 7, 9, 10, 42, 99, 100, 1_785_258_188, u64::MAX] {
        assert_eq!(decimal_text(number), number.to_string());
    }
}

#[test]
fn compares_texts() {
    assert!(same_text("jsonl", "jsonl"));
    assert!(!same_text("jsonl", "json"));
    assert!(!same_text("a", "b"));
    assert!(same_text("", ""));
}

#[test]
fn joins_texts() {
    assert_eq!(joined("Codex: ", "é"), "Codex: é");
}

#[test]
fn finds_prefixes() {
    assert!(starts_with("OpenAI.Codex_1.0", "OpenAI.Codex_"));
    assert!(starts_with("abc", ""));
    assert!(!starts_with("OpenAI.Cod", "OpenAI.Codex_"));
    assert!(!starts_with("xOpenAI.Codex_", "OpenAI.Codex_"));
}

#[test]
fn leaves_short_texts_alone() {
    assert_eq!(truncate("short", 28), "short");
    assert_eq!(truncate("exactly", 7), "exactly");
    assert_eq!(truncate("", 0), "");
}

#[test]
fn shortens_long_texts_to_the_limit() {
    assert_eq!(
        truncate("Could not start Codex: file not found", 28),
        "Could not start Codex: fi..."
    );
    assert_eq!(truncate("ääääääää", 5), "ää...");
    assert_eq!(truncate("abcd", 3), "...");
    assert_eq!(truncate("abcd", 2), "...");
    assert_eq!(truncate("abcd", 0), "...");
    assert_eq!(truncate("abcdefgh", 6).chars().count(), 6);
}

#[test]
fn splits_lines_like_the_standard_library() {
    for text in [
        "",
        "\n",
        "\r\n",
        "one",
        "one\n",
        "one\r\n",
        "one\r",
        "one\ntwo",
        "one\r\ntwo\r\n",
        "\n\none\n\n",
        "a\rb\r\r\nc",
        "über\nÄrger\r\n",
    ] {
        let expected: Vec<String> = text.lines().map(str::to_owned).collect();
        assert_eq!(split_lines(text), expected, "of {text:?}");
    }
}

#[test]
fn appended_lines_follow_the_lines_before() {
    let log = "one\r\n\ntwo\n";
    let mut lines = split_lines(log);
    lines.extend(split_lines("three\nfour"));
    assert_eq!(split_lines("one\r\n\ntwo\nthree\nfour"), lines);
    assert_eq!(split_lines("three\n"), vec!["three"]);
}
