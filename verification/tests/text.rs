use yap::text::{
    command_start, normalize_transcript, normalize_words, trim_command_edges, try_normalize_transcript,
    CommandStart,
};

fn words(ws: &[&str]) -> Vec<Vec<char>> {
    ws.iter().map(|w| w.chars().collect()).collect()
}

fn strings(ws: Vec<Vec<char>>) -> Vec<String> {
    ws.into_iter().map(|w| w.into_iter().collect()).collect()
}

#[test]
fn normalizes_command_prefix_and_double_dash_flag() {
    assert_eq!(
        normalize_transcript("I want you to output the command cargo run dash dash release."),
        "cargo run --release"
    );
}

#[test]
fn normalizes_direct_command_dictation() {
    assert_eq!(
        normalize_transcript("cargo run dash dash release dash dash bin whispr"),
        "cargo run --release --bin whispr"
    );
}

#[test]
fn leaves_regular_dictation_alone() {
    assert_eq!(
        normalize_transcript("I want you to output the sentence dash dash release."),
        "I want you to output the sentence dash dash release."
    );
}

#[test]
fn blank_transcript_is_empty() {
    assert_eq!(normalize_transcript(""), "");
    assert_eq!(normalize_transcript("  \n\t "), "");
}

#[test]
fn regular_dictation_is_trimmed() {
    assert_eq!(normalize_transcript("  Hello there.  "), "Hello there.");
}

#[test]
fn command_prefix_at_start() {
    assert_eq!(normalize_transcript("Command git status."), "git status");
    assert_eq!(normalize_transcript("Command: git status."), "Command: git status.");
}

#[test]
fn command_marker_without_request_word_is_plain() {
    assert_eq!(
        normalize_transcript("I like the command line a lot"),
        "I like the command line a lot"
    );
}

#[test]
fn the_command_marker_with_type() {
    assert_eq!(
        normalize_transcript("Please type the command npm install dash g typescript"),
        "npm install -g typescript"
    );
}

#[test]
fn spoken_symbols_are_glued() {
    assert_eq!(
        normalize_transcript("cd slash users slash me"),
        "cd/users/me"
    );
    assert_eq!(
        normalize_transcript("python3 main dot py"),
        "python3 main.py"
    );
    assert_eq!(
        normalize_transcript("run the command cat notes underscore v2 dot txt"),
        "cat notes_v2.txt"
    );
}

#[test]
fn double_dash_word() {
    assert_eq!(
        normalize_transcript("cargo test double dash nocapture"),
        "cargo test --nocapture"
    );
}

#[test]
fn quotes_and_case_are_cleaned() {
    assert_eq!(
        normalize_transcript("Git commit dash m \"Fix\""),
        "git commit -m fix"
    );
}

#[test]
fn normalize_words_rewrites_dashes() {
    assert_eq!(
        strings(normalize_words(&words(&["ls", "dash", "dash", "dash", "all"]))),
        vec!["ls", "--all"]
    );
    assert_eq!(strings(normalize_words(&words(&["ls", "minus"]))), vec!["ls", "-"]);
    assert_eq!(
        strings(normalize_words(&words(&["git", "double", "hyphen"]))),
        vec!["git", "--"]
    );
    assert_eq!(
        strings(normalize_words(&words(&["dash", "dash"]))),
        vec!["--"]
    );
    assert_eq!(
        strings(normalize_words(&words(&["colon", "eight", "dot"]))),
        vec![":eight", "dot"]
    );
}

#[test]
fn command_start_finds_markers() {
    let text = "please run the command ls";
    let lower = text.to_lowercase();
    assert_eq!(command_start(text.as_bytes(), lower.as_bytes()), CommandStart::At(23));
    let plain = "hello";
    assert_eq!(command_start(plain.as_bytes(), plain.as_bytes()), CommandStart::Plain);
    let prefixed = "command ls";
    assert_eq!(command_start(prefixed.as_bytes(), prefixed.as_bytes()), CommandStart::At(8));
    assert_eq!(command_start(b"ab", b"command xyz"), CommandStart::OutOfRange);
}

#[test]
fn try_normalize_agrees_on_plain_input() {
    assert_eq!(
        try_normalize_transcript("cargo build dash dash release"),
        Some("cargo build --release".to_string())
    );
    assert_eq!(try_normalize_transcript(""), Some(String::new()));
}

#[test]
fn try_normalize_refuses_a_cut_inside_a_character() {
    // 'İ' lowercases to two characters (three bytes instead of two), so the
    // marker found in the lowered text points inside a character of the text.
    let raw = "İrun the command éa";
    let t = raw.trim();
    let lower = t.to_lowercase();
    match command_start(t.as_bytes(), lower.as_bytes()) {
        CommandStart::At(n) => assert!(!t.is_char_boundary(n)),
        other => panic!("unexpected {:?}", other),
    }
    assert_eq!(try_normalize_transcript(raw), None);
}

#[test]
fn ascii_transcripts_always_normalize() {
    for raw in ["command ", "Write Command", "COMMAND LS", "run the command", "  type command  x  "] {
        assert!(try_normalize_transcript(raw).is_some(), "{raw:?}");
    }
}

#[test]
fn command_edges_are_trimmed_once() {
    assert_eq!(normalize_transcript("run the command : --ls -la.! "), "ls -la");
    assert_eq!(normalize_transcript("run the command ls -la"), "ls -la");
}

#[test]
fn trim_command_edges_law_on_examples() {
    for (raw, want) in [
        (" : --ls -la.! ", "ls -la"),
        ("ls", "ls"),
        (" ,:- .!?, ", ""),
        ("-x-", "x-"),
        ("git push.", "git push"),
    ] {
        let cs: Vec<char> = raw.chars().collect();
        let out = trim_command_edges(&cs);
        assert_eq!(out.iter().collect::<String>(), want, "{raw:?}");
        assert_eq!(trim_command_edges(&out), out);
        assert!(raw.contains(want));
    }
}

#[test]
fn white_space_matches_std() {
    for u in 0u32..0x3100 {
        let Some(c) = char::from_u32(u) else { continue };
        if c.is_whitespace() {
            assert_eq!(normalize_transcript(&format!("{c}hi{c}")), "hi", "U+{u:04X}");
        } else if !c.is_alphanumeric() && c != '"' && c != '\'' && c != '`' {
            let raw = format!("{c}hi");
            let out = normalize_transcript(&raw);
            assert!(out.starts_with(c), "U+{u:04X}");
        }
    }
}
