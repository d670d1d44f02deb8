use custom_tools::ansi::{looks_like_sudo_prompt, strip_ansi, LineSplitter};
use custom_tools::wrap::textwrap;

#[test]
fn strip_ansi_removes_csi_sequences() {
    assert_eq!(strip_ansi("\u{1b}[1;32mok\u{1b}[0m done"), "ok done");
}

#[test]
fn strip_ansi_removes_osc_sequences() {
    assert_eq!(strip_ansi("a\u{1b}]0;title\u{7}b"), "ab");
    assert_eq!(strip_ansi("a\u{1b}]0;title\u{1b}\\b"), "ab");
}

#[test]
fn strip_ansi_drops_control_chars_but_keeps_tabs() {
    assert_eq!(strip_ansi("a\tb\u{8}c\u{0}"), "a\tbc");
}

#[test]
fn strip_ansi_keeps_non_ascii_text() {
    assert_eq!(strip_ansi("→ installing fish — ok ✓"), "→ installing fish — ok ✓");
}

#[test]
fn strip_ansi_unterminated_csi_swallows_rest() {
    assert_eq!(strip_ansi("x\u{1b}[12"), "x");
}

#[test]
fn strip_ansi_escape_followed_by_other_char() {
    // The character right after a lone ESC is consumed with it.
    assert_eq!(strip_ansi("a\u{1b}Xb"), "ab");
}

#[test]
fn strip_ansi_tilde_ends_csi() {
    assert_eq!(strip_ansi("\u{1b}[3~del"), "del");
}

#[test]
fn strip_ansi_is_idempotent_on_examples() {
    for s in ["\u{1b}[31mred\u{1b}[0m", "plain", "a\u{1b}]x\u{7}b\u{1}c", ""] {
        let once = strip_ansi(s);
        assert_eq!(strip_ansi(&once), once);
    }
}

#[test]
fn textwrap_packs_words_greedily() {
    assert_eq!(
        textwrap("the quick brown fox jumps", 10),
        vec!["the quick".to_string(), "brown fox".to_string(), "jumps".to_string()]
    );
}

#[test]
fn textwrap_keeps_long_words_whole() {
    assert_eq!(
        textwrap("a supercalifragilistic b", 5),
        vec!["a".to_string(), "supercalifragilistic".to_string(), "b".to_string()]
    );
}

#[test]
fn textwrap_empty_and_blank_text() {
    assert!(textwrap("", 10).is_empty());
    assert!(textwrap("   \n\t ", 10).is_empty());
}

#[test]
fn textwrap_collapses_whitespace() {
    assert_eq!(textwrap("  a \n\n b\tc  ", 80), vec!["a b c".to_string()]);
}

#[test]
fn textwrap_counts_bytes_not_chars() {
    // "—" is three bytes: "a — b" is 7 bytes long, so it does not fit in 6.
    assert_eq!(textwrap("a — b", 6), vec!["a —".to_string(), "b".to_string()]);
    assert_eq!(textwrap("a — b", 7), vec!["a — b".to_string()]);
}

#[test]
fn textwrap_exact_fit() {
    assert_eq!(textwrap("ab cd", 5), vec!["ab cd".to_string()]);
    assert_eq!(textwrap("ab cd", 4), vec!["ab".to_string(), "cd".to_string()]);
}

#[test]
fn textwrap_lines_fit_the_width() {
    let text = "Installs the GitHub CLI and signs you in via the OAuth device flow";
    for line in textwrap(text, 20) {
        assert!(line.len() <= 20 || !line.contains(' '));
    }
}

#[test]
fn sudo_prompt_detection() {
    assert!(looks_like_sudo_prompt("[sudo] password for alice:"));
    assert!(looks_like_sudo_prompt("Password:"));
    assert!(looks_like_sudo_prompt("PASSWORD FOR root:   "));
    assert!(looks_like_sudo_prompt("[sudo] contraseña para alice:"));
    assert!(!looks_like_sudo_prompt("[sudo] password for alice"));
    assert!(!looks_like_sudo_prompt("Enter value:"));
    assert!(!looks_like_sudo_prompt(""));
}

#[test]
fn sudo_prompt_needs_colon_at_end() {
    assert!(!looks_like_sudo_prompt("password: yes"));
    assert!(looks_like_sudo_prompt("old password:\t"));
}

#[test]
fn line_splitter_splits_on_newlines() {
    let mut sp = LineSplitter::new();
    let (lines, partial) = sp.feed("one\ntwo\nthr");
    assert_eq!(lines, vec!["one".to_string(), "two".to_string()]);
    assert_eq!(partial, Some("thr".to_string()));
    let (lines, partial) = sp.feed("ee\n");
    assert_eq!(lines, vec!["three".to_string()]);
    assert_eq!(partial, None);
    assert_eq!(sp.finish(), None);
}

#[test]
fn line_splitter_carriage_returns() {
    let mut sp = LineSplitter::new();
    // '\r' ends a non-empty line only; '\n' always ends one, empty or not.
    let (lines, partial) = sp.feed("50%\r100%\r\ndone\r\n\r");
    assert_eq!(
        lines,
        vec![
            "50%".to_string(),
            "100%".to_string(),
            "".to_string(),
            "done".to_string(),
            "".to_string()
        ]
    );
    assert_eq!(partial, None);
}

#[test]
fn line_splitter_empty_lines_from_newlines() {
    let mut sp = LineSplitter::new();
    let (lines, _) = sp.feed("\n\n");
    assert_eq!(lines, vec!["".to_string(), "".to_string()]);
}

#[test]
fn line_splitter_strips_escapes_and_reports_prompt() {
    let mut sp = LineSplitter::new();
    let (lines, partial) = sp.feed("\u{1b}[1mhello\u{1b}[0m\n[sudo] password for bob: ");
    assert_eq!(lines, vec!["hello".to_string()]);
    assert_eq!(partial, Some("[sudo] password for bob: ".to_string()));
    assert_eq!(sp.finish(), Some("[sudo] password for bob: ".to_string()));
}

#[test]
fn line_splitter_chunking_does_not_matter() {
    let text = "a\u{1b}[1mb\nc\rd\r\ne\nf";
    let mut whole = LineSplitter::new();
    let (all_lines, _) = whole.feed(text);
    for cut in [1usize, 3, 6, 9] {
        let (a, b) = text.split_at(cut);
        let mut sp = LineSplitter::new();
        let (mut lines, _) = sp.feed(a);
        let (more, _) = sp.feed(b);
        lines.extend(more);
        assert_eq!(lines, all_lines);
        assert_eq!(sp.finish(), whole.finish());
    }
}

#[test]
fn strip_ansi_only_removes_characters() {
    let s = "a\u{1b}[31mb\u{7}c\u{1b}]t\u{7}d";
    let out = strip_ansi(s);
    let mut rest = s.chars();
    for c in out.chars() {
        assert!(rest.any(|x| x == c));
    }
    assert_eq!(out, "abcd");
}
