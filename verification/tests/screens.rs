use custom_tools::state::ToolStatus;
use custom_tools::view::{first_line, install_label, keys_go_to_tool, masked, preview_hint, select_row, shown_lines, spinner_frame, status_icon, status_word, Tone};
use custom_tools::wrap::textwrap;

#[test]
fn select_rows_prefer_session_status() {
    let r = select_row(true, true, Some(ToolStatus::Running));
    assert_eq!(r.mark, "[~] ");
    assert_eq!(r.mark_tone, Tone::Yellow);
    assert_eq!(r.name_tone, Tone::Dark);
    assert!(!r.installed_dot);
    let r = select_row(true, true, None);
    assert_eq!(r.mark, "[✓] ");
    assert!(r.mark_bold);
    assert_eq!(r.name_tone, Tone::Green);
    assert!(r.installed_dot);
    let r = select_row(false, false, Some(ToolStatus::NotSelected));
    assert_eq!(r.mark, "[ ] ");
    assert_eq!(r.name_tone, Tone::Gray);
    assert!(!r.installed_dot);
    assert_eq!(select_row(false, false, Some(ToolStatus::Failed)).mark, "[✗] ");
    assert_eq!(select_row(false, false, Some(ToolStatus::Pending)).mark, "[…] ");
}

#[test]
fn spinner_cycles() {
    assert_eq!(spinner_frame(0), '⠋');
    assert_eq!(spinner_frame(9), '⠏');
    assert_eq!(spinner_frame(10), '⠋');
    assert_eq!(spinner_frame(u64::MAX), '⠴');
}

#[test]
fn status_words_and_icons() {
    assert_eq!(status_word(ToolStatus::Done), ("done", Tone::Green));
    assert_eq!(status_word(ToolStatus::NotSelected), ("", Tone::Gray));
    assert_eq!(status_icon(ToolStatus::Running, '⠙'), ("  ⠙  ".to_string(), Tone::Yellow, true));
    assert_eq!(status_icon(ToolStatus::Pending, '⠙'), ("  ○  ".to_string(), Tone::Dark, false));
}

#[test]
fn masking_counts_bytes() {
    assert_eq!(masked(""), "");
    assert_eq!(masked("abc"), "•••");
    assert_eq!(masked("ñ"), "••");
}

fn lines(v: &[&str]) -> Vec<String> {
    v.iter().map(|s| s.to_string()).collect()
}

#[test]
fn log_panel_lines() {
    let log = lines(&["a", "b", "c", "d"]);
    assert_eq!(
        shown_lines(&log, "", 2, 0),
        vec![("c".to_string(), false), ("d".to_string(), false)]
    );
    assert_eq!(
        shown_lines(&log, "p", 2, 0),
        vec![("d".to_string(), false), ("p".to_string(), true)]
    );
    assert_eq!(
        shown_lines(&log, "p", 2, 1),
        vec![("c".to_string(), false), ("d".to_string(), false)]
    );
    // Scrolling stops at the first line.
    assert_eq!(
        shown_lines(&log, "", 3, 100),
        vec![("a".to_string(), false), ("b".to_string(), false), ("c".to_string(), false)]
    );
    assert!(shown_lines(&Vec::new(), "", 5, 0).is_empty());
}

#[test]
fn wrapping_keeps_every_word() {
    let text = "Watches your Rust project and re-runs `cargo check`/`run`/`test` on file changes.";
    for width in [1usize, 10, 36, 200] {
        let joined = textwrap(text, width).join(" ");
        let a: Vec<&str> = joined.split_whitespace().collect();
        let b: Vec<&str> = text.split_whitespace().collect();
        assert_eq!(a, b);
    }
}

#[test]
fn first_lines_and_labels() {
    assert_eq!(first_line("ERROR: bad\r\nDETAIL: x"), "ERROR: bad");
    assert_eq!(first_line("one\ntwo"), "one");
    assert_eq!(first_line("only"), "only");
    assert_eq!(first_line(""), "");
    assert_eq!(first_line("\nx"), "");
    assert_eq!(install_label(0), " install ");
    assert_eq!(install_label(3), " install (3) ");
    assert_eq!(install_label(12), " install (12) ");
}

#[test]
fn preview_hints_follow_status() {
    assert_eq!(preview_hint(ToolStatus::Running), " — type here, F2 to expand ");
    assert_eq!(preview_hint(ToolStatus::Done), " — enter or F2 to expand ");
    assert!(keys_go_to_tool(ToolStatus::Pending));
    assert!(!keys_go_to_tool(ToolStatus::Failed));
}
