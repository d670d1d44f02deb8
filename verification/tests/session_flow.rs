use custom_tools::keys::{key_bytes, Key, MouseKind};
use custom_tools::layout::{point_in, popup_rect, row_in_list, scroll_window, Rect};
use custom_tools::scheduler::Scheduler;
use custom_tools::session::{is_all_done, status_counts, visible_indices};
use custom_tools::state::{App, Effect, InstallLayout, Msg, Phase, ToolStatus, MAX_LOG_LINES};
use custom_tools::tool::{Tool, TOOL_COUNT};

fn press(app: &mut App, k: Key) -> Effect {
    app.handle_key(k, false)
}

fn type_text(app: &mut App, s: &str) {
    for c in s.chars() {
        let _ = press(app, Key::Char(c));
    }
}

#[test]
fn new_app_starts_selecting_nothing() {
    let app = App::new();
    assert!(matches!(app.phase, Phase::Selecting));
    assert_eq!(app.checked, vec![false; TOOL_COUNT]);
    assert_eq!(app.cursor, 0);
    assert!(app.install.is_none());
    assert!(app.chosen().is_empty());
    assert_eq!(app.checked_count(), 0);
}

#[test]
fn q_quits_while_selecting() {
    let mut app = App::new();
    assert!(matches!(press(&mut app, Key::Char('q')), Effect::Quit));
}

#[test]
fn esc_quits_without_session() {
    let mut app = App::new();
    assert!(matches!(press(&mut app, Key::Esc), Effect::Quit));
}

#[test]
fn moving_and_toggling() {
    let mut app = App::new();
    let _ = press(&mut app, Key::Up);
    assert_eq!(app.cursor, 0);
    let _ = press(&mut app, Key::Down);
    let _ = press(&mut app, Key::Char('j'));
    assert_eq!(app.cursor, 2);
    assert_eq!(app.list_selected, Some(2));
    let _ = press(&mut app, Key::Char(' '));
    assert_eq!(app.chosen(), vec![Tool::Starship]);
    let _ = press(&mut app, Key::Char('k'));
    let _ = press(&mut app, Key::Char(' '));
    assert_eq!(app.chosen(), vec![Tool::Rust, Tool::Starship]);
    assert_eq!(app.checked_count(), 2);
    for _ in 0..40 {
        let _ = press(&mut app, Key::Down);
    }
    assert_eq!(app.cursor, TOOL_COUNT - 1);
}

#[test]
fn select_all_then_none() {
    let mut app = App::new();
    let _ = press(&mut app, Key::Char(' '));
    let _ = press(&mut app, Key::Char('a'));
    assert_eq!(app.checked_count(), TOOL_COUNT);
    let _ = press(&mut app, Key::Char('a'));
    assert_eq!(app.checked_count(), 0);
}

#[test]
fn enter_with_nothing_chosen_does_nothing() {
    let mut app = App::new();
    assert!(matches!(press(&mut app, Key::Enter), Effect::Nothing));
    assert!(matches!(app.phase, Phase::Selecting));
}

#[test]
fn tools_without_sudo_start_at_once() {
    let mut app = App::new();
    let _ = press(&mut app, Key::Down);
    let _ = press(&mut app, Key::Char(' '));
    match press(&mut app, Key::Enter) {
        Effect::StartInstall(tools) => assert_eq!(tools, vec![Tool::Rust]),
        _ => panic!("expected the install to start"),
    }
    assert!(matches!(app.phase, Phase::Installing));
    assert_eq!(app.checked_count(), 0);
    let inst = app.install.as_ref().unwrap();
    assert_eq!(inst.statuses[Tool::Rust.index()], ToolStatus::Pending);
    assert_eq!(inst.statuses[Tool::Fish.index()], ToolStatus::NotSelected);
    assert_eq!(inst.cursor, Tool::Rust.index());
    assert!(inst.pending_prompts.is_empty());
}

#[test]
fn sudo_prompt_then_install_with_password() {
    let mut app = App::new();
    let _ = press(&mut app, Key::Char(' '));
    assert!(matches!(press(&mut app, Key::Enter), Effect::Nothing));
    assert!(matches!(app.phase, Phase::SudoPrompt { .. }));
    type_text(&mut app, "pwx");
    let _ = press(&mut app, Key::Backspace);
    match press(&mut app, Key::Enter) {
        Effect::StartInstall(tools) => assert_eq!(tools, vec![Tool::Fish]),
        _ => panic!("expected the install to start"),
    }
    assert_eq!(app.sudo_password, Some("pw".to_string()));
    assert!(matches!(app.phase, Phase::Installing));
}

#[test]
fn sudo_prompt_skipped_with_esc() {
    let mut app = App::new();
    let _ = press(&mut app, Key::Char(' '));
    let _ = press(&mut app, Key::Enter);
    type_text(&mut app, "abc");
    assert!(matches!(press(&mut app, Key::Esc), Effect::StartInstall(_)));
    assert_eq!(app.sudo_password, None);
}

#[test]
fn empty_sudo_password_means_none() {
    let mut app = App::new();
    let _ = press(&mut app, Key::Char(' '));
    let _ = press(&mut app, Key::Enter);
    assert!(matches!(press(&mut app, Key::Enter), Effect::StartInstall(_)));
    assert_eq!(app.sudo_password, None);
}

fn started_with_password() -> App {
    let mut app = App::new();
    let _ = press(&mut app, Key::Char(' '));
    let _ = press(&mut app, Key::Enter);
    type_text(&mut app, "pw");
    let _ = press(&mut app, Key::Enter);
    app
}

#[test]
fn sudo_prompts_are_answered_once() {
    let mut app = started_with_password();
    assert!(matches!(app.apply_message(Msg::Started(0)), Effect::Nothing));
    assert_eq!(app.install.as_ref().unwrap().statuses[0], ToolStatus::Running);
    // Without a terminal to write to, nothing is sent.
    assert!(matches!(
        app.apply_message(Msg::Partial(0, "[sudo] password for a:".to_string())),
        Effect::Nothing
    ));
    let _ = app.apply_message(Msg::WriterReady(0));
    match app.apply_message(Msg::Partial(0, "[sudo] password for a:".to_string())) {
        Effect::SendBytes(i, bytes) => {
            assert_eq!(i, 0);
            assert_eq!(bytes, b"pw\n".to_vec());
        }
        _ => panic!("expected the password to be sent"),
    }
    assert!(matches!(
        app.apply_message(Msg::Partial(0, "[sudo] password for a:".to_string())),
        Effect::Nothing
    ));
    // A complete line forgets the answered prompt, so a new prompt is answered again.
    let _ = app.apply_message(Msg::Line(0, "Sorry, try again.".to_string()));
    assert!(matches!(
        app.apply_message(Msg::Partial(0, "[sudo] password for a:".to_string())),
        Effect::SendBytes(0, _)
    ));
    // Ordinary partial lines are not answered.
    assert!(matches!(
        app.apply_message(Msg::Partial(0, "Downloading 50%".to_string())),
        Effect::Nothing
    ));
}

#[test]
fn lines_and_finish() {
    let mut app = started_with_password();
    let _ = app.apply_message(Msg::Started(0));
    let _ = app.apply_message(Msg::Line(0, "one".to_string()));
    let _ = app.apply_message(Msg::Partial(0, "tw".to_string()));
    let _ = app.apply_message(Msg::Finished(0, true));
    let inst = app.install.as_ref().unwrap();
    assert_eq!(inst.statuses[0], ToolStatus::Done);
    assert_eq!(inst.tool_logs[0], vec!["one".to_string(), "tw".to_string()]);
    assert_eq!(inst.partials[0], "");
    assert!(!inst.writers[0]);
    assert!(is_all_done(&inst.statuses));
}

#[test]
fn failed_install_is_recorded() {
    let mut app = started_with_password();
    let _ = app.apply_message(Msg::Finished(0, false));
    assert_eq!(app.install.as_ref().unwrap().statuses[0], ToolStatus::Failed);
}

#[test]
fn log_is_capped() {
    let mut app = started_with_password();
    for k in 0..(MAX_LOG_LINES + 5) {
        let _ = app.apply_message(Msg::Line(0, format!("line {k}")));
    }
    let log = &app.install.as_ref().unwrap().tool_logs[0];
    assert_eq!(log.len(), MAX_LOG_LINES);
    assert_eq!(log[0], "line 5");
    assert_eq!(log[MAX_LOG_LINES - 1], format!("line {}", MAX_LOG_LINES + 4));
}

#[test]
fn messages_without_session_are_ignored() {
    let mut app = App::new();
    assert!(matches!(app.apply_message(Msg::Started(3)), Effect::Nothing));
    assert!(app.install.is_none());
}

fn postgres_session() -> App {
    let mut app = App::new();
    app.sudo_password = Some("pw".to_string());
    app.cursor = Tool::Postgres.index();
    let _ = press(&mut app, Key::Char(' '));
    assert!(matches!(press(&mut app, Key::Enter), Effect::StartInstall(_)));
    app
}

#[test]
fn post_install_prompt_after_success() {
    let mut app = postgres_session();
    let i = Tool::Postgres.index();
    assert_eq!(app.install.as_ref().unwrap().pending_prompts, vec![Tool::Postgres]);
    app.check_prompts();
    assert!(matches!(app.phase, Phase::Installing));
    let _ = app.apply_message(Msg::Started(i));
    let _ = app.apply_message(Msg::Finished(i, true));
    app.check_prompts();
    match &app.phase {
        Phase::PostInstall(p) => {
            assert_eq!(p.tool, Tool::Postgres);
            assert_eq!(p.label, "Set password for postgres superuser");
            assert_eq!(p.input, "");
            assert_eq!(p.error, None);
        }
        _ => panic!("expected the post-install prompt"),
    }
    assert!(app.install.as_ref().unwrap().pending_prompts.is_empty());
    type_text(&mut app, "s3cret");
    match press(&mut app, Key::Enter) {
        Effect::RunPostInstall(t, v) => {
            assert_eq!(t, Tool::Postgres);
            assert_eq!(v, "s3cret");
        }
        _ => panic!("expected the post-install step"),
    }
    app.post_install_done(Err("psql: error".to_string()));
    match &app.phase {
        Phase::PostInstall(p) => assert_eq!(p.error, Some("psql: error".to_string())),
        _ => panic!("the prompt stays open after an error"),
    }
    app.post_install_done(Ok(()));
    assert!(matches!(app.phase, Phase::Done));
    assert!(app.is_done());
    assert!(matches!(press(&mut app, Key::Char('x')), Effect::Quit));
}

#[test]
fn no_prompt_after_failure() {
    let mut app = postgres_session();
    let i = Tool::Postgres.index();
    let _ = app.apply_message(Msg::Finished(i, false));
    app.check_prompts();
    assert!(matches!(app.phase, Phase::Installing));
    assert!(app.install.as_ref().unwrap().pending_prompts.is_empty());
}

#[test]
fn post_prompt_escape_finishes() {
    let mut app = postgres_session();
    let i = Tool::Postgres.index();
    let _ = app.apply_message(Msg::Finished(i, true));
    app.check_prompts();
    let _ = press(&mut app, Key::Esc);
    assert!(matches!(app.phase, Phase::Done));
}

#[test]
fn adding_tools_to_a_running_session() {
    let mut app = postgres_session();
    let i = Tool::Postgres.index();
    let _ = app.apply_message(Msg::Started(i));
    // Back to the selection, choose postgres again and zoxide.
    assert!(matches!(press(&mut app, Key::Tab), Effect::Nothing));
    assert!(matches!(app.phase, Phase::Selecting));
    // Running tools cannot be toggled.
    app.cursor = i;
    let _ = press(&mut app, Key::Char(' '));
    assert_eq!(app.checked_count(), 0);
    app.cursor = Tool::Zoxide.index();
    let _ = press(&mut app, Key::Char(' '));
    match press(&mut app, Key::Enter) {
        Effect::AddTools(tools) => assert_eq!(tools, vec![Tool::Zoxide]),
        _ => panic!("expected tools to be added"),
    }
    let inst = app.install.as_ref().unwrap();
    assert_eq!(inst.statuses[i], ToolStatus::Running);
    assert_eq!(inst.statuses[Tool::Zoxide.index()], ToolStatus::Pending);
    assert_eq!(visible_indices(&inst.statuses), vec![i, Tool::Zoxide.index()]);
}

#[test]
fn esc_from_selection_returns_to_session() {
    let mut app = postgres_session();
    let _ = press(&mut app, Key::Tab);
    assert!(matches!(press(&mut app, Key::Esc), Effect::Nothing));
    assert!(matches!(app.phase, Phase::Installing));
}

#[test]
fn install_list_keys() {
    let mut app = App::new();
    app.sudo_password = Some("pw".to_string());
    app.cursor = Tool::Rust.index();
    let _ = press(&mut app, Key::Char(' '));
    app.cursor = Tool::Zoxide.index();
    let _ = press(&mut app, Key::Char(' '));
    let _ = press(&mut app, Key::Enter);
    assert_eq!(app.install.as_ref().unwrap().cursor, Tool::Rust.index());
    let _ = press(&mut app, Key::Down);
    assert_eq!(app.install.as_ref().unwrap().cursor, Tool::Zoxide.index());
    let _ = press(&mut app, Key::Char('k'));
    assert_eq!(app.install.as_ref().unwrap().cursor, Tool::Rust.index());
    let _ = press(&mut app, Key::PageUp);
    assert_eq!(app.install.as_ref().unwrap().scroll_offset, 5);
    let _ = press(&mut app, Key::PageDown);
    let _ = press(&mut app, Key::PageDown);
    assert_eq!(app.install.as_ref().unwrap().scroll_offset, 0);
    // Enter attaches the highlighted tool when it has no terminal.
    let _ = press(&mut app, Key::Enter);
    assert_eq!(app.install.as_ref().unwrap().attached, Some(Tool::Rust.index()));
    let _ = press(&mut app, Key::PageUp);
    assert_eq!(app.install.as_ref().unwrap().scroll_offset, 10);
    let _ = press(&mut app, Key::Esc);
    assert_eq!(app.install.as_ref().unwrap().attached, None);
    assert_eq!(app.install.as_ref().unwrap().scroll_offset, 0);
    // With everything still pending, Esc goes back to the selection.
    let _ = press(&mut app, Key::Esc);
    assert!(matches!(app.phase, Phase::Selecting));
}

#[test]
fn keys_go_to_a_running_tool() {
    let mut app = App::new();
    app.cursor = Tool::Rust.index();
    let _ = press(&mut app, Key::Char(' '));
    let _ = press(&mut app, Key::Enter);
    let i = Tool::Rust.index();
    let _ = app.apply_message(Msg::Started(i));
    let _ = app.apply_message(Msg::WriterReady(i));
    match press(&mut app, Key::Char('y')) {
        Effect::SendBytes(j, b) => {
            assert_eq!(j, i);
            assert_eq!(b, b"y".to_vec());
        }
        _ => panic!("expected the key to be forwarded"),
    }
    match app.handle_key(Key::Char('c'), true) {
        Effect::SendBytes(_, b) => assert_eq!(b, vec![3u8]),
        _ => panic!("expected ctrl-c to be forwarded"),
    }
    // 'q' is forwarded too while the tool has a terminal.
    assert!(matches!(press(&mut app, Key::Char('q')), Effect::SendBytes(_, _)));
    // F2 attaches.
    let _ = press(&mut app, Key::F(2));
    assert_eq!(app.install.as_ref().unwrap().attached, Some(i));
    assert!(matches!(press(&mut app, Key::Enter), Effect::SendBytes(_, _)));
}

#[test]
fn esc_quits_when_everything_is_done() {
    let mut app = App::new();
    app.cursor = Tool::Rust.index();
    let _ = press(&mut app, Key::Char(' '));
    let _ = press(&mut app, Key::Enter);
    let _ = app.apply_message(Msg::Finished(Tool::Rust.index(), true));
    assert!(matches!(press(&mut app, Key::Esc), Effect::Quit));
}

#[test]
fn q_quits_in_list_when_no_terminal() {
    let mut app = App::new();
    app.cursor = Tool::Rust.index();
    let _ = press(&mut app, Key::Char(' '));
    let _ = press(&mut app, Key::Enter);
    assert!(matches!(press(&mut app, Key::Char('q')), Effect::Quit));
}

#[test]
fn mouse_in_selection() {
    let mut app = App::new();
    app.set_select_list_rect(Rect { x: 0, y: 3, width: 40, height: 20 });
    app.handle_mouse(MouseKind::LeftDown, 5, 6);
    assert_eq!(app.cursor, 2);
    app.handle_mouse(MouseKind::ScrollDown, 0, 0);
    assert_eq!(app.cursor, 3);
    app.handle_mouse(MouseKind::ScrollUp, 0, 0);
    app.handle_mouse(MouseKind::ScrollUp, 0, 0);
    assert_eq!(app.cursor, 1);
    // Outside the list nothing changes.
    app.handle_mouse(MouseKind::LeftDown, 50, 6);
    assert_eq!(app.cursor, 1);
    // Below the last item nothing changes.
    app.handle_mouse(MouseKind::LeftDown, 5, 22);
    assert_eq!(app.cursor, 1);
}

#[test]
fn tick_wraps() {
    let mut app = App::new();
    app.advance_tick();
    assert_eq!(app.tick, 1);
    app.tick = u64::MAX;
    app.advance_tick();
    assert_eq!(app.tick, 0);
}

#[test]
fn install_layout_is_kept() {
    let mut app = App::new();
    app.cursor = Tool::Rust.index();
    let _ = press(&mut app, Key::Char(' '));
    let _ = press(&mut app, Key::Enter);
    let r = Rect { x: 1, y: 2, width: 3, height: 4 };
    app.set_install_layout(InstallLayout { status_list: r, preview: r, attached_view: r });
    assert_eq!(app.install.as_ref().unwrap().layout.preview, r);
}

#[test]
fn status_counting() {
    let mut st = vec![ToolStatus::NotSelected; TOOL_COUNT];
    assert!(!is_all_done(&st));
    st[0] = ToolStatus::Done;
    st[1] = ToolStatus::Failed;
    st[2] = ToolStatus::Running;
    st[3] = ToolStatus::Pending;
    assert!(!is_all_done(&st));
    // (done, failed, running, taking part)
    assert_eq!(status_counts(&st), (1, 1, 1, 4));
}

#[test]
fn scheduler_respects_deps_and_lock() {
    let mut s = Scheduler::new(vec![Tool::Paru, Tool::Rust, Tool::Fish, Tool::Gh], vec![false; TOOL_COUNT]);
    assert_eq!(s.take_ready(), vec![Tool::Rust, Tool::Fish]);
    assert!(s.take_ready().is_empty());
    s.mark_done(Tool::Rust, true);
    // Paru's dependency is met, but Fish holds the package-manager lock.
    assert!(s.take_ready().is_empty());
    s.mark_done(Tool::Fish, true);
    assert_eq!(s.take_ready(), vec![Tool::Paru]);
    s.mark_done(Tool::Paru, true);
    assert_eq!(s.take_ready(), vec![Tool::Gh]);
    assert!(!s.is_finished());
    s.mark_done(Tool::Gh, true);
    assert!(!s.is_finished());
    assert!(s.accepts_additions());
    s.close_additions();
    assert!(!s.accepts_additions());
    assert!(s.is_finished());
}

#[test]
fn scheduler_failed_dependency_blocks_dependents() {
    let mut s = Scheduler::new(vec![Tool::Rust, Tool::Paru, Tool::CargoWatch, Tool::Xh], vec![false; TOOL_COUNT]);
    assert!(s.drop_blocked().is_empty());
    assert_eq!(s.take_ready(), vec![Tool::Rust, Tool::Xh]);
    s.mark_done(Tool::Xh, true);
    s.mark_done(Tool::Rust, false);
    // Nothing that needs rust may start; both dependents are dropped.
    assert_eq!(s.drop_blocked(), vec![Tool::Paru, Tool::CargoWatch]);
    assert!(s.take_ready().is_empty());
    s.close_additions();
    assert!(s.is_finished());
}

#[test]
fn scheduler_runs_a_failed_tool_again() {
    let mut s = Scheduler::new(vec![Tool::Rust], vec![false; TOOL_COUNT]);
    assert_eq!(s.take_ready(), vec![Tool::Rust]);
    s.mark_done(Tool::Rust, false);
    s.add_more(vec![Tool::Rust, Tool::SqlxCli]);
    // The dependency is queued again, so its dependent waits instead of being dropped.
    assert!(s.drop_blocked().is_empty());
    assert_eq!(s.take_ready(), vec![Tool::Rust]);
    s.mark_done(Tool::Rust, true);
    assert_eq!(s.take_ready(), vec![Tool::SqlxCli]);
    s.mark_done(Tool::SqlxCli, true);
    s.close_additions();
    assert!(s.is_finished());
}

#[test]
fn scheduler_skips_known_tools_when_adding() {
    let mut installed = vec![false; TOOL_COUNT];
    installed[Tool::Rust.index()] = true;
    let mut s = Scheduler::new(vec![Tool::CargoWatch], installed);
    s.add_more(vec![Tool::Rust, Tool::CargoWatch, Tool::Xh, Tool::Xh]);
    assert_eq!(s.take_ready(), vec![Tool::CargoWatch, Tool::Xh]);
    s.add_more(vec![Tool::Xh]);
    assert!(s.take_ready().is_empty());
}

#[test]
fn terminal_bytes_for_keys() {
    assert_eq!(key_bytes(Key::Char('c'), true), Some(vec![3u8]));
    assert_eq!(key_bytes(Key::Char('C'), true), Some(vec![3u8]));
    assert_eq!(key_bytes(Key::Char('1'), true), Some(vec![b'1']));
    assert_eq!(key_bytes(Key::Char('é'), false), Some(vec![0xc3, 0xa9]));
    assert_eq!(key_bytes(Key::Enter, false), Some(vec![b'\r']));
    assert_eq!(key_bytes(Key::Backspace, false), Some(vec![0x7f]));
    assert_eq!(key_bytes(Key::Delete, false), Some(b"\x1b[3~".to_vec()));
    assert_eq!(key_bytes(Key::Left, false), Some(b"\x1b[D".to_vec()));
    assert_eq!(key_bytes(Key::Esc, false), None);
    assert_eq!(key_bytes(Key::F(2), false), None);
}

#[test]
fn hit_testing() {
    let r = Rect { x: 2, y: 3, width: 10, height: 5 };
    assert!(point_in(2, 3, r));
    assert!(point_in(11, 7, r));
    assert!(!point_in(12, 7, r));
    assert!(!point_in(5, 8, r));
    assert_eq!(row_in_list(3, r, 17), None);
    assert_eq!(row_in_list(4, r, 17), Some(0));
    assert_eq!(row_in_list(6, r, 2), None);
}

#[test]
fn scroll_windows() {
    assert_eq!(scroll_window(100, 10, 0), (90, 100));
    assert_eq!(scroll_window(100, 10, 3), (87, 97));
    assert_eq!(scroll_window(100, 10, 95), (0, 10));
    assert_eq!(scroll_window(5, 10, 3), (0, 5));
    assert_eq!(scroll_window(0, 10, 0), (0, 0));
}

#[test]
fn popups_are_centred() {
    let area = Rect { x: 0, y: 0, width: 100, height: 40 };
    assert_eq!(popup_rect(area, 68, 14), Rect { x: 16, y: 13, width: 68, height: 14 });
    let small = Rect { x: 0, y: 0, width: 30, height: 10 };
    assert_eq!(popup_rect(small, 68, 14), Rect { x: 2, y: 0, width: 26, height: 14 });
}

#[test]
fn sudo_answers_follow_new_prompt_texts() {
    let mut app = started_with_password();
    let _ = app.apply_message(Msg::WriterReady(0));
    let prompts = ["[sudo] password for a:", "[sudo] password for a:", "Password:", "Password:", "[sudo] password for a:"];
    let mut sent = Vec::new();
    for p in prompts {
        sent.push(matches!(app.apply_message(Msg::Partial(0, p.to_string())), Effect::SendBytes(0, _)));
    }
    assert_eq!(sent, vec![true, false, true, false, true]);
    assert_eq!(app.install.as_ref().unwrap().last_pwd_prompt[0], Some("[sudo] password for a:".to_string()));
}
