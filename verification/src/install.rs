//! The install session view: navigation and attaching with keys and mouse,
//! forwarding keys to a tool's terminal, and absorbing worker messages.
use vstd::prelude::*;
use crate::ansi::{looks_like_sudo_prompt, sudo_prompt_like};
use crate::keys::{Key, MouseKind, key_bytes, spec_key_bytes};
use crate::layout::{point_in, row_in_list, spec_row_in_list};
use crate::session::{
    is_all_done, pos_from, pos_or_zero, position_or_zero, spec_all_done, visible_indices, visible_of,
};
use crate::state::{
    Effect, EffectView, InstallState, InstallView, MAX_LOG_LINES, Msg, MsgView, ToolStatus,
};
use crate::text::{opt_view, views};
use crate::tool::TOOL_COUNT;

verus! {

broadcast use vstd::string::group_string_axioms;

/// `x + n`, saturating at `usize::MAX`.
pub open spec fn sat_add(x: usize, n: usize) -> usize {
    if x + n <= usize::MAX {
        (x + n) as usize
    } else {
        usize::MAX
    }
}

/// `x - n`, saturating at 0.
pub open spec fn sat_sub(x: usize, n: usize) -> usize {
    if x >= n {
        (x - n) as usize
    } else {
        0
    }
}

/// No tool has a terminal that accepts input.
pub open spec fn no_writers(w: Seq<bool>) -> bool {
    forall|i: int| 0 <= i < w.len() ==> !#[trigger] w[i]
}

/// Forwarding a key to the terminal of tool `idx`, when it has one and the
/// key has a byte encoding.
pub open spec fn send_effect(inst: InstallView, idx: usize, k: Key, ctrl: bool) -> EffectView {
    if inst.writers[idx as int] {
        match spec_key_bytes(k, ctrl) {
            Some(b) => EffectView::SendBytes(idx, b),
            None => EffectView::Nothing,
        }
    } else {
        EffectView::Nothing
    }
}

/// Expanding the highlighted tool's output to the full screen.
pub open spec fn attach(inst: InstallView) -> InstallView {
    InstallView { attached: Some(inst.cursor), scroll_offset: 0, ..inst }
}

/// Moving the highlight one visible tool up.
pub open spec fn list_up(inst: InstallView, vis: Seq<usize>, pos: int) -> InstallView {
    if pos > 0 {
        InstallView { cursor: vis[pos - 1], list_selected: Some((pos - 1) as usize), ..inst }
    } else {
        inst
    }
}

/// Moving the highlight one visible tool down.
pub open spec fn list_down(inst: InstallView, vis: Seq<usize>, pos: int) -> InstallView {
    if pos + 1 < vis.len() {
        InstallView { cursor: vis[pos + 1], list_selected: Some((pos + 1) as usize), ..inst }
    } else {
        inst
    }
}

pub open spec fn scrolled(inst: InstallView, up: bool, n: usize) -> InstallView {
    InstallView {
        scroll_offset: if up {
            sat_add(inst.scroll_offset, n)
        } else {
            sat_sub(inst.scroll_offset, n)
        },
        ..inst
    }
}

/// A key in the install view: the new session, whether to go back to the
/// selection screen, and the effect.
pub open spec fn spec_inst_key(inst: InstallView, k: Key, ctrl: bool) -> (
    InstallView,
    bool,
    EffectView,
) {
    let vis = visible_of(inst.statuses);
    if vis.len() == 0 {
        (inst, false, EffectView::Nothing)
    } else if inst.attached is Some {
        let idx = inst.attached->0;
        if k == Key::Esc {
            (InstallView { attached: None, scroll_offset: 0, ..inst }, false, EffectView::Nothing)
        } else if k == Key::PageUp {
            (scrolled(inst, true, 10), false, EffectView::Nothing)
        } else if k == Key::PageDown {
            (scrolled(inst, false, 10), false, EffectView::Nothing)
        } else {
            (inst, false, send_effect(inst, idx, k, ctrl))
        }
    } else {
        let pos = pos_or_zero(vis, inst.cursor);
        if k == Key::F(2) || (k == Key::Char('f') && ctrl) {
            (attach(inst), false, EffectView::Nothing)
        } else if k == Key::Up {
            (list_up(inst, vis, pos), false, EffectView::Nothing)
        } else if k == Key::Down {
            (list_down(inst, vis, pos), false, EffectView::Nothing)
        } else if k == Key::PageUp {
            (scrolled(inst, true, 5), false, EffectView::Nothing)
        } else if k == Key::PageDown {
            (scrolled(inst, false, 5), false, EffectView::Nothing)
        } else if k == Key::Tab {
            (inst, true, EffectView::Nothing)
        } else if k == Key::Esc {
            if spec_all_done(inst.statuses) && no_writers(inst.writers) {
                (inst, false, EffectView::Quit)
            } else {
                (inst, true, EffectView::Nothing)
            }
        } else if inst.writers[inst.cursor as int] {
            (inst, false, send_effect(inst, inst.cursor, k, ctrl))
        } else if k == Key::Char('q') {
            (inst, false, EffectView::Quit)
        } else if k == Key::Char('j') {
            (list_down(inst, vis, pos), false, EffectView::Nothing)
        } else if k == Key::Char('k') {
            (list_up(inst, vis, pos), false, EffectView::Nothing)
        } else if k == Key::Enter {
            (attach(inst), false, EffectView::Nothing)
        } else {
            (inst, false, EffectView::Nothing)
        }
    }
}

/// A mouse event in the install view.
pub open spec fn spec_inst_mouse(inst: InstallView, kind: MouseKind, col: u16, row: u16) -> InstallView {
    if inst.attached is Some {
        if kind == MouseKind::ScrollUp {
            scrolled(inst, true, 3)
        } else if kind == MouseKind::ScrollDown {
            scrolled(inst, false, 3)
        } else {
            inst
        }
    } else {
        let vis = visible_of(inst.statuses);
        if vis.len() == 0 {
            inst
        } else if kind == MouseKind::LeftDown {
            if inst.layout.status_list.contains(col, row) {
                match spec_row_in_list(row, inst.layout.status_list, vis.len() as usize) {
                    Some(i) => InstallView {
                        cursor: vis[i as int],
                        list_selected: Some(i),
                        ..inst
                    },
                    None => inst,
                }
            } else {
                inst
            }
        } else if kind == MouseKind::ScrollUp {
            if inst.layout.preview.contains(col, row) {
                scrolled(inst, true, 3)
            } else {
                list_up(inst, vis, pos_or_zero(vis, inst.cursor))
            }
        } else if kind == MouseKind::ScrollDown {
            if inst.layout.preview.contains(col, row) {
                scrolled(inst, false, 3)
            } else {
                list_down(inst, vis, pos_or_zero(vis, inst.cursor))
            }
        } else {
            inst
        }
    }
}

/// A complete line appended to a log, dropping the oldest line when the
/// log already holds `MAX_LOG_LINES` lines or more.
pub open spec fn push_capped(log: Seq<Seq<char>>, line: Seq<char>) -> Seq<Seq<char>> {
    if log.len() >= MAX_LOG_LINES {
        log.drop_first().push(line)
    } else {
        log.push(line)
    }
}

/// Absorbing a worker message. A partial line that looks like a sudo prompt
/// is answered once with the session's sudo password (plus a newline) when
/// the tool's terminal accepts input.
pub open spec fn spec_inst_msg(inst: InstallView, pwd: Option<Seq<char>>, m: MsgView) -> (
    InstallView,
    EffectView,
) {
    match m {
        MsgView::Started(i) => (
            InstallView { statuses: inst.statuses.update(i as int, ToolStatus::Running), ..inst },
            EffectView::Nothing,
        ),
        MsgView::WriterReady(i) => (
            InstallView { writers: inst.writers.update(i as int, true), ..inst },
            EffectView::Nothing,
        ),
        MsgView::Line(i, text) => (
            InstallView {
                partials: inst.partials.update(i as int, Seq::empty()),
                last_pwd_prompt: inst.last_pwd_prompt.update(i as int, None),
                tool_logs: inst.tool_logs.update(
                    i as int,
                    push_capped(inst.tool_logs[i as int], text),
                ),
                ..inst
            },
            EffectView::Nothing,
        ),
        MsgView::Partial(i, text) => {
            let base = InstallView { partials: inst.partials.update(i as int, text), ..inst };
            if pwd is Some && sudo_prompt_like(text) && inst.last_pwd_prompt[i as int] != Some(
                text,
            ) && inst.writers[i as int] {
                (
                    InstallView {
                        last_pwd_prompt: inst.last_pwd_prompt.update(i as int, Some(text)),
                        ..base
                    },
                    EffectView::SendBytes(i, vstd::utf8::encode_utf8(pwd->0).push(10u8)),
                )
            } else {
                (base, EffectView::Nothing)
            }
        },
        MsgView::Finished(i, ok) => {
            let base = InstallView {
                statuses: inst.statuses.update(
                    i as int,
                    if ok {
                        ToolStatus::Done
                    } else {
                        ToolStatus::Failed
                    },
                ),
                writers: inst.writers.update(i as int, false),
                last_pwd_prompt: inst.last_pwd_prompt.update(i as int, None),
                ..inst
            };
            if inst.partials[i as int].len() > 0 {
                (
                    InstallView {
                        tool_logs: inst.tool_logs.update(
                            i as int,
                            inst.tool_logs[i as int].push(inst.partials[i as int]),
                        ),
                        partials: inst.partials.update(i as int, Seq::empty()),
                        ..base
                    },
                    EffectView::Nothing,
                )
            } else {
                (base, EffectView::Nothing)
            }
        },
    }
}

fn any_true(v: &Vec<bool>) -> (b: bool)
    ensures
        b == !no_writers(v@),
{
    let mut i: usize = 0;
    while i < v.len()
        invariant
            i <= v.len(),
            forall|k: int| 0 <= k < i ==> !v@[k],
        decreases v.len() - i,
    {
        if v[i] {
            return true;
        }
        i += 1;
    }
    false
}

fn sat_add_exec(x: usize, n: usize) -> (r: usize)
    ensures
        r == sat_add(x, n),
{
    x.saturating_add(n)
}

fn sat_sub_exec(x: usize, n: usize) -> (r: usize)
    ensures
        r == sat_sub(x, n),
{
    x.saturating_sub(n)
}

impl InstallState {
    fn forward_key(&self, idx: usize, k: Key, ctrl: bool) -> (e: Effect)
        requires
            self@.wf(),
            idx < TOOL_COUNT,
        ensures
            e@ == send_effect(self@, idx, k, ctrl),
    {
        if self.writers[idx] {
            match key_bytes(k, ctrl) {
                Some(b) => Effect::SendBytes(idx, b),
                None => Effect::Nothing,
            }
        } else {
            Effect::Nothing
        }
    }

    fn move_up(&mut self, vis: &Vec<usize>, pos: usize)
        requires
            old(self)@.wf(),
            pos < vis.len(),
            forall|j: int| 0 <= j < vis@.len() ==> #[trigger] vis@[j] < TOOL_COUNT,
        ensures
            final(self)@ == list_up(old(self)@, vis@, pos as int),
            final(self)@.wf(),
    {
        if pos > 0 {
            self.cursor = vis[pos - 1];
            self.list_selected = Some(pos - 1);
        }
    }

    fn move_down(&mut self, vis: &Vec<usize>, pos: usize)
        requires
            old(self)@.wf(),
            pos < vis.len(),
            forall|j: int| 0 <= j < vis@.len() ==> #[trigger] vis@[j] < TOOL_COUNT,
        ensures
            final(self)@ == list_down(old(self)@, vis@, pos as int),
            final(self)@.wf(),
    {
        if pos + 1 < vis.len() {
            self.cursor = vis[pos + 1];
            self.list_selected = Some(pos + 1);
        }
    }

    fn scroll(&mut self, up: bool, n: usize)
        requires
            old(self)@.wf(),
        ensures
            final(self)@ == scrolled(old(self)@, up, n),
            final(self)@.wf(),
    {
        if up {
            self.scroll_offset = sat_add_exec(self.scroll_offset, n);
        } else {
            self.scroll_offset = sat_sub_exec(self.scroll_offset, n);
        }
    }

    /// A key in the install view; the flag asks to go back to the selection
    /// screen.
    pub fn handle_key(&mut self, k: Key, ctrl: bool) -> (r: (Effect, bool))
        requires
            old(self)@.wf(),
        ensures
            (final(self)@, r.1, r.0@) == spec_inst_key(old(self)@, k, ctrl),
            final(self)@.wf(),
    {
        let vis = visible_indices(&self.statuses);
        if vis.len() == 0 {
            return (Effect::Nothing, false);
        }
        if let Some(idx) = self.attached {
            if k == Key::Esc {
                self.attached = None;
                self.scroll_offset = 0;
                return (Effect::Nothing, false);
            } else if k == Key::PageUp {
                self.scroll(true, 10);
                return (Effect::Nothing, false);
            } else if k == Key::PageDown {
                self.scroll(false, 10);
                return (Effect::Nothing, false);
            } else {
                return (self.forward_key(idx, k, ctrl), false);
            }
        }
        let pos = position_or_zero(&vis, self.cursor);
        if k == Key::F(2) || (k == Key::Char('f') && ctrl) {
            self.attached = Some(self.cursor);
            self.scroll_offset = 0;
            (Effect::Nothing, false)
        } else if k == Key::Up {
            self.move_up(&vis, pos);
            (Effect::Nothing, false)
        } else if k == Key::Down {
            self.move_down(&vis, pos);
            (Effect::Nothing, false)
        } else if k == Key::PageUp {
            self.scroll(true, 5);
            (Effect::Nothing, false)
        } else if k == Key::PageDown {
            self.scroll(false, 5);
            (Effect::Nothing, false)
        } else if k == Key::Tab {
            (Effect::Nothing, true)
        } else if k == Key::Esc {
            if is_all_done(&self.statuses) && !any_true(&self.writers) {
                (Effect::Quit, false)
            } else {
                (Effect::Nothing, true)
            }
        } else if self.writers[self.cursor] {
            (self.forward_key(self.cursor, k, ctrl), false)
        } else if k == Key::Char('q') {
            (Effect::Quit, false)
        } else if k == Key::Char('j') {
            self.move_down(&vis, pos);
            (Effect::Nothing, false)
        } else if k == Key::Char('k') {
            self.move_up(&vis, pos);
            (Effect::Nothing, false)
        } else if k == Key::Enter {
            self.attached = Some(self.cursor);
            self.scroll_offset = 0;
            (Effect::Nothing, false)
        } else {
            (Effect::Nothing, false)
        }
    }

    /// A mouse event in the install view.
    pub fn handle_mouse(&mut self, kind: MouseKind, col: u16, row: u16)
        requires
            old(self)@.wf(),
        ensures
            final(self)@ == spec_inst_mouse(old(self)@, kind, col, row),
            final(self)@.wf(),
    {
        if self.attached.is_some() {
            if kind == MouseKind::ScrollUp {
                self.scroll(true, 3);
            } else if kind == MouseKind::ScrollDown {
                self.scroll(false, 3);
            }
            return;
        }
        let vis = visible_indices(&self.statuses);
        if vis.len() == 0 {
            return;
        }
        if kind == MouseKind::LeftDown {
            if point_in(col, row, self.layout.status_list) {
                if let Some(i) = row_in_list(row, self.layout.status_list, vis.len()) {
                    self.cursor = vis[i];
                    self.list_selected = Some(i);
                }
            }
        } else if kind == MouseKind::ScrollUp {
            if point_in(col, row, self.layout.preview) {
                self.scroll(true, 3);
            } else {
                let pos = position_or_zero(&vis, self.cursor);
                self.move_up(&vis, pos);
            }
        } else if kind == MouseKind::ScrollDown {
            if point_in(col, row, self.layout.preview) {
                self.scroll(false, 3);
            } else {
                let pos = position_or_zero(&vis, self.cursor);
                self.move_down(&vis, pos);
            }
        }
    }

    /// Absorbing a worker message about a tool of the catalogue.
    pub fn apply_message(&mut self, pwd: &Option<String>, m: Msg) -> (e: Effect)
        requires
            old(self)@.wf(),
            m@.tool_index() < TOOL_COUNT,
        ensures
            (final(self)@, e@) == spec_inst_msg(old(self)@, opt_view(*pwd), m@),
            final(self)@.wf(),
    {
        let ghost old_logs = self.tool_logs@;
        let ghost old_partials = self.partials@;
        let ghost old_last = self.last_pwd_prompt@;
        match m {
            Msg::Started(i) => {
                self.statuses.set(i, ToolStatus::Running);
                Effect::Nothing
            },
            Msg::WriterReady(i) => {
                self.writers.set(i, true);
                Effect::Nothing
            },
            Msg::Line(i, text) => {
                self.partials.set(i, String::new());
                self.last_pwd_prompt.set(i, None);
                let mut log: Vec<String> = Vec::new();
                self.tool_logs.set_and_swap(i, &mut log);
                let ghost log0 = log@;
                if log.len() >= MAX_LOG_LINES {
                    log.remove(0);
                    assert(views(log@) =~= views(log0).drop_first());
                }
                let ghost log1 = log@;
                log.push(text);
                assert(views(log@) =~= views(log1).push(log@.last()@));
                self.tool_logs.set(i, log);
                proof {
                    assert(self@.tool_logs =~= old_logs.map_values(|l: Vec<String>| views(l@)).update(
                        i as int,
                        push_capped(views(old_logs[i as int]@), m@->Line_1),
                    ));
                    assert(self@.partials =~= views(old_partials).update(i as int, Seq::empty()));
                    assert(self@.last_pwd_prompt =~= old_last.map_values(
                        |o: Option<String>| opt_view(o),
                    ).update(i as int, None));
                }
                Effect::Nothing
            },
            Msg::Partial(i, text) => {
                assert(old(self)@.last_pwd_prompt[i as int] == opt_view(old_last[i as int]));
                let answer = match pwd {
                    Some(pw) => {
                        let like = looks_like_sudo_prompt(text.as_str());
                        let fresh = match &self.last_pwd_prompt[i] {
                            Some(prev) => !prev.eq(&text),
                            None => true,
                        };
                        assert(fresh == (old(self)@.last_pwd_prompt[i as int] != Some(text@)));
                        if like && fresh && self.writers[i] {
                            let mut b = vstd::slice::slice_to_vec(pw.as_str().as_bytes());
                            assert(b@ == vstd::utf8::encode_utf8(pw@));
                            b.push(10u8);
                            Some(b)
                        } else {
                            None
                        }
                    },
                    None => None,
                };
                let e = match answer {
                    Some(b) => {
                        self.last_pwd_prompt.set(i, Some(text.clone()));
                        Effect::SendBytes(i, b)
                    },
                    None => Effect::Nothing,
                };
                self.partials.set(i, text);
                proof {
                    assert(self@.partials =~= views(old_partials).update(i as int, m@->Partial_1));
                    assert(self@.last_pwd_prompt =~= old_last.map_values(
                        |o: Option<String>| opt_view(o),
                    ).update(i as int, Some(m@->Partial_1))
                        || self@.last_pwd_prompt =~= old_last.map_values(
                        |o: Option<String>| opt_view(o),
                    ));
                }
                e
            },
            Msg::Finished(i, ok) => {
                self.statuses.set(
                    i,
                    if ok {
                        ToolStatus::Done
                    } else {
                        ToolStatus::Failed
                    },
                );
                self.writers.set(i, false);
                self.last_pwd_prompt.set(i, None);
                if !self.partials[i].as_str().is_empty() {
                    let mut p = String::new();
                    self.partials.set_and_swap(i, &mut p);
                    let mut log: Vec<String> = Vec::new();
                    self.tool_logs.set_and_swap(i, &mut log);
                    let ghost log0 = log@;
                    log.push(p);
                    assert(views(log@) =~= views(log0).push(log@.last()@));
                    self.tool_logs.set(i, log);
                    proof {
                        assert(self@.tool_logs =~= old_logs.map_values(
                            |l: Vec<String>| views(l@),
                        ).update(i as int, views(old_logs[i as int]@).push(old_partials[i as int]@)));
                        assert(self@.partials =~= views(old_partials).update(
                            i as int,
                            Seq::empty(),
                        ));
                    }
                }
                proof {
                    assert(self@.last_pwd_prompt =~= old_last.map_values(
                        |o: Option<String>| opt_view(o),
                    ).update(i as int, None));
                }
                Effect::Nothing
            },
        }
    }
}

/// Law: a log holding at most `MAX_LOG_LINES` lines still does after a
/// new line arrives, and the new line is its last.
pub proof fn law_log_stays_capped(log: Seq<Seq<char>>, line: Seq<char>)
    requires
        log.len() <= MAX_LOG_LINES,
    ensures
        push_capped(log, line).len() <= MAX_LOG_LINES,
        push_capped(log, line).last() == line,
{
}

/// Law: the sudo password is sent at most once for the same prompt text: a
/// repeated partial line that was just answered is not answered again.
pub proof fn law_prompt_answered_once(
    inst: InstallView,
    pwd: Option<Seq<char>>,
    i: usize,
    text: Seq<char>,
)
    requires
        inst.wf(),
        i < TOOL_COUNT,
        spec_inst_msg(inst, pwd, MsgView::Partial(i, text)).1 is SendBytes,
    ensures
        spec_inst_msg(
            spec_inst_msg(inst, pwd, MsgView::Partial(i, text)).0,
            pwd,
            MsgView::Partial(i, text),
        ).1 is Nothing,
{
}

/// Law: a finished tool's terminal no longer receives input, and its
/// pending partial line is kept as the last log line.
pub proof fn law_finished_closes_terminal(inst: InstallView, pwd: Option<Seq<char>>, i: usize, ok: bool)
    requires
        inst.wf(),
        i < TOOL_COUNT,
    ensures
        !spec_inst_msg(inst, pwd, MsgView::Finished(i, ok)).0.writers[i as int],
        spec_inst_msg(inst, pwd, MsgView::Finished(i, ok)).0.partials[i as int].len() == 0,
        inst.partials[i as int].len() > 0 ==> spec_inst_msg(
            inst,
            pwd,
            MsgView::Finished(i, ok),
        ).0.tool_logs[i as int].last() == inst.partials[i as int],
{
}

/// Feeding tool `i` the partial lines `ps`, one message after another: the
/// final session and the effects, in order.
pub open spec fn partial_run(inst: InstallView, pwd: Option<Seq<char>>, i: usize, ps: Seq<Seq<char>>) -> (
    InstallView,
    Seq<EffectView>,
)
    decreases ps.len(),
{
    if ps.len() == 0 {
        (inst, Seq::empty())
    } else {
        let prev = partial_run(inst, pwd, i, ps.drop_last());
        let r = spec_inst_msg(prev.0, pwd, MsgView::Partial(i, ps.last()));
        (r.0, prev.1.push(r.1))
    }
}

/// Which of the partial lines `ps` are answered, starting from the prompt
/// text `last` answered before them: a line is answered when it looks like
/// a sudo prompt and differs from the last text answered. Returns the last
/// text answered at the end, and one flag per line.
pub open spec fn answered_flags(last: Option<Seq<char>>, ps: Seq<Seq<char>>) -> (
    Option<Seq<char>>,
    Seq<bool>,
)
    decreases ps.len(),
{
    if ps.len() == 0 {
        (last, Seq::empty())
    } else {
        let prev = answered_flags(last, ps.drop_last());
        let p = ps.last();
        if sudo_prompt_like(p) && prev.0 != Some(p) {
            (Some(p), prev.1.push(true))
        } else {
            (prev.0, prev.1.push(false))
        }
    }
}

/// The bytes that answer a sudo prompt: the password and a newline.
pub open spec fn password_answer(pw: Seq<char>) -> Seq<u8> {
    vstd::utf8::encode_utf8(pw).push(10u8)
}

/// Law: over a run of partial lines of one tool whose terminal accepts
/// input, the sudo password is sent, to that tool only, exactly for the
/// lines that look like a sudo prompt and differ from the last prompt text
/// answered; without a password nothing is ever sent. The tool's terminal
/// stays open and the last answered text is remembered.
pub proof fn law_sudo_answers_over_run(
    inst: InstallView,
    pwd: Option<Seq<char>>,
    i: usize,
    ps: Seq<Seq<char>>,
)
    requires
        inst.wf(),
        i < TOOL_COUNT,
        inst.writers[i as int],
    ensures
        ({
            let r = partial_run(inst, pwd, i, ps);
            let a = answered_flags(inst.last_pwd_prompt[i as int], ps);
            &&& r.1.len() == ps.len()
            &&& a.1.len() == ps.len()
            &&& r.0.writers == inst.writers
            &&& pwd is None ==> r.0.last_pwd_prompt == inst.last_pwd_prompt && forall|j: int|
                0 <= j < ps.len() ==> #[trigger] r.1[j] == EffectView::Nothing
            &&& pwd is Some ==> r.0.last_pwd_prompt == inst.last_pwd_prompt.update(i as int, a.0)
                && forall|j: int|
                0 <= j < ps.len() ==> #[trigger] r.1[j] == (if a.1[j] {
                    EffectView::SendBytes(i, password_answer(pwd->0))
                } else {
                    EffectView::Nothing
                })
        }),
    decreases ps.len(),
{
    if ps.len() == 0 {
        assert(inst.last_pwd_prompt.update(i as int, inst.last_pwd_prompt[i as int])
            =~= inst.last_pwd_prompt);
    } else {
        law_sudo_answers_over_run(inst, pwd, i, ps.drop_last());
        let prev = partial_run(inst, pwd, i, ps.drop_last());
        let ap = answered_flags(inst.last_pwd_prompt[i as int], ps.drop_last());
        let r = partial_run(inst, pwd, i, ps);
        let a = answered_flags(inst.last_pwd_prompt[i as int], ps);
        let p = ps.last();
        assert(r.1 == prev.1.push(spec_inst_msg(prev.0, pwd, MsgView::Partial(i, p)).1));
        assert(a.1 == ap.1.push(a.1.last()));
        if pwd is Some {
            assert(prev.0.last_pwd_prompt[i as int] == ap.0);
            if sudo_prompt_like(p) && ap.0 != Some(p) {
                assert(r.0.last_pwd_prompt =~= inst.last_pwd_prompt.update(i as int, a.0));
            }
            assert forall|j: int| 0 <= j < ps.len() implies #[trigger] r.1[j] == (if a.1[j] {
                EffectView::SendBytes(i, password_answer(pwd->0))
            } else {
                EffectView::Nothing
            }) by {
                if j < ps.len() - 1 {
                    assert(r.1[j] == prev.1[j]);
                    assert(a.1[j] == ap.1[j]);
                }
            }
        } else {
            assert forall|j: int| 0 <= j < ps.len() implies #[trigger] r.1[j]
                == EffectView::Nothing by {
                if j < ps.len() - 1 {
                    assert(r.1[j] == prev.1[j]);
                }
            }
        }
    }
}

/// Law: when every partial line of a run looks like a sudo prompt, the
/// first is answered unless its text was the last one answered before, and
/// each later one is answered exactly when its text differs from the line
/// before it; at the end the last line's text is the one remembered.
pub proof fn law_new_prompt_texts_answered(last: Option<Seq<char>>, ps: Seq<Seq<char>>)
    requires
        forall|j: int| 0 <= j < ps.len() ==> sudo_prompt_like(#[trigger] ps[j]),
    ensures
        answered_flags(last, ps).1.len() == ps.len(),
        ps.len() > 0 ==> answered_flags(last, ps).0 == Some(ps.last()),
        forall|j: int|
            0 <= j < ps.len() ==> #[trigger] answered_flags(last, ps).1[j] == (if j == 0 {
                last != Some(ps[0])
            } else {
                ps[j] != ps[j - 1]
            }),
    decreases ps.len(),
{
    if ps.len() > 0 {
        let q = ps.drop_last();
        assert forall|j: int| 0 <= j < q.len() implies sudo_prompt_like(#[trigger] q[j]) by {
            assert(q[j] == ps[j]);
        }
        law_new_prompt_texts_answered(last, q);
        assert(sudo_prompt_like(ps[ps.len() - 1]));
        let a = answered_flags(last, ps);
        let ap = answered_flags(last, q);
        assert(a.1 == ap.1.push(a.1.last()));
        assert forall|j: int| 0 <= j < ps.len() implies #[trigger] a.1[j] == (if j == 0 {
            last != Some(ps[0])
        } else {
            ps[j] != ps[j - 1]
        }) by {
            if j < ps.len() - 1 {
                assert(a.1[j] == ap.1[j]);
                assert(q[j] == ps[j]);
                if j > 0 {
                    assert(q[j - 1] == ps[j - 1]);
                }
            } else if j > 0 {
                assert(ap.0 == Some(q.last()));
                assert(q.last() == ps[j - 1]);
            }
        }
    }
}

proof fn lemma_visible_increasing(st: Seq<ToolStatus>)
    requires
        st.len() <= usize::MAX,
    ensures
        forall|a: int, b: int|
            0 <= a < b < visible_of(st).len() ==> #[trigger] visible_of(st)[a] < #[trigger] visible_of(
                st,
            )[b],
        forall|a: int| 0 <= a < visible_of(st).len() ==> #[trigger] visible_of(st)[a] < st.len(),
    decreases st.len(),
{
    if st.len() > 0 {
        lemma_visible_increasing(st.drop_last());
        let prev = visible_of(st.drop_last());
        if st.last() != ToolStatus::NotSelected {
            assert(visible_of(st) == prev.push((st.len() - 1) as usize));
            assert forall|a: int, b: int|
                0 <= a < b < visible_of(st).len() implies #[trigger] visible_of(st)[a]
                < #[trigger] visible_of(st)[b] by {
                assert(visible_of(st)[a] == prev[a]);
                if b < prev.len() {
                    assert(visible_of(st)[b] == prev[b]);
                } else {
                    assert(visible_of(st)[b] == st.len() - 1);
                    assert(a < prev.len());
                    assert(visible_of(st.drop_last())[a] < st.drop_last().len());
                }
            }
            assert forall|a: int| 0 <= a < visible_of(st).len() implies #[trigger] visible_of(
                st,
            )[a] < st.len() by {
                if a < prev.len() {
                    assert(visible_of(st)[a] == prev[a]);
                }
            }
        }
    }
}

proof fn lemma_pos_from_finds(vis: Seq<usize>, c: usize, j: int, p: int)
    requires
        0 <= j <= p < vis.len(),
        vis[p] == c,
        forall|a: int, b: int| 0 <= a < b < vis.len() ==> #[trigger] vis[a] < #[trigger] vis[b],
    ensures
        pos_from(vis, c, j) == Some(p),
    decreases p - j,
{
    if j < p {
        assert(vis[j] < vis[p]);
        lemma_pos_from_finds(vis, c, j + 1, p);
    }
}

/// The highlighted tool stands at position `p` of the tools taking part.
pub open spec fn highlight_at(inst: InstallView, p: int) -> bool {
    0 <= p < visible_of(inst.statuses).len() && visible_of(inst.statuses)[p] == inst.cursor
}

/// `x + n`, or `usize::MAX` where that does not fit.
pub open spec fn plus_capped(x: usize, n: usize) -> int {
    if x + n <= usize::MAX {
        x + n
    } else {
        usize::MAX as int
    }
}

/// `x - n`, or 0 where that would be negative.
pub open spec fn minus_floored(x: usize, n: usize) -> int {
    if x >= n {
        x - n
    } else {
        0
    }
}

/// Law: in the install list (nothing expanded), Up moves the highlight to
/// the previous tool taking part and Down to the next one, and the list
/// selection follows; at the first (last) tool Up (Down) changes nothing.
/// Where the highlighted tool has no terminal, `k` and `j` do the same as
/// Up and Down. None of these keys leaves the screen or has an effect.
pub proof fn law_list_keys_move_highlight(inst: InstallView, p: int, k: Key, ctrl: bool)
    requires
        inst.wf(),
        inst.attached is None,
        highlight_at(inst, p),
        k == Key::Up || k == Key::Down || (!inst.writers[inst.cursor as int] && (k == Key::Char('k')
            || k == Key::Char('j'))),
    ensures
        ({
            let vis = visible_of(inst.statuses);
            let r = spec_inst_key(inst, k, ctrl);
            let up = k == Key::Up || k == Key::Char('k');
            &&& !r.1
            &&& r.2 == EffectView::Nothing
            &&& r.0.scroll_offset == inst.scroll_offset
            &&& r.0.attached is None
            &&& up && p > 0 ==> r.0.cursor == vis[p - 1] && r.0.list_selected == Some((p - 1) as usize)
            &&& up && p == 0 ==> r.0 == inst
            &&& !up && p + 1 < vis.len() ==> r.0.cursor == vis[p + 1] && r.0.list_selected == Some(
                (p + 1) as usize,
            )
            &&& !up && p + 1 == vis.len() ==> r.0 == inst
            &&& up ==> r.0.cursor <= inst.cursor
            &&& !up ==> r.0.cursor >= inst.cursor
        }),
{
    let vis = visible_of(inst.statuses);
    lemma_visible_increasing(inst.statuses);
    lemma_pos_from_finds(vis, inst.cursor, 0, p);
    assert(pos_or_zero(vis, inst.cursor) == p);
    if p > 0 {
        assert(vis[p - 1] < vis[p]);
    }
    if p + 1 < vis.len() {
        assert(vis[p] < vis[p + 1]);
    }
}

/// Law: PageUp scrolls the output back (the offset from the bottom grows)
/// and PageDown forward, by ten lines while a tool is expanded and by five
/// in the list, never past the bottom; they change nothing else.
pub proof fn law_page_keys_scroll(inst: InstallView, k: Key, ctrl: bool)
    requires
        inst.wf(),
        visible_of(inst.statuses).len() > 0,
        k == Key::PageUp || k == Key::PageDown,
    ensures
        ({
            let r = spec_inst_key(inst, k, ctrl);
            let n: usize = if inst.attached is Some {
                10
            } else {
                5
            };
            &&& !r.1
            &&& r.2 == EffectView::Nothing
            &&& r.0 == (InstallView { scroll_offset: r.0.scroll_offset, ..inst })
            &&& k == Key::PageUp ==> r.0.scroll_offset == plus_capped(inst.scroll_offset, n)
            &&& k == Key::PageDown ==> r.0.scroll_offset == minus_floored(inst.scroll_offset, n)
            &&& k == Key::PageUp ==> r.0.scroll_offset >= inst.scroll_offset
            &&& k == Key::PageDown ==> r.0.scroll_offset <= inst.scroll_offset
        }),
{
}

/// Law: while a tool's output is expanded, the mouse wheel scrolls it by
/// three lines: up goes back (the offset from the bottom grows), down goes
/// forward, never past the bottom; nothing else changes.
pub proof fn law_wheel_scrolls_expanded_output(inst: InstallView, kind: MouseKind, col: u16, row: u16)
    requires
        inst.attached is Some,
        kind == MouseKind::ScrollUp || kind == MouseKind::ScrollDown,
    ensures
        ({
            let r = spec_inst_mouse(inst, kind, col, row);
            &&& r == (InstallView { scroll_offset: r.scroll_offset, ..inst })
            &&& kind == MouseKind::ScrollUp ==> r.scroll_offset == plus_capped(inst.scroll_offset, 3)
                && r.scroll_offset >= inst.scroll_offset
            &&& kind == MouseKind::ScrollDown ==> r.scroll_offset == minus_floored(
                inst.scroll_offset,
                3,
            ) && r.scroll_offset <= inst.scroll_offset
        }),
{
}

/// Law: in the list, the wheel over the output preview scrolls it by three
/// lines (up goes back), and elsewhere moves the highlight: up to the
/// previous tool taking part, down to the next.
pub proof fn law_wheel_in_list(inst: InstallView, p: int, kind: MouseKind, col: u16, row: u16)
    requires
        inst.wf(),
        inst.attached is None,
        highlight_at(inst, p),
        kind == MouseKind::ScrollUp || kind == MouseKind::ScrollDown,
    ensures
        ({
            let vis = visible_of(inst.statuses);
            let r = spec_inst_mouse(inst, kind, col, row);
            let up = kind == MouseKind::ScrollUp;
            &&& inst.layout.preview.contains(col, row) ==> r == (InstallView {
                scroll_offset: if up {
                    plus_capped(inst.scroll_offset, 3) as usize
                } else {
                    minus_floored(inst.scroll_offset, 3) as usize
                },
                ..inst
            })
            &&& !inst.layout.preview.contains(col, row) && up && p > 0 ==> r.cursor == vis[p - 1]
                && r.list_selected == Some((p - 1) as usize)
            &&& !inst.layout.preview.contains(col, row) && !up && p + 1 < vis.len() ==> r.cursor
                == vis[p + 1] && r.list_selected == Some((p + 1) as usize)
            &&& !inst.layout.preview.contains(col, row) ==> r.scroll_offset == inst.scroll_offset
        }),
{
    let vis = visible_of(inst.statuses);
    lemma_visible_increasing(inst.statuses);
    lemma_pos_from_finds(vis, inst.cursor, 0, p);
}

} // verus!
