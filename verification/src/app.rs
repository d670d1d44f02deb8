//! The interactive installer as a state machine: selecting tools, the sudo
//! password prompt, starting and extending an install session, and the
//! post-install prompt. Each step takes the state and an input and returns
//! the effect its driver must perform.
use vstd::prelude::*;
use crate::layout::Rect;
use crate::session::{
    any_needs_lock, any_tool_needs_lock, chosen, chosen_of, visible_indices, visible_of,
    with_post_install,
};
use crate::state::{
    App, AppView, Effect, EffectView, InstallLayout, InstallState, InstallView, Phase, PhaseView,
    ToolStatus,
};
use crate::text::{opt_view, pop_char, push_char, views};
use crate::tool::{TOOL_COUNT, Tool};
use crate::keys::{Key, MouseKind};
use crate::install::{spec_inst_key, spec_inst_mouse, spec_inst_msg};
use crate::layout::{point_in, row_in_list, spec_row_in_list};
use crate::session::spec_all_done;
use crate::state::{Msg, MsgView, PostPrompt, PostPromptView};

verus! {

broadcast use vstd::string::group_string_axioms;

/// The state the application starts in.
pub open spec fn spec_new_app() -> AppView {
    AppView {
        cursor: 0,
        checked: Seq::new(TOOL_COUNT as nat, |i: int| false),
        list_selected: Some(0),
        select_list_rect: Rect::spec_zero(),
        install: None,
        phase: PhaseView::Selecting,
        tick: 0,
        sudo_password: None,
    }
}

/// Install statuses at the start of a session: the chosen tools pending.
pub open spec fn statuses_for(chosen: Seq<Tool>) -> Seq<ToolStatus> {
    Seq::new(
        TOOL_COUNT as nat,
        |i: int|
            if chosen.contains(Tool::spec_at(i)) {
                ToolStatus::Pending
            } else {
                ToolStatus::NotSelected
            },
    )
}

pub open spec fn zero_layout() -> InstallLayout {
    InstallLayout {
        status_list: Rect::spec_zero(),
        preview: Rect::spec_zero(),
        attached_view: Rect::spec_zero(),
    }
}

/// A fresh install session for the chosen tools.
pub open spec fn begun(chosen: Seq<Tool>) -> InstallView {
    let st = statuses_for(chosen);
    let vis = visible_of(st);
    InstallView {
        statuses: st,
        tool_logs: Seq::new(TOOL_COUNT as nat, |i: int| Seq::<Seq<char>>::empty()),
        partials: Seq::new(TOOL_COUNT as nat, |i: int| Seq::<char>::empty()),
        writers: Seq::new(TOOL_COUNT as nat, |i: int| false),
        pending_prompts: with_post_install(chosen),
        cursor: if vis.len() > 0 {
            vis[0]
        } else {
            0
        },
        list_selected: Some(0),
        attached: None,
        scroll_offset: 0,
        layout: zero_layout(),
        last_pwd_prompt: Seq::new(TOOL_COUNT as nat, |i: int| None::<Seq<char>>),
    }
}

/// Adding tools to a running session: tools already pending, running or
/// done are skipped; the others become pending, queue their post-install
/// prompt once, and are handed to the scheduler. Returns the new statuses,
/// prompts, and the tools handed over.
pub open spec fn add_fold(st: Seq<ToolStatus>, prompts: Seq<Tool>, chosen: Seq<Tool>) -> (
    Seq<ToolStatus>,
    Seq<Tool>,
    Seq<Tool>,
)
    decreases chosen.len(),
{
    if chosen.len() == 0 {
        (st, prompts, Seq::empty())
    } else {
        let prev = add_fold(st, prompts, chosen.drop_last());
        let t = chosen.last();
        let idx = t.spec_index() as int;
        let s = prev.0[idx];
        if s == ToolStatus::Pending || s == ToolStatus::Running || s == ToolStatus::Done {
            prev
        } else {
            (
                prev.0.update(idx, ToolStatus::Pending),
                if t.spec_has_post_install() && !prev.1.contains(t) {
                    prev.1.push(t)
                } else {
                    prev.1
                },
                prev.2.push(t),
            )
        }
    }
}

/// Starting (or extending) the install with the chosen tools: the
/// selection is cleared and the install view is shown.
pub open spec fn spec_proceed(a: AppView, chosen: Seq<Tool>) -> (AppView, EffectView) {
    let cleared = Seq::new(a.checked.len(), |i: int| false);
    match a.install {
        None => (
            AppView {
                install: Some(begun(chosen)),
                checked: cleared,
                phase: PhaseView::Installing,
                ..a
            },
            EffectView::StartInstall(chosen),
        ),
        Some(inst) => {
            let f = add_fold(inst.statuses, inst.pending_prompts, chosen);
            (
                AppView {
                    install: Some(InstallView { statuses: f.0, pending_prompts: f.1, ..inst }),
                    checked: cleared,
                    phase: PhaseView::Installing,
                    ..a
                },
                if f.2.len() > 0 {
                    EffectView::AddTools(f.2)
                } else {
                    EffectView::Nothing
                },
            )
        },
    }
}

/// Confirming the selection.
pub open spec fn spec_submit(a: AppView) -> (AppView, EffectView) {
    let c = chosen_of(a.checked);
    if c.len() == 0 {
        if a.install is Some {
            (AppView { phase: PhaseView::Installing, ..a }, EffectView::Nothing)
        } else {
            (a, EffectView::Nothing)
        }
    } else if any_needs_lock(c) && a.sudo_password is None {
        (
            AppView {
                phase: PhaseView::SudoPrompt { input: Seq::empty(), error: None, pending: c },
                ..a
            },
            EffectView::Nothing,
        )
    } else {
        spec_proceed(a, c)
    }
}

/// Moving the selection cursor up or down one row.
pub open spec fn spec_move(a: AppView, up: bool) -> AppView {
    if up {
        if a.cursor > 0 {
            AppView {
                cursor: (a.cursor - 1) as usize,
                list_selected: Some((a.cursor - 1) as usize),
                ..a
            }
        } else {
            a
        }
    } else {
        if a.cursor + 1 < TOOL_COUNT {
            AppView {
                cursor: (a.cursor + 1) as usize,
                list_selected: Some((a.cursor + 1) as usize),
                ..a
            }
        } else {
            a
        }
    }
}

/// Toggling a tool's box; tools pending, running or done in the session
/// cannot be toggled.
pub open spec fn spec_toggle(a: AppView, idx: int) -> AppView {
    if a.install matches Some(inst) && (inst.statuses[idx] == ToolStatus::Pending
        || inst.statuses[idx] == ToolStatus::Running || inst.statuses[idx] == ToolStatus::Done) {
        a
    } else {
        AppView { checked: a.checked.update(idx, !a.checked[idx]), ..a }
    }
}

/// Checking every box, or clearing them all when all are checked.
pub open spec fn spec_toggle_all(a: AppView) -> AppView {
    let all = forall|i: int| 0 <= i < a.checked.len() ==> #[trigger] a.checked[i];
    AppView { checked: Seq::new(a.checked.len(), |i: int| !all), ..a }
}

/// A key pressed while selecting tools.
pub open spec fn spec_select_key(a: AppView, k: Key) -> (AppView, EffectView) {
    match k {
        Key::Char('q') => (a, EffectView::Quit),
        Key::Esc => if a.install is Some {
            (AppView { phase: PhaseView::Installing, ..a }, EffectView::Nothing)
        } else {
            (a, EffectView::Quit)
        },
        Key::Up | Key::Char('k') => (spec_move(a, true), EffectView::Nothing),
        Key::Down | Key::Char('j') => (spec_move(a, false), EffectView::Nothing),
        Key::Char(' ') => (spec_toggle(a, a.cursor as int), EffectView::Nothing),
        Key::Char('a') => (spec_toggle_all(a), EffectView::Nothing),
        Key::Enter => spec_submit(a),
        _ => (a, EffectView::Nothing),
    }
}

/// A key pressed in the sudo password prompt.
pub open spec fn spec_sudo_key(a: AppView, k: Key) -> (AppView, EffectView) {
    match a.phase {
        PhaseView::SudoPrompt { input, error, pending } => match k {
            Key::Char(c) => (
                AppView {
                    phase: PhaseView::SudoPrompt { input: input.push(c), error, pending },
                    ..a
                },
                EffectView::Nothing,
            ),
            Key::Backspace => (
                AppView {
                    phase: PhaseView::SudoPrompt {
                        input: if input.len() > 0 {
                            input.drop_last()
                        } else {
                            input
                        },
                        error,
                        pending,
                    },
                    ..a
                },
                EffectView::Nothing,
            ),
            Key::Esc => spec_proceed(
                AppView { phase: PhaseView::Selecting, sudo_password: None, ..a },
                pending,
            ),
            Key::Enter => spec_proceed(
                AppView {
                    phase: PhaseView::Selecting,
                    sudo_password: if input.len() == 0 {
                        None
                    } else {
                        Some(input)
                    },
                    ..a
                },
                pending,
            ),
            _ => (a, EffectView::Nothing),
        },
        _ => (a, EffectView::Nothing),
    }
}

/// A key pressed in the post-install prompt.
pub open spec fn spec_post_key(a: AppView, k: Key) -> (AppView, EffectView) {
    match a.phase {
        PhaseView::PostInstall(p) => match k {
            Key::Char(c) => (
                AppView {
                    phase: PhaseView::PostInstall(
                        crate::state::PostPromptView { input: p.input.push(c), ..p },
                    ),
                    ..a
                },
                EffectView::Nothing,
            ),
            Key::Backspace => (
                AppView {
                    phase: PhaseView::PostInstall(
                        crate::state::PostPromptView {
                            input: if p.input.len() > 0 {
                                p.input.drop_last()
                            } else {
                                p.input
                            },
                            ..p
                        },
                    ),
                    ..a
                },
                EffectView::Nothing,
            ),
            Key::Esc => (AppView { phase: PhaseView::Done, ..a }, EffectView::Nothing),
            Key::Enter => (a, EffectView::RunPostInstall(p.tool, p.input)),
            _ => (a, EffectView::Nothing),
        },
        _ => (a, EffectView::Nothing),
    }
}

impl App {
    pub fn new() -> (a: App)
        ensures
            a@ == spec_new_app(),
            a@.wf(),
    {
        let mut checked: Vec<bool> = Vec::new();
        let mut i: usize = 0;
        while i < TOOL_COUNT
            invariant
                i <= TOOL_COUNT,
                checked@ == Seq::new(i as nat, |k: int| false),
            decreases TOOL_COUNT - i,
        {
            checked.push(false);
            i += 1;
            assert(checked@ =~= Seq::new(i as nat, |k: int| false));
        }
        App {
            cursor: 0,
            checked,
            list_selected: Some(0),
            select_list_rect: Rect::zero(),
            install: None,
            phase: Phase::Selecting,
            tick: 0,
            sudo_password: None,
        }
    }

    /// The checked tools, in catalogue order.
    pub fn chosen(&self) -> (v: Vec<Tool>)
        requires
            self@.wf(),
        ensures
            v@ == chosen_of(self@.checked),
    {
        chosen(&self.checked)
    }

    /// Number of checked tools.
    pub fn checked_count(&self) -> (n: usize)
        ensures
            n == crate::session::count_true(self@.checked),
    {
        crate::session::checked_count(&self.checked)
    }

    fn clear_checked(&mut self)
        ensures
            final(self)@ == (AppView {
                checked: Seq::new(old(self)@.checked.len(), |i: int| false),
                ..old(self)@
            }),
    {
        let mut i: usize = 0;
        while i < self.checked.len()
            invariant
                i <= self.checked.len() == old(self).checked.len(),
                forall|k: int| 0 <= k < i ==> !self.checked@[k],
                self@ == (AppView { checked: self@.checked, ..old(self)@ }),
            decreases self.checked.len() - i,
        {
            self.checked.set(i, false);
            i += 1;
        }
        assert(self@.checked =~= Seq::new(old(self)@.checked.len(), |i: int| false));
    }
}

/// A fresh install session for `chosen`.
fn begin_state(chosen: &Vec<Tool>) -> (inst: InstallState)
    ensures
        inst@ == begun(chosen@),
        inst@.wf(),
{
    let mut statuses: Vec<ToolStatus> = Vec::new();
    let mut tool_logs: Vec<Vec<String>> = Vec::new();
    let mut partials: Vec<String> = Vec::new();
    let mut writers: Vec<bool> = Vec::new();
    let mut last: Vec<Option<String>> = Vec::new();
    let mut i: usize = 0;
    while i < TOOL_COUNT
        invariant
            i <= TOOL_COUNT,
            statuses@ == Seq::new(i as nat, |k: int| ToolStatus::NotSelected),
            tool_logs@.len() == i,
            forall|k: int| 0 <= k < i ==> (#[trigger] tool_logs@[k])@.len() == 0,
            partials@.len() == i,
            forall|k: int| 0 <= k < i ==> (#[trigger] partials@[k])@.len() == 0,
            writers@ == Seq::new(i as nat, |k: int| false),
            last@ == Seq::new(i as nat, |k: int| None::<String>),
        decreases TOOL_COUNT - i,
    {
        statuses.push(ToolStatus::NotSelected);
        tool_logs.push(Vec::new());
        partials.push(String::new());
        writers.push(false);
        last.push(None);
        i += 1;
        assert(statuses@ =~= Seq::new(i as nat, |k: int| ToolStatus::NotSelected));
        assert(writers@ =~= Seq::new(i as nat, |k: int| false));
        assert(last@ =~= Seq::new(i as nat, |k: int| None::<String>));
    }
    let mut j: usize = 0;
    while j < chosen.len()
        invariant
            j <= chosen.len(),
            statuses@ == statuses_for(chosen@.take(j as int)),
        decreases chosen.len() - j,
    {
        let t = chosen[j];
        statuses.set(t.index(), ToolStatus::Pending);
        proof {
            let prev = chosen@.take(j as int);
            let next = chosen@.take(j + 1);
            assert(next == prev.push(t));
            assert forall|k: int| 0 <= k < TOOL_COUNT implies #[trigger] statuses@[k]
                == statuses_for(next)[k] by {
                crate::tool::law_index_round_trip(t, k);
                crate::tool::law_index_round_trip(Tool::spec_at(k), k);
                if Tool::spec_at(k) == t {
                    assert(next[j as int] == t);
                } else {
                    if next.contains(Tool::spec_at(k)) {
                        let w = choose|w: int| 0 <= w < next.len() && next[w] == Tool::spec_at(k);
                        assert(w < j);
                        assert(prev[w] == Tool::spec_at(k));
                    }
                    if prev.contains(Tool::spec_at(k)) {
                        let w = choose|w: int| 0 <= w < prev.len() && prev[w] == Tool::spec_at(k);
                        assert(next[w] == Tool::spec_at(k));
                    }
                }
            }
            assert(statuses@ =~= statuses_for(next));
        }
        j += 1;
    }
    assert(chosen@.take(chosen.len() as int) == chosen@);
    let vis = visible_indices(&statuses);
    let cursor = if vis.len() > 0 {
        vis[0]
    } else {
        0
    };
    let mut prompts: Vec<Tool> = Vec::new();
    let mut k: usize = 0;
    while k < chosen.len()
        invariant
            k <= chosen.len(),
            prompts@ == with_post_install(chosen@.take(k as int)),
            forall|w: int|
                0 <= w < prompts@.len() ==> (#[trigger] prompts@[w]).spec_has_post_install(),
        decreases chosen.len() - k,
    {
        assert(chosen@.take(k + 1).drop_last() == chosen@.take(k as int));
        if chosen[k].has_post_install() {
            prompts.push(chosen[k]);
        }
        k += 1;
    }
    assert(chosen@.take(chosen.len() as int) == chosen@);
    let inst = InstallState {
        statuses,
        tool_logs,
        partials,
        writers,
        pending_prompts: prompts,
        cursor,
        list_selected: Some(0),
        attached: None,
        scroll_offset: 0,
        layout: InstallLayout::zero(),
        last_pwd_prompt: last,
    };
    assert forall|k: int| 0 <= k < TOOL_COUNT implies #[trigger] inst@.tool_logs[k]
        == Seq::<Seq<char>>::empty() by {
        assert(inst.tool_logs@[k]@.len() == 0);
        assert(views(inst.tool_logs@[k]@) =~= Seq::<Seq<char>>::empty());
    }
    assert forall|k: int| 0 <= k < TOOL_COUNT implies #[trigger] inst@.partials[k]
        == Seq::<char>::empty() by {
        assert(inst.partials@[k]@.len() == 0);
    }
    assert(inst@.tool_logs =~= Seq::new(TOOL_COUNT as nat, |i: int| Seq::<Seq<char>>::empty()));
    assert(inst@.partials =~= Seq::new(TOOL_COUNT as nat, |i: int| Seq::<char>::empty()));
    assert(inst@.last_pwd_prompt =~= Seq::new(TOOL_COUNT as nat, |i: int| None::<Seq<char>>));
    inst
}

fn contains_tool(v: &Vec<Tool>, t: Tool) -> (b: bool)
    ensures
        b == v@.contains(t),
{
    let mut i: usize = 0;
    while i < v.len()
        invariant
            i <= v.len(),
            forall|k: int| 0 <= k < i ==> v@[k] != t,
        decreases v.len() - i,
    {
        if v[i] == t {
            return true;
        }
        i += 1;
    }
    false
}

/// Adds tools to a running session; returns the tools to hand over.
fn add_tools(inst: &mut InstallState, chosen: &Vec<Tool>) -> (added: Vec<Tool>)
    requires
        old(inst)@.wf(),
    ensures
        ({
            let f = add_fold(old(inst)@.statuses, old(inst)@.pending_prompts, chosen@);
            &&& final(inst)@ == (InstallView {
                statuses: f.0,
                pending_prompts: f.1,
                ..old(inst)@
            })
            &&& added@ == f.2
        }),
        final(inst)@.wf(),
{
    let mut added: Vec<Tool> = Vec::new();
    let mut j: usize = 0;
    while j < chosen.len()
        invariant
            j <= chosen.len(),
            old(inst)@.wf(),
            inst@.wf(),
            ({
                let f = add_fold(old(inst)@.statuses, old(inst)@.pending_prompts, chosen@.take(j as int));
                &&& inst@ == (InstallView {
                    statuses: f.0,
                    pending_prompts: f.1,
                    ..old(inst)@
                })
                &&& added@ == f.2
            }),
        decreases chosen.len() - j,
    {
        assert(chosen@.take(j + 1).drop_last() == chosen@.take(j as int));
        let t = chosen[j];
        let idx = t.index();
        let s = inst.statuses[idx];
        let ghost pp0 = inst.pending_prompts@;
        assert(forall|w: int| 0 <= w < pp0.len() ==> (#[trigger] pp0[w]).spec_has_post_install()) by {
            assert forall|w: int| 0 <= w < pp0.len() implies (#[trigger] pp0[w]).spec_has_post_install() by {
                assert(inst@.pending_prompts[w] == pp0[w]);
            }
        }
        if s == ToolStatus::Pending || s == ToolStatus::Running || s == ToolStatus::Done {
        } else {
            inst.statuses.set(idx, ToolStatus::Pending);
            if t.has_post_install() && !contains_tool(&inst.pending_prompts, t) {
                let ghost before = inst.pending_prompts@;
                inst.pending_prompts.push(t);
                assert forall|w: int| 0 <= w < inst.pending_prompts@.len() implies (
                #[trigger] inst.pending_prompts@[w]).spec_has_post_install() by {
                    if w < before.len() {
                        assert(inst.pending_prompts@[w] == before[w]);
                        assert(before == pp0);
                    } else {
                        assert(inst.pending_prompts@[w] == t);
                    }
                }
            }
            added.push(t);
        }
        j += 1;
    }
    assert(chosen@.take(chosen.len() as int) == chosen@);
    added
}

impl App {
    /// Starting the install with `chosen`, or adding it to the running one.
    fn proceed_to_install(&mut self, chosen: Vec<Tool>) -> (e: Effect)
        requires
            old(self)@.wf(),
        ensures
            (final(self)@, e@) == spec_proceed(old(self)@, chosen@),
            final(self)@.wf(),
    {
        let e = match self.install.take() {
            None => {
                let inst = begin_state(&chosen);
                self.install = Some(inst);
                Effect::StartInstall(chosen)
            },
            Some(mut inst) => {
                let added = add_tools(&mut inst, &chosen);
                self.install = Some(inst);
                if added.len() > 0 {
                    Effect::AddTools(added)
                } else {
                    Effect::Nothing
                }
            },
        };
        self.clear_checked();
        self.phase = Phase::Installing;
        e
    }

    /// Confirming the selection.
    fn submit_selection(&mut self) -> (e: Effect)
        requires
            old(self)@.wf(),
        ensures
            (final(self)@, e@) == spec_submit(old(self)@),
            final(self)@.wf(),
    {
        let c = self.chosen();
        if c.len() == 0 {
            if self.install.is_some() {
                self.phase = Phase::Installing;
            }
            return Effect::Nothing;
        }
        let needs_sudo = any_tool_needs_lock(&c);
        if needs_sudo && self.sudo_password.is_none() {
            self.phase = Phase::SudoPrompt { input: String::new(), error: None, pending: c };
            return Effect::Nothing;
        }
        self.proceed_to_install(c)
    }

    fn toggle_checked(&mut self, idx: usize)
        requires
            old(self)@.wf(),
            idx < TOOL_COUNT,
        ensures
            final(self)@ == spec_toggle(old(self)@, idx as int),
            final(self)@.wf(),
    {
        match &self.install {
            Some(inst) => {
                let s = inst.statuses[idx];
                if s == ToolStatus::Pending || s == ToolStatus::Running || s == ToolStatus::Done {
                    return;
                }
            },
            None => {},
        }
        let v = self.checked[idx];
        self.checked.set(idx, !v);
    }

    fn toggle_all(&mut self)
        requires
            old(self)@.wf(),
        ensures
            final(self)@ == spec_toggle_all(old(self)@),
            final(self)@.wf(),
    {
        let mut all = true;
        let mut i: usize = 0;
        while i < self.checked.len()
            invariant
                i <= self.checked.len(),
                all == forall|k: int| 0 <= k < i ==> #[trigger] self.checked@[k],
            decreases self.checked.len() - i,
        {
            if !self.checked[i] {
                all = false;
            }
            i += 1;
        }
        let mut j: usize = 0;
        while j < self.checked.len()
            invariant
                j <= self.checked.len() == old(self).checked.len(),
                all == forall|k: int| 0 <= k < old(self)@.checked.len() ==> #[trigger] old(self)@.checked[k],
                forall|k: int| 0 <= k < j ==> self.checked@[k] == !all,
                self@ == (AppView { checked: self@.checked, ..old(self)@ }),
            decreases self.checked.len() - j,
        {
            self.checked.set(j, !all);
            j += 1;
        }
        assert(self@.checked =~= Seq::new(old(self)@.checked.len(), |i: int| !all));
    }

    /// A key pressed while selecting tools.
    fn handle_select_key(&mut self, k: Key) -> (e: Effect)
        requires
            old(self)@.wf(),
        ensures
            (final(self)@, e@) == spec_select_key(old(self)@, k),
            final(self)@.wf(),
    {
        match k {
            Key::Char('q') => Effect::Quit,
            Key::Esc => {
                if self.install.is_some() {
                    self.phase = Phase::Installing;
                    Effect::Nothing
                } else {
                    Effect::Quit
                }
            },
            Key::Up | Key::Char('k') => {
                if self.cursor > 0 {
                    self.cursor = self.cursor - 1;
                    self.list_selected = Some(self.cursor);
                }
                Effect::Nothing
            },
            Key::Down | Key::Char('j') => {
                if self.cursor + 1 < TOOL_COUNT {
                    self.cursor = self.cursor + 1;
                    self.list_selected = Some(self.cursor);
                }
                Effect::Nothing
            },
            Key::Char(' ') => {
                let c = self.cursor;
                self.toggle_checked(c);
                Effect::Nothing
            },
            Key::Char('a') => {
                self.toggle_all();
                Effect::Nothing
            },
            Key::Enter => self.submit_selection(),
            _ => Effect::Nothing,
        }
    }
}

/// The first queued prompt, at or after `j`, whose tool finished successfully.
pub open spec fn first_done_prompt(pp: Seq<Tool>, st: Seq<ToolStatus>, j: int) -> Option<int>
    decreases pp.len() - j,
{
    if j < 0 || j >= pp.len() {
        None
    } else if st[pp[j].spec_index() as int] == ToolStatus::Done {
        Some(j)
    } else {
        first_done_prompt(pp, st, j + 1)
    }
}

/// The post-install prompt of a tool.
pub open spec fn spec_make_prompt(t: Tool) -> PostPromptView {
    PostPromptView {
        tool: t,
        label: "Set password for postgres superuser"@,
        input: Seq::empty(),
        error: None,
    }
}

/// Once every tool has finished and no output is expanded, the first queued
/// post-install prompt of a tool that succeeded is shown; when no queued
/// tool succeeded the queue is dropped.
pub open spec fn spec_check_prompts(a: AppView) -> AppView {
    if a.phase is Installing && a.install is Some && spec_all_done(a.install->0.statuses)
        && a.install->0.pending_prompts.len() > 0 && a.install->0.attached is None {
        let inst = a.install->0;
        match first_done_prompt(inst.pending_prompts, inst.statuses, 0) {
            Some(j) => AppView {
                install: Some(
                    InstallView { pending_prompts: inst.pending_prompts.remove(j), ..inst },
                ),
                phase: PhaseView::PostInstall(spec_make_prompt(inst.pending_prompts[j])),
                ..a
            },
            None => AppView {
                install: Some(InstallView { pending_prompts: Seq::empty(), ..inst }),
                ..a
            },
        }
    } else {
        a
    }
}

/// A key in the install view.
pub open spec fn spec_install_key(a: AppView, k: Key, ctrl: bool) -> (AppView, EffectView) {
    match a.install {
        None => (a, EffectView::Nothing),
        Some(inst) => {
            let r = spec_inst_key(inst, k, ctrl);
            (
                AppView {
                    install: Some(r.0),
                    phase: if r.1 {
                        PhaseView::Selecting
                    } else {
                        a.phase
                    },
                    ..a
                },
                r.2,
            )
        },
    }
}

/// A key press, dispatched by phase.
pub open spec fn spec_handle_key(a: AppView, k: Key, ctrl: bool) -> (AppView, EffectView) {
    match a.phase {
        PhaseView::Selecting => spec_select_key(a, k),
        PhaseView::SudoPrompt { .. } => spec_sudo_key(a, k),
        PhaseView::Installing => spec_install_key(a, k, ctrl),
        PhaseView::PostInstall(_) => spec_post_key(a, k),
        PhaseView::Done => (a, EffectView::Quit),
    }
}

/// A mouse event, dispatched by phase.
pub open spec fn spec_handle_mouse(a: AppView, kind: MouseKind, col: u16, row: u16) -> AppView {
    match a.phase {
        PhaseView::Selecting => if kind == MouseKind::LeftDown {
            if a.select_list_rect.contains(col, row) {
                match spec_row_in_list(row, a.select_list_rect, TOOL_COUNT) {
                    Some(i) => AppView { cursor: i, list_selected: Some(i), ..a },
                    None => a,
                }
            } else {
                a
            }
        } else if kind == MouseKind::ScrollUp {
            spec_move(a, true)
        } else if kind == MouseKind::ScrollDown {
            spec_move(a, false)
        } else {
            a
        },
        PhaseView::Installing => match a.install {
            None => a,
            Some(inst) => AppView { install: Some(spec_inst_mouse(inst, kind, col, row)), ..a },
        },
        _ => a,
    }
}

/// Absorbing a worker message.
pub open spec fn spec_apply_message(a: AppView, m: MsgView) -> (AppView, EffectView) {
    match a.install {
        None => (a, EffectView::Nothing),
        Some(inst) => {
            let r = spec_inst_msg(inst, a.sudo_password, m);
            (AppView { install: Some(r.0), ..a }, r.1)
        },
    }
}

/// The outcome of the post-install configuration: success ends the
/// session; a failure is shown in the prompt.
pub open spec fn spec_post_install_done(a: AppView, r: Result<(), Seq<char>>) -> AppView {
    match r {
        Ok(_) => AppView { phase: PhaseView::Done, ..a },
        Err(e) => match a.phase {
            PhaseView::PostInstall(p) => AppView {
                phase: PhaseView::PostInstall(PostPromptView { error: Some(e), ..p }),
                ..a
            },
            _ => a,
        },
    }
}

/// The post-install prompt for a tool that has one.
pub fn make_prompt(tool: Tool) -> (p: PostPrompt)
    requires
        tool.spec_has_post_install(),
    ensures
        p@ == spec_make_prompt(tool),
{
    PostPrompt {
        tool,
        label: "Set password for postgres superuser".to_string(),
        input: String::new(),
        error: None,
    }
}

fn first_done(pp: &Vec<Tool>, st: &Vec<ToolStatus>) -> (r: Option<usize>)
    requires
        st.len() == TOOL_COUNT,
    ensures
        match r {
            Some(j) => first_done_prompt(pp@, st@, 0) == Some(j as int) && j < pp.len(),
            None => first_done_prompt(pp@, st@, 0) is None,
        },
{
    let mut j: usize = 0;
    while j < pp.len()
        invariant
            j <= pp.len(),
            st.len() == TOOL_COUNT,
            first_done_prompt(pp@, st@, 0) == first_done_prompt(pp@, st@, j as int),
        decreases pp.len() - j,
    {
        if st[pp[j].index()] == ToolStatus::Done {
            return Some(j);
        }
        j += 1;
    }
    None
}

impl App {
    /// Shows the next post-install prompt once the session has finished.
    pub fn check_prompts(&mut self)
        requires
            old(self)@.wf(),
        ensures
            final(self)@ == spec_check_prompts(old(self)@),
            final(self)@.wf(),
    {
        let installing = match self.phase {
            Phase::Installing => true,
            _ => false,
        };
        if !installing {
            return;
        }
        let mut inst = match self.install.take() {
            Some(i) => i,
            None => {
                return;
            },
        };
        if !(crate::session::is_all_done(&inst.statuses) && inst.pending_prompts.len() > 0
            && inst.attached.is_none()) {
            self.install = Some(inst);
            return;
        }
        match first_done(&inst.pending_prompts, &inst.statuses) {
            Some(j) => {
                let tool = inst.pending_prompts.remove(j);
                self.install = Some(inst);
                self.phase = Phase::PostInstall(make_prompt(tool));
            },
            None => {
                inst.pending_prompts.clear();
                self.install = Some(inst);
            },
        }
    }

    fn take_phase(&mut self) -> (p: Phase)
        ensures
            p@ == old(self)@.phase,
            final(self)@ == (AppView { phase: PhaseView::Selecting, ..old(self)@ }),
    {
        let mut p = Phase::Selecting;
        std::mem::swap(&mut p, &mut self.phase);
        p
    }

    fn handle_sudo_key(&mut self, k: Key) -> (e: Effect)
        requires
            old(self)@.wf(),
            old(self)@.phase is SudoPrompt,
        ensures
            (final(self)@, e@) == spec_sudo_key(old(self)@, k),
            final(self)@.wf(),
    {
        let ghost a = self@;
        let ph = self.take_phase();
        match ph {
            Phase::SudoPrompt { mut input, error, pending } => {
                match k {
                    Key::Char(c) => {
                        push_char(&mut input, c);
                        self.phase = Phase::SudoPrompt { input, error, pending };
                        Effect::Nothing
                    },
                    Key::Backspace => {
                        pop_char(&mut input);
                        self.phase = Phase::SudoPrompt { input, error, pending };
                        Effect::Nothing
                    },
                    Key::Esc => {
                        self.sudo_password = None;
                        self.proceed_to_install(pending)
                    },
                    Key::Enter => {
                        self.sudo_password = if input.as_str().is_empty() {
                            None
                        } else {
                            Some(input)
                        };
                        self.proceed_to_install(pending)
                    },
                    _ => {
                        self.phase = Phase::SudoPrompt { input, error, pending };
                        Effect::Nothing
                    },
                }
            },
            other => {
                self.phase = other;
                Effect::Nothing
            },
        }
    }

    fn handle_post_key(&mut self, k: Key) -> (e: Effect)
        requires
            old(self)@.wf(),
            old(self)@.phase is PostInstall,
        ensures
            (final(self)@, e@) == spec_post_key(old(self)@, k),
            final(self)@.wf(),
    {
        let ph = self.take_phase();
        match ph {
            Phase::PostInstall(mut p) => {
                match k {
                    Key::Char(c) => {
                        push_char(&mut p.input, c);
                        self.phase = Phase::PostInstall(p);
                        Effect::Nothing
                    },
                    Key::Backspace => {
                        pop_char(&mut p.input);
                        self.phase = Phase::PostInstall(p);
                        Effect::Nothing
                    },
                    Key::Esc => {
                        self.phase = Phase::Done;
                        Effect::Nothing
                    },
                    Key::Enter => {
                        let tool = p.tool;
                        let value = p.input.clone();
                        self.phase = Phase::PostInstall(p);
                        Effect::RunPostInstall(tool, value)
                    },
                    _ => {
                        self.phase = Phase::PostInstall(p);
                        Effect::Nothing
                    },
                }
            },
            other => {
                self.phase = other;
                Effect::Nothing
            },
        }
    }

    fn handle_install_key(&mut self, k: Key, ctrl: bool) -> (e: Effect)
        requires
            old(self)@.wf(),
        ensures
            (final(self)@, e@) == spec_install_key(old(self)@, k, ctrl),
            final(self)@.wf(),
    {
        match self.install.take() {
            None => Effect::Nothing,
            Some(mut inst) => {
                let (e, back) = inst.handle_key(k, ctrl);
                self.install = Some(inst);
                if back {
                    self.phase = Phase::Selecting;
                }
                e
            },
        }
    }

    /// A key press. Returns what the driver must do.
    pub fn handle_key(&mut self, k: Key, ctrl: bool) -> (e: Effect)
        requires
            old(self)@.wf(),
        ensures
            (final(self)@, e@) == spec_handle_key(old(self)@, k, ctrl),
            final(self)@.wf(),
    {
        match self.phase {
            Phase::Selecting => self.handle_select_key(k),
            Phase::SudoPrompt { .. } => self.handle_sudo_key(k),
            Phase::Installing => self.handle_install_key(k, ctrl),
            Phase::PostInstall(_) => self.handle_post_key(k),
            Phase::Done => Effect::Quit,
        }
    }

    /// A mouse event at (`col`, `row`).
    pub fn handle_mouse(&mut self, kind: MouseKind, col: u16, row: u16)
        requires
            old(self)@.wf(),
        ensures
            final(self)@ == spec_handle_mouse(old(self)@, kind, col, row),
            final(self)@.wf(),
    {
        match self.phase {
            Phase::Selecting => {
                if kind == MouseKind::LeftDown {
                    if point_in(col, row, self.select_list_rect) {
                        if let Some(i) = row_in_list(row, self.select_list_rect, TOOL_COUNT) {
                            self.cursor = i;
                            self.list_selected = Some(i);
                        }
                    }
                } else if kind == MouseKind::ScrollUp {
                    if self.cursor > 0 {
                        self.cursor = self.cursor - 1;
                        self.list_selected = Some(self.cursor);
                    }
                } else if kind == MouseKind::ScrollDown {
                    if self.cursor + 1 < TOOL_COUNT {
                        self.cursor = self.cursor + 1;
                        self.list_selected = Some(self.cursor);
                    }
                }
            },
            Phase::Installing => {
                match self.install.take() {
                    None => {},
                    Some(mut inst) => {
                        inst.handle_mouse(kind, col, row);
                        self.install = Some(inst);
                    },
                }
            },
            _ => {},
        }
    }

    /// Absorbs one message from an install worker.
    pub fn apply_message(&mut self, m: Msg) -> (e: Effect)
        requires
            old(self)@.wf(),
            m@.tool_index() < TOOL_COUNT,
        ensures
            (final(self)@, e@) == spec_apply_message(old(self)@, m@),
            final(self)@.wf(),
    {
        match self.install.take() {
            None => Effect::Nothing,
            Some(mut inst) => {
                let e = inst.apply_message(&self.sudo_password, m);
                self.install = Some(inst);
                e
            },
        }
    }

    /// Reports the outcome of the post-install configuration.
    pub fn post_install_done(&mut self, r: Result<(), String>)
        requires
            old(self)@.wf(),
        ensures
            final(self)@ == spec_post_install_done(
                old(self)@,
                match r {
                    Ok(u) => Ok(u),
                    Err(e) => Err(e@),
                },
            ),
            final(self)@.wf(),
    {
        match r {
            Ok(()) => {
                self.phase = Phase::Done;
            },
            Err(e) => {
                let ph = self.take_phase();
                match ph {
                    Phase::PostInstall(mut p) => {
                        p.error = Some(e);
                        self.phase = Phase::PostInstall(p);
                    },
                    other => {
                        self.phase = other;
                    },
                }
            },
        }
    }

    /// Advances the spinner clock by one tick (wrapping).
    pub fn advance_tick(&mut self)
        ensures
            final(self)@ == (AppView {
                tick: if old(self)@.tick < u64::MAX {
                    (old(self)@.tick + 1) as u64
                } else {
                    0
                },
                ..old(self)@
            }),
    {
        self.tick = if self.tick < u64::MAX {
            self.tick + 1
        } else {
            0
        };
    }

    /// Records where the selection list was drawn.
    pub fn set_select_list_rect(&mut self, r: Rect)
        requires
            old(self)@.wf(),
            r.valid(),
        ensures
            final(self)@ == (AppView { select_list_rect: r, ..old(self)@ }),
            final(self)@.wf(),
    {
        self.select_list_rect = r;
    }

    /// Records where the install view was drawn.
    pub fn set_install_layout(&mut self, l: InstallLayout)
        requires
            old(self)@.wf(),
            l.valid(),
        ensures
            final(self)@ == (AppView {
                install: match old(self)@.install {
                    Some(i) => Some(InstallView { layout: l, ..i }),
                    None => None,
                },
                ..old(self)@
            }),
            final(self)@.wf(),
    {
        match self.install.take() {
            Some(mut inst) => {
                inst.layout = l;
                self.install = Some(inst);
            },
            None => {},
        }
    }

    /// The session has ended.
    pub fn is_done(&self) -> (b: bool)
        ensures
            b == (self@.phase is Done),
    {
        match self.phase {
            Phase::Done => true,
            _ => false,
        }
    }
}

/// Law: adding tools to a session never disturbs a tool that is already
/// pending, running or done; every tool handed over becomes pending.
pub proof fn law_add_keeps_started(st: Seq<ToolStatus>, pp: Seq<Tool>, chosen: Seq<Tool>, i: int)
    requires
        st.len() == TOOL_COUNT,
        0 <= i < TOOL_COUNT,
    ensures
        add_fold(st, pp, chosen).0.len() == TOOL_COUNT,
        (st[i] == ToolStatus::Pending || st[i] == ToolStatus::Running || st[i] == ToolStatus::Done)
            ==> add_fold(st, pp, chosen).0[i] == st[i],
        add_fold(st, pp, chosen).2.contains(Tool::spec_at(i)) ==> add_fold(st, pp, chosen).0[i]
            == ToolStatus::Pending,
    decreases chosen.len(),
{
    if chosen.len() > 0 {
        law_add_keeps_started(st, pp, chosen.drop_last(), i);
        let prev = add_fold(st, pp, chosen.drop_last());
        let t = chosen.last();
        crate::tool::law_index_round_trip(t, i);
        crate::tool::law_index_round_trip(Tool::spec_at(i), i);
        let cur = add_fold(st, pp, chosen);
        if cur.2.contains(Tool::spec_at(i)) && cur.2 != prev.2 {
            let w = choose|w: int| 0 <= w < cur.2.len() && cur.2[w] == Tool::spec_at(i);
            if w < prev.2.len() {
                assert(prev.2[w] == Tool::spec_at(i));
            }
        }
    }
}

/// Law: starting or extending the install always clears the selection and
/// shows the install view, which then has a session.
pub proof fn law_proceed_shows_install(a: AppView, chosen: Seq<Tool>)
    ensures
        spec_proceed(a, chosen).0.phase is Installing,
        spec_proceed(a, chosen).0.install is Some,
        forall|i: int|
            0 <= i < a.checked.len() ==> !#[trigger] spec_proceed(a, chosen).0.checked[i],
{
}

/// Law: in the selection screen `q` always quits, even while tools are
/// being installed, and leaves the state unchanged.
pub proof fn law_q_quits(a: AppView)
    requires
        a.phase is Selecting,
    ensures
        spec_handle_key(a, Key::Char('q'), false) == (a, EffectView::Quit),
{
}

proof fn lemma_first_done_prompt(pp: Seq<Tool>, st: Seq<ToolStatus>, j: int)
    requires
        0 <= j,
    ensures
        first_done_prompt(pp, st, j) matches Some(k) ==> j <= k < pp.len() && st[pp[k].spec_index() as int]
            == ToolStatus::Done,
    decreases pp.len() - j,
{
    if j < pp.len() && st[pp[j].spec_index() as int] != ToolStatus::Done {
        lemma_first_done_prompt(pp, st, j + 1);
    }
}

/// Law: a post-install prompt is only ever opened for a tool whose install
/// succeeded, once every tool of the session has finished.
pub proof fn law_prompt_only_after_success(a: AppView)
    requires
        spec_check_prompts(a).phase is PostInstall,
        !(a.phase is PostInstall),
    ensures
        a.install is Some,
        spec_all_done(a.install->0.statuses),
        a.install->0.statuses[(spec_check_prompts(a).phase->PostInstall_0).tool.spec_index() as int]
            == ToolStatus::Done,
{
    let inst = a.install->0;
    lemma_first_done_prompt(inst.pending_prompts, inst.statuses, 0);
}

/// Law: in the post-install prompt, a typed character is appended to the
/// input, Backspace removes the input's last character (if any), Enter asks
/// to run the tool's configuration with exactly the input typed, and Esc
/// ends the session; the tool, label and error of the prompt are kept.
pub proof fn law_post_prompt_editing(a: AppView, k: Key, ctrl: bool)
    requires
        a.phase is PostInstall,
    ensures
        ({
            let p = a.phase->PostInstall_0;
            let r = spec_handle_key(a, k, ctrl);
            &&& k matches Key::Char(c) ==> r.1 == EffectView::Nothing && r.0.phase is PostInstall && {
                let q = r.0.phase->PostInstall_0;
                &&& q.input.len() == p.input.len() + 1
                &&& q.input.take(p.input.len() as int) == p.input
                &&& q.input.last() == c
                &&& q.tool == p.tool && q.label == p.label && q.error == p.error
            }
            &&& k == Key::Backspace ==> r.1 == EffectView::Nothing && r.0.phase is PostInstall && {
                let q = r.0.phase->PostInstall_0;
                &&& (p.input.len() > 0 ==> q.input.len() + 1 == p.input.len() && q.input
                    == p.input.take(p.input.len() - 1))
                &&& (p.input.len() == 0 ==> q.input.len() == 0)
                &&& q.tool == p.tool && q.label == p.label && q.error == p.error
            }
            &&& k == Key::Enter ==> r.0 == a && r.1 == EffectView::RunPostInstall(p.tool, p.input)
            &&& k == Key::Esc ==> r.0.phase is Done && r.1 == EffectView::Nothing
        }),
{
    let p = a.phase->PostInstall_0;
    if let Key::Char(c) = k {
        assert(p.input.push(c).take(p.input.len() as int) =~= p.input);
    }
}

/// Law: in the sudo password prompt, a typed character is appended to the
/// input and Backspace removes its last character (if any), keeping the
/// tools waiting for the password; Enter starts the waiting tools,
/// remembering the typed password (none when nothing was typed), and Esc
/// starts them without a password. Either way the install view is shown.
pub proof fn law_sudo_prompt_editing(a: AppView, k: Key, ctrl: bool)
    requires
        a.phase is SudoPrompt,
    ensures
        ({
            let input = a.phase->SudoPrompt_input;
            let pending = a.phase->SudoPrompt_pending;
            let r = spec_handle_key(a, k, ctrl);
            &&& k matches Key::Char(c) ==> r.1 == EffectView::Nothing && r.0.phase is SudoPrompt && {
                let i2 = r.0.phase->SudoPrompt_input;
                &&& i2.len() == input.len() + 1
                &&& i2.take(input.len() as int) == input
                &&& i2.last() == c
                &&& r.0.phase->SudoPrompt_pending == pending
            }
            &&& k == Key::Backspace ==> r.1 == EffectView::Nothing && r.0.phase is SudoPrompt && {
                let i2 = r.0.phase->SudoPrompt_input;
                &&& (input.len() > 0 ==> i2 == input.take(input.len() - 1))
                &&& (input.len() == 0 ==> i2.len() == 0)
                &&& r.0.phase->SudoPrompt_pending == pending
            }
            &&& k == Key::Enter ==> r.0.phase is Installing && r.0.install is Some
                && r.0.sudo_password == (if input.len() == 0 {
                None
            } else {
                Some(input)
            })
            &&& k == Key::Esc ==> r.0.phase is Installing && r.0.install is Some
                && r.0.sudo_password is None
        }),
{
    let input = a.phase->SudoPrompt_input;
    let pending = a.phase->SudoPrompt_pending;
    if let Key::Char(c) = k {
        assert(input.push(c).take(input.len() as int) =~= input);
    }
    if k == Key::Enter {
        law_proceed_shows_install(
            AppView {
                phase: PhaseView::Selecting,
                sudo_password: if input.len() == 0 {
                    None
                } else {
                    Some(input)
                },
                ..a
            },
            pending,
        );
    }
    if k == Key::Esc {
        law_proceed_shows_install(
            AppView { phase: PhaseView::Selecting, sudo_password: None, ..a },
            pending,
        );
    }
}

/// Law: in the selection screen, Up (or `k`, or the wheel up) moves the
/// cursor to the previous tool and Down (or `j`, or the wheel down) to the
/// next, the list selection following; at the first (last) tool nothing
/// changes. Space flips the cursor's box unless that tool is pending,
/// running or done in the session, and leaves the other boxes alone.
pub proof fn law_selection_keys(a: AppView, k: Key, kind: MouseKind, col: u16, row: u16)
    requires
        a.wf(),
        a.phase is Selecting,
    ensures
        ({
            let r = spec_handle_key(a, k, false).0;
            let up = k == Key::Up || k == Key::Char('k');
            let down = k == Key::Down || k == Key::Char('j');
            &&& up && a.cursor > 0 ==> r.cursor == a.cursor - 1 && r.list_selected == Some(
                (a.cursor - 1) as usize,
            ) && r.checked == a.checked
            &&& up && a.cursor == 0 ==> r == a
            &&& down && a.cursor + 1 < TOOL_COUNT ==> r.cursor == a.cursor + 1 && r.list_selected
                == Some((a.cursor + 1) as usize) && r.checked == a.checked
            &&& down && a.cursor + 1 == TOOL_COUNT ==> r == a
            &&& k == Key::Char(' ') ==> r.cursor == a.cursor && r.checked.len() == a.checked.len()
                && (forall|i: int|
                0 <= i < a.checked.len() && i != a.cursor ==> #[trigger] r.checked[i]
                    == a.checked[i]) && r.checked[a.cursor as int] == (if a.install matches Some(
                inst,
            ) && (inst.statuses[a.cursor as int] == ToolStatus::Pending
                || inst.statuses[a.cursor as int] == ToolStatus::Running
                || inst.statuses[a.cursor as int] == ToolStatus::Done) {
                a.checked[a.cursor as int]
            } else {
                !a.checked[a.cursor as int]
            })
        }),
        ({
            let m = spec_handle_mouse(a, kind, col, row);
            &&& kind == MouseKind::ScrollUp && a.cursor > 0 ==> m.cursor == a.cursor - 1
            &&& kind == MouseKind::ScrollDown && a.cursor + 1 < TOOL_COUNT ==> m.cursor == a.cursor
                + 1
            &&& kind == MouseKind::ScrollUp ==> m.cursor <= a.cursor
            &&& kind == MouseKind::ScrollDown ==> m.cursor >= a.cursor
        }),
{
}

} // verus!
