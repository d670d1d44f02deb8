//! The installer's state: per-tool install status and output, the phases of
//! the interactive session, the messages that install workers send, and the
//! effects the state machine asks its driver to perform.
use vstd::prelude::*;
use crate::layout::Rect;
use crate::text::{opt_view, views};
use crate::tool::{TOOL_COUNT, Tool};

verus! {

/// Most lines kept per tool log when a new line arrives.
pub const MAX_LOG_LINES: usize = 4000;

/// Where a tool stands in the current install session.
#[derive(Debug, Clone, Copy, PartialEq, Eq, Structural)]
pub enum ToolStatus {
    NotSelected,
    Pending,
    Running,
    Done,
    Failed,
}

/// Screen areas of the install view, kept for mouse hit testing.
#[derive(Debug, Clone, Copy, PartialEq, Eq, Structural)]
pub struct InstallLayout {
    pub status_list: Rect,
    pub preview: Rect,
    pub attached_view: Rect,
}

impl InstallLayout {
    pub open spec fn valid(self) -> bool {
        self.status_list.valid() && self.preview.valid() && self.attached_view.valid()
    }

    pub fn zero() -> (l: InstallLayout)
        ensures
            l.status_list == Rect::spec_zero(),
            l.preview == Rect::spec_zero(),
            l.attached_view == Rect::spec_zero(),
    {
        InstallLayout { status_list: Rect::zero(), preview: Rect::zero(), attached_view: Rect::zero() }
    }
}

/// A message from an install worker about tool number `.0`.
pub enum Msg {
    /// The worker started the tool's installer.
    Started(usize),
    /// The tool's terminal accepts input from now on.
    WriterReady(usize),
    /// A complete output line.
    Line(usize, String),
    /// An in-progress line that has not seen a newline yet (e.g. a sudo
    /// prompt); it replaces any previous partial line of the tool.
    Partial(usize, String),
    /// The installer ended, successfully or not.
    Finished(usize, bool),
}

pub enum MsgView {
    Started(usize),
    WriterReady(usize),
    Line(usize, Seq<char>),
    Partial(usize, Seq<char>),
    Finished(usize, bool),
}

impl View for Msg {
    type V = MsgView;

    open spec fn view(&self) -> MsgView {
        match self {
            Msg::Started(i) => MsgView::Started(*i),
            Msg::WriterReady(i) => MsgView::WriterReady(*i),
            Msg::Line(i, s) => MsgView::Line(*i, s@),
            Msg::Partial(i, s) => MsgView::Partial(*i, s@),
            Msg::Finished(i, ok) => MsgView::Finished(*i, *ok),
        }
    }
}

impl MsgView {
    /// The tool the message is about.
    pub open spec fn tool_index(self) -> usize {
        match self {
            MsgView::Started(i) => i,
            MsgView::WriterReady(i) => i,
            MsgView::Line(i, _) => i,
            MsgView::Partial(i, _) => i,
            MsgView::Finished(i, _) => i,
        }
    }
}

/// What the driver of the state machine must do after a step.
pub enum Effect {
    Nothing,
    /// Leave the program.
    Quit,
    /// Start the install scheduler with these tools.
    StartInstall(Vec<Tool>),
    /// Hand these tools to the running scheduler.
    AddTools(Vec<Tool>),
    /// Write these bytes to the terminal of tool number `.0`.
    SendBytes(usize, Vec<u8>),
    /// Run the post-install configuration of the tool with this value, then
    /// report the outcome with `App::post_install_done`.
    RunPostInstall(Tool, String),
}

pub enum EffectView {
    Nothing,
    Quit,
    StartInstall(Seq<Tool>),
    AddTools(Seq<Tool>),
    SendBytes(usize, Seq<u8>),
    RunPostInstall(Tool, Seq<char>),
}

impl View for Effect {
    type V = EffectView;

    open spec fn view(&self) -> EffectView {
        match self {
            Effect::Nothing => EffectView::Nothing,
            Effect::Quit => EffectView::Quit,
            Effect::StartInstall(v) => EffectView::StartInstall(v@),
            Effect::AddTools(v) => EffectView::AddTools(v@),
            Effect::SendBytes(i, b) => EffectView::SendBytes(*i, b@),
            Effect::RunPostInstall(t, s) => EffectView::RunPostInstall(*t, s@),
        }
    }
}

/// The post-install prompt shown for a tool.
pub struct PostPrompt {
    pub tool: Tool,
    pub label: String,
    pub input: String,
    pub error: Option<String>,
}

pub struct PostPromptView {
    pub tool: Tool,
    pub label: Seq<char>,
    pub input: Seq<char>,
    pub error: Option<Seq<char>>,
}

impl View for PostPrompt {
    type V = PostPromptView;

    open spec fn view(&self) -> PostPromptView {
        PostPromptView {
            tool: self.tool,
            label: self.label@,
            input: self.input@,
            error: opt_view(self.error),
        }
    }
}

/// The phases of the interactive session.
pub enum Phase {
    Selecting,
    /// One-time prompt for a sudo password, asked before an install whose
    /// tools will invoke sudo; `pending` is the selection waiting for it.
    SudoPrompt { input: String, error: Option<String>, pending: Vec<Tool> },
    Installing,
    PostInstall(PostPrompt),
    Done,
}

pub enum PhaseView {
    Selecting,
    SudoPrompt { input: Seq<char>, error: Option<Seq<char>>, pending: Seq<Tool> },
    Installing,
    PostInstall(PostPromptView),
    Done,
}

impl View for Phase {
    type V = PhaseView;

    open spec fn view(&self) -> PhaseView {
        match self {
            Phase::Selecting => PhaseView::Selecting,
            Phase::SudoPrompt { input, error, pending } => PhaseView::SudoPrompt {
                input: input@,
                error: opt_view(*error),
                pending: pending@,
            },
            Phase::Installing => PhaseView::Installing,
            Phase::PostInstall(p) => PhaseView::PostInstall(p@),
            Phase::Done => PhaseView::Done,
        }
    }
}

/// The install session: persists across Selecting <-> Installing toggles.
pub struct InstallState {
    pub statuses: Vec<ToolStatus>,
    pub tool_logs: Vec<Vec<String>>,
    pub partials: Vec<String>,
    /// Which tools have a terminal that accepts input.
    pub writers: Vec<bool>,
    pub pending_prompts: Vec<Tool>,
    /// Cursor in the install-phase tool list (a tool position).
    pub cursor: usize,
    pub list_selected: Option<usize>,
    pub attached: Option<usize>,
    pub scroll_offset: usize,
    pub layout: InstallLayout,
    /// Per tool: the last partial line answered with the sudo password.
    pub last_pwd_prompt: Vec<Option<String>>,
}

pub struct InstallView {
    pub statuses: Seq<ToolStatus>,
    pub tool_logs: Seq<Seq<Seq<char>>>,
    pub partials: Seq<Seq<char>>,
    pub writers: Seq<bool>,
    pub pending_prompts: Seq<Tool>,
    pub cursor: usize,
    pub list_selected: Option<usize>,
    pub attached: Option<usize>,
    pub scroll_offset: usize,
    pub layout: InstallLayout,
    pub last_pwd_prompt: Seq<Option<Seq<char>>>,
}

impl View for InstallState {
    type V = InstallView;

    open spec fn view(&self) -> InstallView {
        InstallView {
            statuses: self.statuses@,
            tool_logs: self.tool_logs@.map_values(|l: Vec<String>| views(l@)),
            partials: views(self.partials@),
            writers: self.writers@,
            pending_prompts: self.pending_prompts@,
            cursor: self.cursor,
            list_selected: self.list_selected,
            attached: self.attached,
            scroll_offset: self.scroll_offset,
            layout: self.layout,
            last_pwd_prompt: self.last_pwd_prompt@.map_values(|o: Option<String>| opt_view(o)),
        }
    }
}

impl InstallView {
    /// Well-formedness: one entry per tool everywhere, cursors inside the
    /// catalogue, prompts only for tools that have one.
    pub open spec fn wf(self) -> bool {
        &&& self.statuses.len() == TOOL_COUNT
        &&& self.tool_logs.len() == TOOL_COUNT
        &&& self.partials.len() == TOOL_COUNT
        &&& self.writers.len() == TOOL_COUNT
        &&& self.last_pwd_prompt.len() == TOOL_COUNT
        &&& self.cursor < TOOL_COUNT
        &&& (self.attached matches Some(a) ==> a < TOOL_COUNT)
        &&& (forall|i: int|
            0 <= i < self.pending_prompts.len() ==> (#[trigger] self.pending_prompts[i]).spec_has_post_install())
        &&& self.layout.valid()
    }
}

/// The interactive application.
pub struct App {
    pub cursor: usize,
    pub checked: Vec<bool>,
    pub list_selected: Option<usize>,
    /// Area of the selection list, for mouse hit testing.
    pub select_list_rect: Rect,
    pub install: Option<InstallState>,
    pub phase: Phase,
    pub tick: u64,
    /// Sudo password captured once by the user; used to answer sudo
    /// prompts on any tool's terminal. None = the user skipped the prompt.
    pub sudo_password: Option<String>,
}

pub struct AppView {
    pub cursor: usize,
    pub checked: Seq<bool>,
    pub list_selected: Option<usize>,
    pub select_list_rect: Rect,
    pub install: Option<InstallView>,
    pub phase: PhaseView,
    pub tick: u64,
    pub sudo_password: Option<Seq<char>>,
}

impl View for App {
    type V = AppView;

    open spec fn view(&self) -> AppView {
        AppView {
            cursor: self.cursor,
            checked: self.checked@,
            list_selected: self.list_selected,
            select_list_rect: self.select_list_rect,
            install: match self.install {
                Some(i) => Some(i@),
                None => None,
            },
            phase: self.phase@,
            tick: self.tick,
            sudo_password: opt_view(self.sudo_password),
        }
    }
}

impl AppView {
    pub open spec fn wf(self) -> bool {
        &&& self.checked.len() == TOOL_COUNT
        &&& self.cursor < TOOL_COUNT
        &&& self.select_list_rect.valid()
        &&& (self.install matches Some(i) ==> i.wf())
    }
}

} // verus!
