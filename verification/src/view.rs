//! What the screens show, decided from the state: the marks and colours of
//! list rows, the spinner, masked input, and the lines of a log panel.
use vstd::prelude::*;
use crate::layout::{scroll_window, spec_scroll_window};
use crate::state::ToolStatus;
use crate::config::{decimal, decimal_string};
use crate::text::{concat, find_char, find_char_from, string_of, string_of_range, to_chars, views};
use crate::wrap::{byte_len, chars_byte_len};

verus! {

broadcast use vstd::string::group_string_axioms;

/// The colour a piece of text is drawn in.
#[derive(Debug, Clone, Copy, PartialEq, Eq, Structural)]
pub enum Tone {
    Dark,
    Gray,
    Yellow,
    Green,
    Red,
}

/// How a tool is drawn in the selection list.
pub struct SelectRow {
    /// The check box, such as `[✓] `.
    pub mark: &'static str,
    pub mark_tone: Tone,
    pub mark_bold: bool,
    pub name_tone: Tone,
    /// The "installed" dot after the name.
    pub installed_dot: bool,
}

/// The check box of a tool in the selection list, its colour and weight:
/// the tool's status in a running session, where it has one, comes before
/// its check box.
pub open spec fn spec_select_mark(checked: bool, status: Option<ToolStatus>) -> (Seq<char>, Tone, bool) {
    match status {
        Some(ToolStatus::Pending) => ("[…] "@, Tone::Dark, false),
        Some(ToolStatus::Running) => ("[~] "@, Tone::Yellow, false),
        Some(ToolStatus::Done) => ("[✓] "@, Tone::Green, false),
        Some(ToolStatus::Failed) => ("[✗] "@, Tone::Red, false),
        _ => if checked {
            ("[✓] "@, Tone::Green, true)
        } else {
            ("[ ] "@, Tone::Dark, false)
        },
    }
}

/// The colour of a tool's name in the selection list.
pub open spec fn spec_select_name_tone(checked: bool, status: Option<ToolStatus>) -> Tone {
    match status {
        Some(ToolStatus::Pending) => Tone::Dark,
        Some(ToolStatus::Running) => Tone::Dark,
        Some(ToolStatus::Done) => Tone::Green,
        Some(ToolStatus::Failed) => Tone::Red,
        _ => if checked {
            Tone::Green
        } else {
            Tone::Gray
        },
    }
}

/// How a tool is drawn in the selection list, from its check box, whether
/// it is installed, and its status in the install session if there is one.
pub fn select_row(checked: bool, installed: bool, status: Option<ToolStatus>) -> (r: SelectRow)
    ensures
        (r.mark@, r.mark_tone, r.mark_bold) == spec_select_mark(checked, status),
        r.name_tone == spec_select_name_tone(checked, status),
        r.installed_dot == (installed && status is None),
{
    let (mark, mark_tone, mark_bold): (&'static str, Tone, bool) = match status {
        Some(ToolStatus::Pending) => ("[…] ", Tone::Dark, false),
        Some(ToolStatus::Running) => ("[~] ", Tone::Yellow, false),
        Some(ToolStatus::Done) => ("[✓] ", Tone::Green, false),
        Some(ToolStatus::Failed) => ("[✗] ", Tone::Red, false),
        _ => if checked {
            ("[✓] ", Tone::Green, true)
        } else {
            ("[ ] ", Tone::Dark, false)
        },
    };
    let name_tone = match status {
        Some(ToolStatus::Pending) => Tone::Dark,
        Some(ToolStatus::Running) => Tone::Dark,
        Some(ToolStatus::Done) => Tone::Green,
        Some(ToolStatus::Failed) => Tone::Red,
        _ => if checked {
            Tone::Green
        } else {
            Tone::Gray
        },
    };
    SelectRow { mark, mark_tone, mark_bold, name_tone, installed_dot: installed && status.is_none() }
}

/// The frames of the busy spinner.
pub open spec fn spinner_frames() -> Seq<char> {
    seq!['⠋', '⠙', '⠹', '⠸', '⠼', '⠴', '⠦', '⠧', '⠇', '⠏']
}

/// The spinner frame shown at clock tick `tick`.
pub fn spinner_frame(tick: u64) -> (c: char)
    ensures
        c == spinner_frames()[(tick % 10) as int],
{
    let frames: [char; 10] = ['⠋', '⠙', '⠹', '⠸', '⠼', '⠴', '⠦', '⠧', '⠇', '⠏'];
    let i = (tick % 10) as usize;
    let c = frames[i];
    assert(frames@ =~= spinner_frames());
    c
}

/// The status word of a tool and its colour (empty for a tool outside the
/// session).
pub open spec fn spec_status_word(s: ToolStatus) -> (Seq<char>, Tone) {
    match s {
        ToolStatus::Pending => ("pending"@, Tone::Dark),
        ToolStatus::Running => ("running"@, Tone::Yellow),
        ToolStatus::Done => ("done"@, Tone::Green),
        ToolStatus::Failed => ("failed"@, Tone::Red),
        ToolStatus::NotSelected => (""@, Tone::Gray),
    }
}

/// The status word of a tool and its colour.
pub fn status_word(s: ToolStatus) -> (r: (&'static str, Tone))
    ensures
        (r.0@, r.1) == spec_status_word(s),
{
    match s {
        ToolStatus::Pending => ("pending", Tone::Dark),
        ToolStatus::Running => ("running", Tone::Yellow),
        ToolStatus::Done => ("done", Tone::Green),
        ToolStatus::Failed => ("failed", Tone::Red),
        ToolStatus::NotSelected => ("", Tone::Gray),
    }
}

/// The icon of a tool in the install status list, its colour and weight;
/// a running tool shows the spinner frame `spin`.
pub open spec fn spec_status_icon(s: ToolStatus, spin: char) -> (Seq<char>, Tone, bool) {
    match s {
        ToolStatus::Pending => ("  ○  "@, Tone::Dark, false),
        ToolStatus::Running => (seq![' ', ' ', spin, ' ', ' '], Tone::Yellow, true),
        ToolStatus::Done => ("  ✓  "@, Tone::Green, false),
        ToolStatus::Failed => ("  ✗  "@, Tone::Red, false),
        ToolStatus::NotSelected => (Seq::empty(), Tone::Gray, false),
    }
}

/// The icon of a tool in the install status list.
pub fn status_icon(s: ToolStatus, spin: char) -> (r: (String, Tone, bool))
    ensures
        (r.0@, r.1, r.2) == spec_status_icon(s, spin),
{
    match s {
        ToolStatus::Pending => ("  ○  ".to_string(), Tone::Dark, false),
        ToolStatus::Running => {
            let mut v: Vec<char> = Vec::new();
            v.push(' ');
            v.push(' ');
            v.push(spin);
            v.push(' ');
            v.push(' ');
            let ghost expected = seq![' ', ' ', spin, ' ', ' '];
            assert(v@ =~= expected);
            (crate::text::string_of(&v), Tone::Yellow, true)
        },
        ToolStatus::Done => ("  ✓  ".to_string(), Tone::Green, false),
        ToolStatus::Failed => ("  ✗  ".to_string(), Tone::Red, false),
        ToolStatus::NotSelected => (String::new(), Tone::Gray, false),
    }
}

/// Typed secret input as shown: one `•` per byte of its UTF-8 encoding.
pub open spec fn spec_masked(input: Seq<char>) -> Seq<char> {
    Seq::new(byte_len(input), |i: int| '•')
}

/// Typed secret input as shown on screen.
pub fn masked(input: &str) -> (r: String)
    ensures
        r@ == spec_masked(input@),
{
    let chars = to_chars(input);
    let n = chars_byte_len(&chars);
    let mut v: Vec<char> = Vec::new();
    let mut i: u128 = 0;
    while i < n
        invariant
            i <= n,
            n == byte_len(input@),
            n <= 4 * chars.len(),
            v@ == Seq::new(i as nat, |k: int| '•'),
        decreases n - i,
    {
        v.push('•');
        i = i + 1;
        assert(v@ =~= Seq::new(i as nat, |k: int| '•'));
    }
    crate::text::string_of(&v)
}

/// The lines of a log panel: the log with the partial line (if any) after
/// it, as many as fit in `height` rows, scrolled `scroll` lines up from the
/// bottom; each comes with whether it is the partial line.
pub open spec fn spec_shown_lines(log: Seq<Seq<char>>, partial: Seq<char>, height: nat, scroll: nat) -> Seq<(Seq<char>, bool)> {
    let all = if partial.len() > 0 {
        log.push(partial)
    } else {
        log
    };
    let w = spec_scroll_window(all.len(), height, scroll);
    Seq::new(
        (w.1 - w.0) as nat,
        |i: int| (all[w.0 + i], partial.len() > 0 && w.0 + i == all.len() - 1),
    )
}

/// Panel lines as plain text.
pub open spec fn shown_view(r: Seq<(String, bool)>) -> Seq<(Seq<char>, bool)> {
    r.map_values(|p: (String, bool)| (p.0@, p.1))
}

/// The lines of a log panel `height` rows high, scrolled `scroll` lines up.
pub fn shown_lines(log: &Vec<String>, partial: &str, height: usize, scroll: usize) -> (r: Vec<(String, bool)>)
    requires
        log.len() < usize::MAX,
    ensures
        shown_view(r@) == spec_shown_lines(
            views(log@),
            partial@,
            height as nat,
            scroll as nat,
        ),
{
    let has_partial = !partial.is_empty();
    let total: usize = if has_partial {
        log.len() + 1
    } else {
        log.len()
    };
    let (start, end) = scroll_window(total, height, scroll);
    let ghost all = if partial@.len() > 0 {
        views(log@).push(partial@)
    } else {
        views(log@)
    };
    assert(all.len() == total);
    let mut r: Vec<(String, bool)> = Vec::new();
    let mut i: usize = start;
    while i < end
        invariant
            start <= i <= end <= total,
            total == all.len(),
            has_partial == (partial@.len() > 0),
            all == (if partial@.len() > 0 {
                views(log@).push(partial@)
            } else {
                views(log@)
            }),
            total == (if has_partial { log.len() + 1 } else { log.len() as int }),
            shown_view(r@) == Seq::new(
                (i - start) as nat,
                |k: int| (all[start + k], partial@.len() > 0 && start + k == all.len() - 1),
            ),
        decreases end - i,
    {
        let line: String = if i < log.len() {
            log[i].clone()
        } else {
            partial.to_string()
        };
        proof {
            if i < log.len() {
                assert(all[i as int] == log@[i as int]@);
            } else {
                assert(all[i as int] == partial@);
            }
        }
        let is_partial = has_partial && i == total - 1;
        let ghost before = r@;
        r.push((line, is_partial));
        i += 1;
        proof {
            assert(r@ == before.push((line, is_partial)));
            assert(shown_view(before).len() == before.len());
            assert(shown_view(r@).len() == r@.len());
            assert(before.len() == i - 1 - start);
            assert(shown_view(r@) =~= Seq::new(
                (i - start) as nat,
                |k: int| (all[start + k], partial@.len() > 0 && start + k == all.len() - 1),
            )) by {
                assert forall|k: int| 0 <= k < i - start implies #[trigger] shown_view(r@)[k] == (
                    all[start + k],
                    partial@.len() > 0 && start + k == all.len() - 1,
                ) by {
                    if k < i - 1 - start {
                        assert(r@[k] == before[k]);
                        assert(shown_view(before)[k] == (
                            all[start + k],
                            partial@.len() > 0 && start + k == all.len() - 1,
                        ));
                    }
                }
            }
        }
    }
    r
}

/// The first line of `s`, as `str::lines` yields it (without its `\n` or
/// `\r\n`), or all of `s` when it holds no line break.
pub open spec fn spec_first_line(s: Seq<char>) -> Seq<char> {
    match find_char_from(s, '\n', 0) {
        None => s,
        Some(k) => if k > 0 && s[k - 1] == '\r' {
            s.take(k - 1)
        } else {
            s.take(k)
        },
    }
}

/// The first line of an error message, shown under the prompt.
pub fn first_line(s: &str) -> (r: String)
    ensures
        r@ == spec_first_line(s@),
{
    let v = to_chars(s);
    match find_char(&v, '\n', 0) {
        None => string_of(&v),
        Some(k) => {
            proof {
                crate::text::lemma_find_char_from_sound(v@, '\n', 0);
            }
            let end = if k > 0 && v[k - 1] == '\r' {
                k - 1
            } else {
                k
            };
            let r = string_of_range(&v, 0, end);
            assert(v@.subrange(0, end as int) =~= v@.take(end as int));
            r
        },
    }
}

/// The label of the install key in the selection footer, with the number
/// of selected tools when there are any.
pub open spec fn spec_install_label(n: usize) -> Seq<char> {
    if n == 0 {
        " install "@
    } else {
        " install ("@ + decimal(n as nat) + ") "@
    }
}

/// The label of the install key in the selection footer.
pub fn install_label(n: usize) -> (r: String)
    ensures
        r@ == spec_install_label(n),
{
    if n == 0 {
        " install ".to_string()
    } else {
        let digits = decimal_string(n as u64);
        let head = concat(" install (", digits.as_str());
        concat(head.as_str(), ") ")
    }
}

/// The hint in the title of the output preview: a running tool takes typed
/// keys directly, any other is expanded first.
pub open spec fn spec_preview_hint(s: ToolStatus) -> Seq<char> {
    if s == ToolStatus::Running {
        " — type here, F2 to expand "@
    } else {
        " — enter or F2 to expand "@
    }
}

/// The hint in the title of the output preview for a tool in state `s`.
pub fn preview_hint(s: ToolStatus) -> (r: &'static str)
    ensures
        r@ == spec_preview_hint(s),
{
    if s == ToolStatus::Running {
        " — type here, F2 to expand "
    } else {
        " — enter or F2 to expand "
    }
}

/// Whether the expanded output view tells the user that keys go to the
/// tool: while it is pending or running.
pub fn keys_go_to_tool(s: ToolStatus) -> (b: bool)
    ensures
        b == (s == ToolStatus::Pending || s == ToolStatus::Running),
{
    s == ToolStatus::Pending || s == ToolStatus::Running
}

} // verus!
