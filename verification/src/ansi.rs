//! Cleaning of terminal output: escape-sequence stripping, splitting of the
//! byte stream of a child terminal into lines and a pending partial line,
//! and recognition of password prompts.
use vstd::prelude::*;
use crate::text::{
    ascii_alpha, contains, contains_seq, is_ascii_alpha, opt_view, string_of, string_of_range,
    to_chars, trim_end_len, trimmed_end, views,
};

verus! {

broadcast use vstd::string::group_string_axioms;

/// Where the stripper stands inside an escape sequence.
#[derive(Debug, Clone, Copy, PartialEq, Eq, Structural)]
pub enum AnsiState {
    /// Ordinary text.
    Text,
    /// Just after an ESC character.
    Escape,
    /// Inside a CSI sequence (`ESC [`), until a letter or `~`.
    Csi,
    /// Inside an OSC sequence (`ESC ]`), until BEL or `ESC x`.
    Osc,
    /// Just after an ESC inside an OSC sequence.
    OscEscape,
}

/// A character that survives stripping: not a C0 control character, or a tab.
pub open spec fn printable(c: char) -> bool {
    c as u32 >= 0x20 || c == '\t'
}

/// One step of the stripper: the next state, and whether `c` is kept.
pub open spec fn ansi_step(st: AnsiState, c: char) -> (AnsiState, bool) {
    match st {
        AnsiState::Text => if c == '\x1b' {
            (AnsiState::Escape, false)
        } else {
            (AnsiState::Text, printable(c))
        },
        AnsiState::Escape => if c == '[' {
            (AnsiState::Csi, false)
        } else if c == ']' {
            (AnsiState::Osc, false)
        } else {
            (AnsiState::Text, false)
        },
        AnsiState::Csi => if ascii_alpha(c) || c == '~' {
            (AnsiState::Text, false)
        } else {
            (AnsiState::Csi, false)
        },
        AnsiState::Osc => if c == '\x07' {
            (AnsiState::Text, false)
        } else if c == '\x1b' {
            (AnsiState::OscEscape, false)
        } else {
            (AnsiState::Osc, false)
        },
        AnsiState::OscEscape => (AnsiState::Text, false),
    }
}

/// The stripper run over all of `s`: final state and kept characters.
pub open spec fn strip_fold(s: Seq<char>) -> (AnsiState, Seq<char>)
    decreases s.len(),
{
    if s.len() == 0 {
        (AnsiState::Text, Seq::empty())
    } else {
        let prev = strip_fold(s.drop_last());
        let step = ansi_step(prev.0, s.last());
        (step.0, if step.1 {
            prev.1.push(s.last())
        } else {
            prev.1
        })
    }
}

/// `s` without ANSI CSI/OSC escape sequences and other C0 control characters.
pub open spec fn stripped(s: Seq<char>) -> Seq<char> {
    strip_fold(s).1
}

/// Every character of `s` is printable.
pub open spec fn clean(s: Seq<char>) -> bool {
    forall|i: int| 0 <= i < s.len() ==> printable(#[trigger] s[i])
}

fn next_ansi_state(st: AnsiState, c: char) -> (r: (AnsiState, bool))
    ensures
        r == ansi_step(st, c),
{
    match st {
        AnsiState::Text => if c == '\x1b' {
            (AnsiState::Escape, false)
        } else {
            (AnsiState::Text, c as u32 >= 0x20 || c == '\t')
        },
        AnsiState::Escape => if c == '[' {
            (AnsiState::Csi, false)
        } else if c == ']' {
            (AnsiState::Osc, false)
        } else {
            (AnsiState::Text, false)
        },
        AnsiState::Csi => if is_ascii_alpha(c) || c == '~' {
            (AnsiState::Text, false)
        } else {
            (AnsiState::Csi, false)
        },
        AnsiState::Osc => if c == '\x07' {
            (AnsiState::Text, false)
        } else if c == '\x1b' {
            (AnsiState::OscEscape, false)
        } else {
            (AnsiState::Osc, false)
        },
        AnsiState::OscEscape => (AnsiState::Text, false),
    }
}

/// Strip ANSI CSI/OSC escape sequences and other C0 control chars.
pub fn strip_ansi(s: &str) -> (r: String)
    ensures
        r@ == stripped(s@),
{
    let chars = to_chars(s);
    let mut out: Vec<char> = Vec::new();
    let mut st = AnsiState::Text;
    let mut i: usize = 0;
    while i < chars.len()
        invariant
            i <= chars.len(),
            (st, out@) == strip_fold(chars@.take(i as int)),
        decreases chars.len() - i,
    {
        let c = chars[i];
        let (nst, keep) = next_ansi_state(st, c);
        if keep {
            out.push(c);
        }
        st = nst;
        assert(chars@.take(i + 1).drop_last() == chars@.take(i as int));
        i += 1;
    }
    assert(chars@.take(chars.len() as int) == chars@);
    string_of(&out)
}

/// What stripping keeps is printable.
pub proof fn lemma_stripped_is_clean(s: Seq<char>)
    ensures
        clean(stripped(s)),
    decreases s.len(),
{
    if s.len() > 0 {
        lemma_stripped_is_clean(s.drop_last());
        let prev = strip_fold(s.drop_last());
        let step = ansi_step(prev.0, s.last());
        if step.1 {
            assert forall|i: int| 0 <= i < prev.1.push(s.last()).len() implies printable(
                #[trigger] prev.1.push(s.last())[i],
            ) by {
                if i < prev.1.len() {
                    assert(printable(prev.1[i]));
                }
            }
        }
    }
}

/// Printable text passes through the stripper unchanged.
pub proof fn lemma_clean_is_fixed(s: Seq<char>)
    requires
        clean(s),
    ensures
        strip_fold(s) == (AnsiState::Text, s),
    decreases s.len(),
{
    if s.len() > 0 {
        assert(clean(s.drop_last())) by {
            assert forall|i: int| 0 <= i < s.drop_last().len() implies printable(
                #[trigger] s.drop_last()[i],
            ) by {
                assert(printable(s[i]));
            }
        }
        lemma_clean_is_fixed(s.drop_last());
        assert(printable(s[s.len() - 1]));
        assert(s.drop_last().push(s.last()) == s);
    }
}

/// Law: stripping removes every control character except tab, and
/// stripping twice is the same as stripping once.
pub proof fn law_strip_ansi_idempotent(s: Seq<char>)
    ensures
        clean(stripped(s)),
        stripped(stripped(s)) == stripped(s),
{
    lemma_stripped_is_clean(s);
    lemma_clean_is_fixed(stripped(s));
}

/// `a` is a subsequence of `b`: it is what remains of `b` once some of its
/// characters are removed.
pub open spec fn subsequence(a: Seq<char>, b: Seq<char>) -> bool
    decreases b.len(),
{
    if b.len() == 0 {
        a.len() == 0
    } else if a.len() > 0 && a.last() == b.last() && subsequence(a.drop_last(), b.drop_last()) {
        true
    } else {
        subsequence(a, b.drop_last())
    }
}

/// Law: stripping only removes characters: what it keeps is a
/// subsequence of its input.
pub proof fn law_stripped_is_subsequence(s: Seq<char>)
    ensures
        subsequence(stripped(s), s),
    decreases s.len(),
{
    if s.len() > 0 {
        law_stripped_is_subsequence(s.drop_last());
        let prev = strip_fold(s.drop_last());
        let step = ansi_step(prev.0, s.last());
        if step.1 {
            assert(prev.1.push(s.last()).drop_last() =~= prev.1);
        }
    }
}

// ── splitting a terminal's output into lines ─────────────────────────────────

/// Feeding `s` to a splitter holding the unfinished line `cur`: the new
/// unfinished line, and the raw lines completed on the way. A line ends at
/// `\n`; `\r` ends it too when it is not empty.
pub open spec fn split_fold(cur: Seq<char>, s: Seq<char>) -> (Seq<char>, Seq<Seq<char>>)
    decreases s.len(),
{
    if s.len() == 0 {
        (cur, Seq::empty())
    } else {
        let prev = split_fold(cur, s.drop_last());
        let ch = s.last();
        if ch == '\n' {
            (Seq::empty(), prev.1.push(prev.0))
        } else if ch == '\r' {
            if prev.0.len() > 0 {
                (Seq::empty(), prev.1.push(prev.0))
            } else {
                prev
            }
        } else {
            (prev.0.push(ch), prev.1)
        }
    }
}

/// Law: how the output is cut into chunks does not change the lines: feeding
/// `a` then `b` completes the same lines, in the same order, and leaves the
/// same unfinished line as feeding `a + b` at once.
pub proof fn law_split_chunks_compose(cur: Seq<char>, a: Seq<char>, b: Seq<char>)
    ensures
        ({
            let first = split_fold(cur, a);
            let second = split_fold(first.0, b);
            split_fold(cur, a + b) == (second.0, first.1 + second.1)
        }),
    decreases b.len(),
{
    if b.len() == 0 {
        assert(a + b =~= a);
        assert(split_fold(cur, a).1 + Seq::<Seq<char>>::empty() =~= split_fold(cur, a).1);
    } else {
        law_split_chunks_compose(cur, a, b.drop_last());
        assert((a + b).drop_last() =~= a + b.drop_last());
        assert((a + b).last() == b.last());
        let first = split_fold(cur, a);
        let mid = split_fold(first.0, b.drop_last());
        assert(first.1 + mid.1.push(mid.0) =~= (first.1 + mid.1).push(mid.0));
    }
}

/// Text without line breaks: no `\n` and no `\r`.
pub open spec fn unbroken(s: Seq<char>) -> bool {
    !s.contains('\n') && !s.contains('\r')
}

proof fn lemma_split_plain(cur: Seq<char>, l: Seq<char>)
    requires
        unbroken(l),
    ensures
        split_fold(cur, l) == (cur + l, Seq::<Seq<char>>::empty()),
    decreases l.len(),
{
    if l.len() == 0 {
        assert(cur + l =~= cur);
    } else {
        assert(unbroken(l.drop_last())) by {
            if l.drop_last().contains('\n') || l.drop_last().contains('\r') {
                let k = choose|k: int|
                    0 <= k < l.drop_last().len() && (l.drop_last()[k] == '\n' || l.drop_last()[k]
                        == '\r');
                assert(l[k] == l.drop_last()[k]);
            }
        }
        lemma_split_plain(cur, l.drop_last());
        assert(l.last() == l[l.len() - 1]);
        assert((cur + l.drop_last()).push(l.last()) =~= cur + l);
    }
}

/// Law: completed lines and the line in progress never hold a line break,
/// and a line of plain text followed by `\n` is completed exactly, joined
/// to what was pending before it.
pub proof fn law_split_lines(cur: Seq<char>, s: Seq<char>, l: Seq<char>)
    requires
        unbroken(cur),
    ensures
        unbroken(split_fold(cur, s).0),
        forall|k: int|
            0 <= k < split_fold(cur, s).1.len() ==> unbroken(#[trigger] split_fold(cur, s).1[k]),
        unbroken(l) ==> split_fold(cur, l + seq!['\n']) == (Seq::<char>::empty(), seq![cur + l]),
    decreases s.len(),
{
    if s.len() > 0 {
        law_split_lines(cur, s.drop_last(), l);
        let prev = split_fold(cur, s.drop_last());
        let ch = s.last();
        if ch != '\n' && ch != '\r' {
            assert(unbroken(prev.0.push(ch))) by {
                if prev.0.push(ch).contains('\n') || prev.0.push(ch).contains('\r') {
                    let k = choose|k: int|
                        0 <= k < prev.0.push(ch).len() && (prev.0.push(ch)[k] == '\n' || prev.0.push(
                            ch,
                        )[k] == '\r');
                    if k < prev.0.len() {
                        assert(prev.0.push(ch)[k] == prev.0[k]);
                    }
                }
            }
        } else if ch == '\n' || prev.0.len() > 0 {
            let cur2 = split_fold(cur, s);
            assert forall|k: int| 0 <= k < cur2.1.len() implies unbroken(#[trigger] cur2.1[k]) by {
                if k < prev.1.len() {
                    assert(cur2.1[k] == prev.1[k]);
                } else {
                    assert(cur2.1[k] == prev.0);
                }
            }
            assert(!Seq::<char>::empty().contains('\n') && !Seq::<char>::empty().contains('\r'));
        }
    } else {
        assert(split_fold(cur, s).1.len() == 0);
    }
    if unbroken(l) {
        lemma_split_plain(cur, l);
        let x = l + seq!['\n'];
        assert(x.drop_last() =~= l);
        assert(Seq::<Seq<char>>::empty().push(cur + l) =~= seq![cur + l]);
    }
}

/// The stripped form of each line.
pub open spec fn stripped_lines(ls: Seq<Seq<char>>) -> Seq<Seq<char>> {
    ls.map_values(|l: Seq<char>| stripped(l))
}

/// The partial line shown for an unfinished line.
pub open spec fn partial_of(cur: Seq<char>) -> Option<Seq<char>> {
    if cur.len() > 0 {
        Some(stripped(cur))
    } else {
        None
    }
}

proof fn lemma_views_push(ls: Seq<String>, raw: Seq<Seq<char>>, s: String, r: Seq<char>)
    requires
        views(ls) == stripped_lines(raw),
        s@ == stripped(r),
    ensures
        views(ls.push(s)) == stripped_lines(raw.push(r)),
{
    assert(ls.len() == views(ls).len());
    assert(raw.len() == stripped_lines(raw).len());
    assert forall|k: int| 0 <= k < ls.len() + 1 implies views(ls.push(s))[k] == stripped_lines(
        raw.push(r),
    )[k] by {
        if k < ls.len() {
            assert(views(ls)[k] == stripped_lines(raw)[k]);
        }
    }
    assert(views(ls.push(s)) =~= stripped_lines(raw.push(r)));
}

/// Splits the output of a child terminal into completed lines and the
/// in-progress line that has not seen a newline yet.
pub struct LineSplitter {
    current: Vec<char>,
}

impl LineSplitter {
    /// The unfinished line, raw.
    pub closed spec fn pending(&self) -> Seq<char> {
        self.current@
    }

    pub fn new() -> (s: Self)
        ensures
            s.pending() == Seq::<char>::empty(),
    {
        LineSplitter { current: Vec::new() }
    }

    /// Feed one decoded chunk. Returns the completed lines (stripped) and
    /// the in-progress line (stripped) if one is pending.
    pub fn feed(&mut self, chunk: &str) -> (r: (Vec<String>, Option<String>))
        ensures
            final(self).pending() == split_fold(old(self).pending(), chunk@).0,
            views(r.0@) == stripped_lines(split_fold(old(self).pending(), chunk@).1),
            opt_view(r.1) == partial_of(final(self).pending()),
    {
        let chars = to_chars(chunk);
        let ghost start = self.current@;
        let mut lines: Vec<String> = Vec::new();
        let ghost mut raw: Seq<Seq<char>> = Seq::empty();
        let mut i: usize = 0;
        while i < chars.len()
            invariant
                i <= chars.len(),
                (self.current@, raw) == split_fold(start, chars@.take(i as int)),
                views(lines@) == stripped_lines(raw),
            decreases chars.len() - i,
        {
            let ch = chars[i];
            assert(chars@.take(i + 1).drop_last() == chars@.take(i as int));
            if ch == '\n' || (ch == '\r' && self.current.len() > 0) {
                let line = string_of(&self.current);
                let cleaned = strip_ansi(line.as_str());
                proof {
                    lemma_views_push(lines@, raw, cleaned, self.current@);
                    raw = raw.push(self.current@);
                }
                lines.push(cleaned);
                self.current = Vec::new();
            } else if ch != '\r' {
                self.current.push(ch);
            }
            i += 1;
        }
        assert(chars@.take(chars.len() as int) == chars@);
        let partial = if self.current.len() > 0 {
            let line = string_of(&self.current);
            Some(strip_ansi(line.as_str()))
        } else {
            None
        };
        (lines, partial)
    }

    /// The last unfinished line when the output ends, stripped.
    pub fn finish(&self) -> (r: Option<String>)
        ensures
            opt_view(r) == partial_of(self.pending()),
    {
        if self.current.len() > 0 {
            let line = string_of(&self.current);
            Some(strip_ansi(line.as_str()))
        } else {
            None
        }
    }
}

// ── password prompts ────────────────────────────────────────────────────────

/// What std's `str::to_lowercase` returns for `s` (full Unicode lowercase
/// mapping).
pub uninterp spec fn lowercase(s: Seq<char>) -> Seq<char>;

/// std's `str::to_lowercase`: its result is named, and equal for equal inputs.
#[verifier::external_body]
fn to_lowercase(s: &str) -> (r: String)
    ensures
        r@ == lowercase(s@),
{
    s.to_lowercase()
}

/// Lower-cased text that names a sudo or password prompt.
pub open spec fn has_prompt_marker(lower: Seq<char>) -> bool {
    ||| contains_seq(lower, "[sudo]"@)
    ||| contains_seq(lower, "password for"@)
    ||| contains_seq(lower, "password:"@)
    ||| contains_seq(lower, "contraseña"@)
}

/// Whether already lower-cased text names a sudo or password prompt.
pub fn mentions_password_prompt(lower: &str) -> (b: bool)
    ensures
        b == has_prompt_marker(lower@),
{
    let v = to_chars(lower);
    contains(&v, &to_chars("[sudo]")) || contains(&v, &to_chars("password for")) || contains(
        &v,
        &to_chars("password:"),
    ) || contains(&v, &to_chars("contraseña"))
}

/// A line that, with trailing white space removed, ends in `:` and whose
/// lower-cased form names a password prompt.
pub open spec fn sudo_prompt_like(line: Seq<char>) -> bool {
    let t = trimmed_end(line);
    t.len() > 0 && t.last() == ':' && has_prompt_marker(lowercase(t))
}

/// Heuristic detection of a sudo / password prompt line.
pub fn looks_like_sudo_prompt(line: &str) -> (b: bool)
    ensures
        b == sudo_prompt_like(line@),
{
    let v = to_chars(line);
    let n = trim_end_len(&v, v.len());
    assert(v@.take(v.len() as int) == v@);
    if n == 0 || v[n - 1] != ':' {
        return false;
    }
    let trimmed = string_of_range(&v, 0, n);
    assert(v@.subrange(0, n as int) == v@.take(n as int));
    let lower = to_lowercase(trimmed.as_str());
    mentions_password_prompt(lower.as_str())
}

/// Law: lower-cased text names a password prompt exactly when it contains
/// one of `[sudo]`, `password for`, `password:` or `contraseña`; in
/// particular any line mentioning `[sudo]` counts, whatever its language.
/// A line counts as a sudo prompt when, with trailing white space removed,
/// it ends in `:` and its lower-cased form contains one of them.
pub proof fn law_prompt_markers(lower: Seq<char>, line: Seq<char>)
    ensures
        contains_seq(lower, "[sudo]"@) ==> has_prompt_marker(lower),
        contains_seq(lower, "password for"@) ==> has_prompt_marker(lower),
        contains_seq(lower, "password:"@) ==> has_prompt_marker(lower),
        contains_seq(lower, "contraseña"@) ==> has_prompt_marker(lower),
        has_prompt_marker(lower) ==> contains_seq(lower, "[sudo]"@) || contains_seq(
            lower,
            "password for"@,
        ) || contains_seq(lower, "password:"@) || contains_seq(lower, "contraseña"@),
        ({
            let t = trimmed_end(line);
            t.len() > 0 && t.last() == ':' && contains_seq(lowercase(t), "[sudo]"@)
        }) ==> sudo_prompt_like(line),
        sudo_prompt_like(line) ==> trimmed_end(line).len() > 0 && trimmed_end(line).last() == ':',
{
}

} // verus!
