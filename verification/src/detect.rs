//! Recognising the Linux distribution from the text of `/etc/os-release`.
use vstd::prelude::*;
use crate::text::{find_char, find_char_from, same_text, string_of_range, to_chars};
use crate::wrap::{split_words, words_of};

verus! {

broadcast use vstd::string::group_string_axioms;

/// The distributions the installers distinguish.
#[derive(Debug, Clone, Copy, PartialEq, Eq, Structural)]
pub enum Distro {
    /// Arch Linux or a derivative (such as CachyOS).
    Arch,
    Other,
}

/// A line without the `\r` of a `\r\n` ending.
pub open spec fn strip_cr(l: Seq<char>) -> Seq<char> {
    if l.len() > 0 && l.last() == '\r' {
        l.drop_last()
    } else {
        l
    }
}

/// Splitting at `\n`: finished lines (without `\r\n`) and the line in progress.
pub open spec fn line_fold(s: Seq<char>) -> (Seq<Seq<char>>, Seq<char>)
    decreases s.len(),
{
    if s.len() == 0 {
        (Seq::empty(), Seq::empty())
    } else {
        let prev = line_fold(s.drop_last());
        if s.last() == '\n' {
            (prev.0.push(strip_cr(prev.1)), Seq::empty())
        } else {
            (prev.0, prev.1.push(s.last()))
        }
    }
}

/// The lines of `s` as `str::lines` yields them: split at `\n`, a `\r`
/// before the `\n` dropped, no empty line after a final `\n`.
pub open spec fn lines_of(s: Seq<char>) -> Seq<Seq<char>> {
    let f = line_fold(s);
    if f.1.len() > 0 {
        f.0.push(f.1)
    } else {
        f.0
    }
}

/// `s` without leading double quotes.
pub open spec fn strip_leading_quotes(s: Seq<char>) -> Seq<char>
    decreases s.len(),
{
    if s.len() > 0 && s[0] == '"' {
        strip_leading_quotes(s.drop_first())
    } else {
        s
    }
}

/// `s` without trailing double quotes.
pub open spec fn strip_trailing_quotes(s: Seq<char>) -> Seq<char>
    decreases s.len(),
{
    if s.len() > 0 && s.last() == '"' {
        strip_trailing_quotes(s.drop_last())
    } else {
        s
    }
}

/// `s` without double quotes at either end (`str::trim_matches('"')`).
pub open spec fn strip_quotes(s: Seq<char>) -> Seq<char> {
    strip_trailing_quotes(strip_leading_quotes(s))
}

/// An identifier of an Arch-based distribution.
pub open spec fn arch_id(w: Seq<char>) -> bool {
    w == "arch"@ || w == "cachyos"@
}

/// A line `ID=...` or `ID_LIKE=...` whose value (quotes removed) names an
/// Arch-based distribution among its white-space separated words.
pub open spec fn arch_line(l: Seq<char>) -> bool {
    match find_char_from(l, '=', 0) {
        None => false,
        Some(k) => {
            let key = l.take(k);
            let ids = words_of(strip_quotes(l.skip(k + 1)));
            (key == "ID"@ || key == "ID_LIKE"@) && exists|j: int|
                0 <= j < ids.len() && arch_id(#[trigger] ids[j])
        },
    }
}

/// The distribution described by the text of `/etc/os-release`.
pub open spec fn spec_distro(content: Seq<char>) -> Distro {
    let ls = lines_of(content);
    if exists|i: int| 0 <= i < ls.len() && arch_line(#[trigger] ls[i]) {
        Distro::Arch
    } else {
        Distro::Other
    }
}

/// The lines of `v`.
fn split_lines(v: &Vec<char>) -> (ls: Vec<Vec<char>>)
    ensures
        ls@.map_values(|l: Vec<char>| l@) == lines_of(v@),
{
    let mut ls: Vec<Vec<char>> = Vec::new();
    let mut cur: Vec<char> = Vec::new();
    let mut i: usize = 0;
    while i < v.len()
        invariant
            i <= v.len(),
            (ls@.map_values(|l: Vec<char>| l@), cur@) == line_fold(v@.take(i as int)),
        decreases v.len() - i,
    {
        assert(v@.take(i + 1).drop_last() == v@.take(i as int));
        if v[i] == '\n' {
            if cur.len() > 0 && cur[cur.len() - 1] == '\r' {
                cur.pop();
            }
            let ghost old_ls = ls@;
            ls.push(cur);
            assert(ls@.map_values(|l: Vec<char>| l@) =~= old_ls.map_values(|l: Vec<char>| l@).push(
                ls@.last()@,
            ));
            cur = Vec::new();
        } else {
            cur.push(v[i]);
        }
        i += 1;
    }
    assert(v@.take(v.len() as int) == v@);
    if cur.len() > 0 {
        let ghost old_ls = ls@;
        ls.push(cur);
        assert(ls@.map_values(|l: Vec<char>| l@) =~= old_ls.map_values(|l: Vec<char>| l@).push(
            ls@.last()@,
        ));
    }
    ls
}

/// Start and end of `v[from..]` once double quotes are removed at both ends.
fn quote_bounds(v: &Vec<char>, from: usize) -> (r: (usize, usize))
    requires
        from <= v.len(),
    ensures
        from <= r.0 <= r.1 <= v.len(),
        v@.subrange(r.0 as int, r.1 as int) == strip_quotes(v@.skip(from as int)),
{
    let mut s = from;
    while s < v.len() && v[s] == '"'
        invariant
            from <= s <= v.len(),
            strip_leading_quotes(v@.skip(from as int)) == strip_leading_quotes(v@.skip(s as int)),
        decreases v.len() - s,
    {
        assert(v@.skip(s as int).drop_first() == v@.skip(s + 1));
        s += 1;
    }
    assert(strip_leading_quotes(v@.skip(s as int)) == v@.skip(s as int));
    let mut e = v.len();
    assert(v@.skip(s as int) == v@.subrange(s as int, e as int));
    while e > s && v[e - 1] == '"'
        invariant
            s <= e <= v.len(),
            strip_trailing_quotes(v@.skip(s as int)) == strip_trailing_quotes(
                v@.subrange(s as int, e as int),
            ),
        decreases e,
    {
        assert(v@.subrange(s as int, e as int).drop_last() == v@.subrange(s as int, e - 1));
        e -= 1;
    }
    (s, e)
}

/// Whether one line of the file names an Arch-based distribution.
fn is_arch_line(l: &Vec<char>) -> (b: bool)
    ensures
        b == arch_line(l@),
{
    let k = match find_char(l, '=', 0) {
        None => {
            return false;
        },
        Some(k) => k,
    };
    proof {
        crate::text::lemma_find_char_from_sound(l@, '=', 0);
        assert(find_char_from(l@, '=', 0) == Some(k as int));
    }
    assert(k < l.len());
    let key = string_of_range(l, 0, k);
    assert(l@.subrange(0, k as int) == l@.take(k as int));
    if !(same_text(key.as_str(), "ID") || same_text(key.as_str(), "ID_LIKE")) {
        return false;
    }
    let (s, e) = quote_bounds(l, k + 1);
    let value = string_of_range(l, s, e);
    let ids = split_words(value.as_str());
    assert(value@ == strip_quotes(l@.skip(k + 1)));
    assert(key@ == l@.take(k as int));
    assert(ids@.map_values(|w: Vec<char>| w@) == words_of(strip_quotes(l@.skip(k + 1))));
    let ghost idv = ids@.map_values(|w: Vec<char>| w@);
    let mut j: usize = 0;
    while j < ids.len()
        invariant
            j <= ids.len(),
            idv == ids@.map_values(|w: Vec<char>| w@),
            idv == words_of(strip_quotes(l@.skip(k + 1))),
            k < l@.len(),
            find_char_from(l@, '=', 0) == Some(k as int),
            l@.take(k as int) == "ID"@ || l@.take(k as int) == "ID_LIKE"@,
            forall|m: int| 0 <= m < j ==> !arch_id(#[trigger] idv[m]),
        decreases ids.len() - j,
    {
        let w = string_of_range(&ids[j], 0, ids[j].len());
        assert(ids@[j as int]@.subrange(0, ids[j as int].len() as int) == ids@[j as int]@);
        if same_text(w.as_str(), "arch") || same_text(w.as_str(), "cachyos") {
            assert(arch_id(idv[j as int]));
            assert(idv == words_of(strip_quotes(l@.skip(k + 1))));
            assert(0 <= j < idv.len() && arch_id(idv[j as int]));
            assert(arch_id(words_of(strip_quotes(l@.skip(k + 1)))[j as int]));
            assert({
                let ids = words_of(strip_quotes(l@.skip(k + 1)));
                exists|jj: int| 0 <= jj < ids.len() && arch_id(#[trigger] ids[jj])
            });
            assert(find_char_from(l@, '=', 0) matches Some(kk) && kk == k);
            assert(l@.take(k as int) == "ID"@ || l@.take(k as int) == "ID_LIKE"@);
            assert(arch_line(l@));
            return true;
        }
        j += 1;
    }
    false
}

/// The distribution described by the text of `/etc/os-release`: Arch when
/// an `ID` or `ID_LIKE` line names `arch` or `cachyos`.
pub fn distro_from_os_release(content: &str) -> (d: Distro)
    ensures
        d == spec_distro(content@),
{
    let v = to_chars(content);
    let ls = split_lines(&v);
    let ghost lv = ls@.map_values(|l: Vec<char>| l@);
    let mut i: usize = 0;
    while i < ls.len()
        invariant
            i <= ls.len(),
            lv == ls@.map_values(|l: Vec<char>| l@),
            lv == lines_of(v@),
            v@ == content@,
            forall|m: int| 0 <= m < i ==> !arch_line(#[trigger] lv[m]),
        decreases ls.len() - i,
    {
        if is_arch_line(&ls[i]) {
            assert(arch_line(lv[i as int]));
            assert(lines_of(content@)[i as int] == lv[i as int]);
            return Distro::Arch;
        }
        i += 1;
    }
    Distro::Other
}

proof fn lemma_line_fold_append(x: Seq<char>, y: Seq<char>)
    requires
        line_fold(x).1.len() == 0,
    ensures
        line_fold(x + y) == (line_fold(x).0 + line_fold(y).0, line_fold(y).1),
    decreases y.len(),
{
    if y.len() == 0 {
        assert(x + y =~= x);
        assert(line_fold(x).0 + Seq::<Seq<char>>::empty() =~= line_fold(x).0);
    } else {
        lemma_line_fold_append(x, y.drop_last());
        assert((x + y).drop_last() =~= x + y.drop_last());
        assert((x + y).last() == y.last());
        let a = line_fold(x).0;
        let b = line_fold(y.drop_last());
        assert(a + b.0.push(strip_cr(b.1)) =~= (a + b.0).push(strip_cr(b.1)));
    }
}

proof fn lemma_line_fold_no_newline(l: Seq<char>)
    requires
        !l.contains('\n'),
    ensures
        line_fold(l) == (Seq::<Seq<char>>::empty(), l),
    decreases l.len(),
{
    if l.len() > 0 {
        assert(!l.drop_last().contains('\n')) by {
            if l.drop_last().contains('\n') {
                let k = choose|k: int| 0 <= k < l.drop_last().len() && l.drop_last()[k] == '\n';
                assert(l[k] == '\n');
            }
        }
        lemma_line_fold_no_newline(l.drop_last());
        assert(l.last() == l[l.len() - 1]);
        assert(l.drop_last().push(l.last()) =~= l);
    }
}

/// The line `key=value`.
pub open spec fn os_release_line(like: bool, cachy: bool) -> Seq<char> {
    (if like {
        "ID_LIKE="@
    } else {
        "ID="@
    }) + (if cachy {
        "cachyos"@
    } else {
        "arch"@
    })
}

/// Law: a whole line `ID=arch`, `ID=cachyos`, `ID_LIKE=arch` or
/// `ID_LIKE=cachyos` anywhere in `/etc/os-release` makes the system count
/// as Arch, whatever comes before or after it.
pub proof fn law_arch_line_anywhere(before: Seq<char>, after: Seq<char>, like: bool, cachy: bool)
    requires
        before.len() == 0 || before.last() == '\n',
    ensures
        spec_distro(before + os_release_line(like, cachy) + seq!['\n'] + after) == Distro::Arch,
{
    reveal_strlit("ID_LIKE=");
    reveal_strlit("ID=");
    reveal_strlit("cachyos");
    reveal_strlit("arch");
    reveal_strlit("ID_LIKE");
    reveal_strlit("ID");
    let line = os_release_line(like, cachy);
    let value = if cachy {
        "cachyos"@
    } else {
        "arch"@
    };
    let key = if like {
        "ID_LIKE"@
    } else {
        "ID"@
    };
    assert(line =~= key + seq!['='] + value);
    // The line holds no newline and does not end in `\r`.
    assert(!line.contains('\n')) by {
        if line.contains('\n') {
            let k = choose|k: int| 0 <= k < line.len() && line[k] == '\n';
            assert(line[k] != '\n');
        }
    }
    assert(line.last() != '\r');
    // Its lines.
    if before.len() > 0 {
        assert(before.drop_last().push(before.last()) =~= before);
    }
    assert(line_fold(before).1.len() == 0);
    lemma_line_fold_no_newline(line);
    let y = line + seq!['\n'];
    assert(y.drop_last() =~= line);
    assert(line_fold(y) == (seq![strip_cr(line)], Seq::<char>::empty()));
    assert(strip_cr(line) == line);
    assert(line_fold(y).1.len() == 0);
    lemma_line_fold_append(y, after);
    lemma_line_fold_append(before, y + after);
    let content = before + line + seq!['\n'] + after;
    assert(content =~= before + (y + after));
    let lf = line_fold(content);
    let n = line_fold(before).0.len() as int;
    assert(lf.0 == line_fold(before).0 + (seq![line] + line_fold(after).0));
    assert(lf.0[n] == line);
    let ls = lines_of(content);
    assert(ls[n] == line);
    // The line names an Arch distribution.
    assert(find_char_from(line, '=', 0) == Some(key.len() as int)) by {
        assert forall|k: int| 0 <= k < key.len() implies line[k] != '=' by {
            assert(line[k] == key[k]);
        }
        lemma_find_char_first(line, '=', 0, key.len() as int);
    }
    assert(line.take(key.len() as int) =~= key);
    assert(line.skip(key.len() as int + 1) =~= value);
    assert(strip_leading_quotes(value) == value);
    assert(strip_trailing_quotes(value) == value);
    assert(crate::wrap::solid(value)) by {
        assert forall|k: int| 0 <= k < value.len() implies !crate::text::white_space(
            #[trigger] value[k],
        ) by {
            assert('a' <= value[k] <= 'y');
        }
    }
    crate::wrap::lemma_words_of_solid(value);
    let ids = words_of(strip_quotes(value));
    assert(ids[0] == value);
    if cachy {
        assert(value == "cachyos"@);
    } else {
        assert(value == "arch"@);
    }
    let k = key.len() as int;
    assert(words_of(strip_quotes(line.skip(k + 1))) == ids);
    lemma_arch_line_intro(line, k);
    assert(arch_line(ls[n]));
}

proof fn lemma_arch_line_intro(l: Seq<char>, k: int)
    requires
        find_char_from(l, '=', 0) == Some(k),
        l.take(k) =~= "ID"@ || l.take(k) =~= "ID_LIKE"@,
        words_of(strip_quotes(l.skip(k + 1))).len() > 0,
        arch_id(words_of(strip_quotes(l.skip(k + 1)))[0]),
    ensures
        arch_line(l),
{
}

proof fn lemma_find_char_first(s: Seq<char>, c: char, j: int, n: int)
    requires
        0 <= j <= n < s.len(),
        s[n] == c,
        forall|k: int| j <= k < n ==> s[k] != c,
    ensures
        find_char_from(s, c, j) == Some(n),
    decreases n - j,
{
    if j < n {
        lemma_find_char_first(s, c, j + 1, n);
    }
}

} // verus!
