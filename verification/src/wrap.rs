//! Greedy word wrapping of descriptions for the details panel.
use vstd::prelude::*;
use crate::text::{is_white_space, string_of, to_chars, views, white_space};

verus! {

broadcast use vstd::string::group_string_axioms;

/// Number of bytes of the UTF-8 encoding of `c`.
pub open spec fn char_width(c: char) -> nat {
    let u = c as u32;
    if u <= 0x7f {
        1
    } else if u <= 0x7ff {
        2
    } else if u <= 0xffff {
        3
    } else {
        4
    }
}

/// Number of bytes of the UTF-8 encoding of `s` (what `String::len` counts).
pub open spec fn byte_len(s: Seq<char>) -> nat
    decreases s.len(),
{
    if s.len() == 0 {
        0
    } else {
        byte_len(s.drop_last()) + char_width(s.last())
    }
}

/// Splitting at white space: the words finished so far and the word in progress.
pub open spec fn word_fold(s: Seq<char>) -> (Seq<Seq<char>>, Seq<char>)
    decreases s.len(),
{
    if s.len() == 0 {
        (Seq::empty(), Seq::empty())
    } else {
        let prev = word_fold(s.drop_last());
        let c = s.last();
        if white_space(c) {
            if prev.1.len() > 0 {
                (prev.0.push(prev.1), Seq::empty())
            } else {
                prev
            }
        } else {
            (prev.0, prev.1.push(c))
        }
    }
}

/// The maximal runs of non-white-space characters of `s`, in order
/// (what `str::split_whitespace` yields).
pub open spec fn words_of(s: Seq<char>) -> Seq<Seq<char>> {
    let f = word_fold(s);
    if f.1.len() > 0 {
        f.0.push(f.1)
    } else {
        f.0
    }
}

/// Greedy filling of lines with words: finished lines and the line in progress.
pub open spec fn wrap_fold(ws: Seq<Seq<char>>, width: nat) -> (Seq<Seq<char>>, Seq<char>)
    decreases ws.len(),
{
    if ws.len() == 0 {
        (Seq::empty(), Seq::empty())
    } else {
        let prev = wrap_fold(ws.drop_last(), width);
        let w = ws.last();
        if prev.1.len() == 0 {
            (prev.0, w)
        } else if byte_len(prev.1) + 1 + byte_len(w) <= width {
            (prev.0, prev.1 + seq![' '] + w)
        } else {
            (prev.0.push(prev.1), w)
        }
    }
}

/// The lines of `text` wrapped greedily at `width` bytes.
pub open spec fn wrapped(text: Seq<char>, width: nat) -> Seq<Seq<char>> {
    let f = wrap_fold(words_of(text), width);
    if f.1.len() > 0 {
        f.0.push(f.1)
    } else {
        f.0
    }
}

/// Number of bytes of the UTF-8 encoding of `c`.
pub fn char_len_utf8(c: char) -> (n: u128)
    ensures
        n == char_width(c),
        n <= 4,
{
    let u = c as u32;
    if u <= 0x7f {
        1
    } else if u <= 0x7ff {
        2
    } else if u <= 0xffff {
        3
    } else {
        4
    }
}

/// UTF-8 byte length of `v`.
pub fn chars_byte_len(v: &Vec<char>) -> (n: u128)
    ensures
        n == byte_len(v@),
        n <= 4 * v.len(),
{
    let mut n: u128 = 0;
    let mut i: usize = 0;
    while i < v.len()
        invariant
            i <= v.len(),
            n == byte_len(v@.take(i as int)),
            n <= 4 * i,
        decreases v.len() - i,
    {
        assert(v@.take(i + 1).drop_last() == v@.take(i as int));
        n = n + char_len_utf8(v[i]);
        i += 1;
    }
    assert(v@.take(v.len() as int) == v@);
    n
}

/// The words of `text`, split at Unicode white space.
pub fn split_words(text: &str) -> (ws: Vec<Vec<char>>)
    ensures
        ws@.map_values(|w: Vec<char>| w@) == words_of(text@),
{
    let chars = to_chars(text);
    let mut ws: Vec<Vec<char>> = Vec::new();
    let mut cur: Vec<char> = Vec::new();
    let mut i: usize = 0;
    while i < chars.len()
        invariant
            i <= chars.len(),
            (ws@.map_values(|w: Vec<char>| w@), cur@) == word_fold(chars@.take(i as int)),
        decreases chars.len() - i,
    {
        let c = chars[i];
        assert(chars@.take(i + 1).drop_last() == chars@.take(i as int));
        if is_white_space(c) {
            if cur.len() > 0 {
                let ghost old_ws = ws@;
                ws.push(cur);
                cur = Vec::new();
                assert(ws@.map_values(|w: Vec<char>| w@) =~= old_ws.map_values(
                    |w: Vec<char>| w@,
                ).push(old_ws.push(ws@.last()).last()@));
            }
        } else {
            cur.push(c);
        }
        i += 1;
    }
    assert(chars@.take(chars.len() as int) == chars@);
    if cur.len() > 0 {
        let ghost old_ws = ws@;
        ws.push(cur);
        assert(ws@.map_values(|w: Vec<char>| w@) =~= old_ws.map_values(|w: Vec<char>| w@).push(
            ws@.last()@,
        ));
    }
    ws
}

/// Greedy word wrap of `text` into lines of at most `width` bytes; a word
/// longer than `width` stands alone on its line.
pub fn textwrap(text: &str, width: usize) -> (lines: Vec<String>)
    ensures
        views(lines@) == wrapped(text@, width as nat),
{
    let ws = split_words(text);
    let ghost wv = ws@.map_values(|w: Vec<char>| w@);
    let mut lines: Vec<String> = Vec::new();
    let mut cur: Vec<char> = Vec::new();
    let mut cur_len: u128 = 0;
    let mut i: usize = 0;
    while i < ws.len()
        invariant
            i <= ws.len(),
            wv == ws@.map_values(|w: Vec<char>| w@),
            (views(lines@), cur@) == wrap_fold(wv.take(i as int), width as nat),
            cur_len == byte_len(cur@),
            cur_len <= 0x4_0000_0000_0000_0000,
        decreases ws.len() - i,
    {
        assert(wv.take(i + 1).drop_last() == wv.take(i as int));
        assert(wv[i as int] == ws@[i as int]@);
        let w_len = chars_byte_len(&ws[i]);
        if cur.len() == 0 {
            cur = ws[i].clone();
            cur_len = w_len;
        } else if cur_len + 1 + w_len <= width as u128 {
            let ghost old_cur = cur@;
            cur.push(' ');
            let mut j: usize = 0;
            while j < ws[i].len()
                invariant
                    i < ws.len(),
                    j <= ws[i as int].len(),
                    cur@ == old_cur + seq![' '] + ws@[i as int]@.take(j as int),
                decreases ws[i as int].len() - j,
            {
                cur.push(ws[i][j]);
                assert(ws@[i as int]@.take(j + 1) == ws@[i as int]@.take(j as int).push(
                    ws@[i as int]@[j as int],
                ));
                j += 1;
            }
            assert(ws@[i as int]@.take(ws[i as int].len() as int) == ws@[i as int]@);
            proof {
                lemma_byte_len_concat(old_cur + seq![' '], ws@[i as int]@);
                lemma_byte_len_concat(old_cur, seq![' ']);
                assert(byte_len(seq![' ']) == 1) by {
                    assert(seq![' '].drop_last() =~= Seq::<char>::empty());
                    assert(byte_len(Seq::<char>::empty()) == 0);
                    assert(seq![' '].last() == ' ');
                    assert((' ' as u32) == 32);
                }
            }
            cur_len = cur_len + 1 + w_len;
        } else {
            let ghost old_lines = lines@;
            let line = string_of(&cur);
            lines.push(line);
            assert(views(lines@) =~= views(old_lines).push(cur@));
            cur = ws[i].clone();
            cur_len = w_len;
        }
        i += 1;
    }
    assert(wv.take(ws.len() as int) == wv);
    if cur.len() > 0 {
        let ghost old_lines = lines@;
        let line = string_of(&cur);
        lines.push(line);
        assert(views(lines@) =~= views(old_lines).push(cur@));
    }
    lines
}

pub proof fn lemma_byte_len_concat(a: Seq<char>, b: Seq<char>)
    ensures
        byte_len(a + b) == byte_len(a) + byte_len(b),
    decreases b.len(),
{
    if b.len() == 0 {
        assert(a + b =~= a);
    } else {
        lemma_byte_len_concat(a, b.drop_last());
        assert((a + b).drop_last() =~= a + b.drop_last());
    }
}

/// No character of `s` is white space.
pub open spec fn solid(s: Seq<char>) -> bool {
    forall|k: int| 0 <= k < s.len() ==> !white_space(#[trigger] s[k])
}

/// A wrapped line: it fits in `width` bytes, or it is a single word.
pub open spec fn fits_or_single(l: Seq<char>, width: nat) -> bool {
    byte_len(l) <= width || solid(l)
}

proof fn lemma_word_fold_solid(s: Seq<char>)
    ensures
        forall|j: int|
            0 <= j < word_fold(s).0.len() ==> (#[trigger] word_fold(s).0[j]).len() > 0 && solid(
                word_fold(s).0[j],
            ),
        solid(word_fold(s).1),
    decreases s.len(),
{
    if s.len() > 0 {
        lemma_word_fold_solid(s.drop_last());
        let prev = word_fold(s.drop_last());
        let c = s.last();
        if !white_space(c) {
            assert forall|k: int| 0 <= k < prev.1.push(c).len() implies !white_space(
                #[trigger] prev.1.push(c)[k],
            ) by {
                if k < prev.1.len() {
                    assert(prev.1.push(c)[k] == prev.1[k]);
                }
            }
        }
    }
}

/// The words of a text are non-empty and hold no white space.
pub proof fn lemma_words_solid(s: Seq<char>)
    ensures
        forall|j: int|
            0 <= j < words_of(s).len() ==> (#[trigger] words_of(s)[j]).len() > 0 && solid(
                words_of(s)[j],
            ),
{
    lemma_word_fold_solid(s);
}

proof fn lemma_wrap_fold_fits(ws: Seq<Seq<char>>, width: nat)
    requires
        forall|j: int| 0 <= j < ws.len() ==> (#[trigger] ws[j]).len() > 0 && solid(ws[j]),
    ensures
        forall|j: int|
            0 <= j < wrap_fold(ws, width).0.len() ==> (#[trigger] wrap_fold(ws, width).0[j]).len()
                > 0 && fits_or_single(wrap_fold(ws, width).0[j], width),
        fits_or_single(wrap_fold(ws, width).1, width),
        wrap_fold(ws, width).1.len() == 0 <==> ws.len() == 0,
    decreases ws.len(),
{
    if ws.len() > 0 {
        assert forall|j: int| 0 <= j < ws.drop_last().len() implies (#[trigger] ws.drop_last()[j]).len()
            > 0 && solid(ws.drop_last()[j]) by {
            assert(ws.drop_last()[j] == ws[j]);
        }
        lemma_wrap_fold_fits(ws.drop_last(), width);
        assert(ws.last() == ws[ws.len() - 1]);
        assert(solid(ws.last()));
        let prev = wrap_fold(ws.drop_last(), width);
        let w = ws.last();
        if prev.1.len() == 0 {
            assert(wrap_fold(ws, width).1 == w);
        } else if byte_len(prev.1) + 1 + byte_len(w) <= width {
            lemma_byte_len_concat(prev.1 + seq![' '], w);
            assert(byte_len(prev.1 + seq![' ']) <= byte_len(prev.1) + 1) by {
                lemma_byte_len_concat(prev.1, seq![' ']);
                assert(seq![' '].drop_last() =~= Seq::<char>::empty());
                assert(byte_len(Seq::<char>::empty()) == 0);
                assert((' ' as u32) == 32);
            }
        } else {
            assert(wrap_fold(ws, width).1 == w);
        }
    }
}

/// Law: every line of a wrapped text is non-empty, and fits in the width
/// unless it is a single word too long to fit.
pub proof fn law_wrapped_lines_fit(text: Seq<char>, width: nat)
    ensures
        forall|i: int|
            0 <= i < wrapped(text, width).len() ==> (#[trigger] wrapped(text, width)[i]).len() > 0
                && fits_or_single(wrapped(text, width)[i], width),
{
    lemma_words_solid(text);
    lemma_wrap_fold_fits(words_of(text), width);
}

/// The words of each line, one line after the other.
pub open spec fn words_of_lines(ls: Seq<Seq<char>>) -> Seq<Seq<char>>
    decreases ls.len(),
{
    if ls.len() == 0 {
        Seq::empty()
    } else {
        words_of_lines(ls.drop_last()) + words_of(ls.last())
    }
}

proof fn lemma_word_fold_solid_suffix(x: Seq<char>, w: Seq<char>)
    requires
        solid(w),
    ensures
        word_fold(x + w) == (word_fold(x).0, word_fold(x).1 + w),
    decreases w.len(),
{
    if w.len() == 0 {
        assert(x + w =~= x);
        assert(word_fold(x).1 + w =~= word_fold(x).1);
    } else {
        assert(solid(w.drop_last())) by {
            assert forall|k: int| 0 <= k < w.drop_last().len() implies !white_space(
                #[trigger] w.drop_last()[k],
            ) by {
                assert(w.drop_last()[k] == w[k]);
            }
        }
        lemma_word_fold_solid_suffix(x, w.drop_last());
        assert((x + w).drop_last() =~= x + w.drop_last());
        assert((x + w).last() == w[w.len() - 1]);
        assert(!white_space(w[w.len() - 1]));
        assert(word_fold(x).1 + w.drop_last() + seq![w.last()] =~= word_fold(x).1 + w);
    }
}

/// A single word without white space is its own only word.
pub proof fn lemma_words_of_solid(w: Seq<char>)
    requires
        solid(w),
        w.len() > 0,
    ensures
        words_of(w) == seq![w],
{
    lemma_word_fold_solid_suffix(Seq::empty(), w);
    assert(Seq::<char>::empty() + w =~= w);
    assert(word_fold(Seq::<char>::empty()) == (Seq::<Seq<char>>::empty(), Seq::<char>::empty()));
    assert(Seq::<Seq<char>>::empty().push(w) =~= seq![w]);
}

proof fn lemma_words_of_join(a: Seq<char>, w: Seq<char>)
    requires
        solid(w),
        w.len() > 0,
    ensures
        words_of(a + seq![' '] + w) == words_of(a).push(w),
{
    let x = a + seq![' '];
    assert(x.drop_last() =~= a);
    assert(x.last() == ' ');
    assert(white_space(' '));
    assert(word_fold(x).1 == Seq::<char>::empty());
    assert(word_fold(x).0 == words_of(a));
    lemma_word_fold_solid_suffix(x, w);
    assert(Seq::<char>::empty() + w =~= w);
}

proof fn lemma_words_of_lines_push(ls: Seq<Seq<char>>, l: Seq<char>)
    ensures
        words_of_lines(ls.push(l)) == words_of_lines(ls) + words_of(l),
{
    assert(ls.push(l).drop_last() =~= ls);
}

proof fn lemma_wrap_fold_words(ws: Seq<Seq<char>>, width: nat)
    requires
        forall|j: int| 0 <= j < ws.len() ==> (#[trigger] ws[j]).len() > 0 && solid(ws[j]),
    ensures
        ({
            let f = wrap_fold(ws, width);
            words_of_lines(f.0) + (if f.1.len() > 0 {
                words_of(f.1)
            } else {
                Seq::empty()
            }) == ws
        }),
        wrap_fold(ws, width).1.len() > 0 <==> ws.len() > 0,
    decreases ws.len(),
{
    if ws.len() == 0 {
        assert(words_of_lines(Seq::<Seq<char>>::empty()) + Seq::<Seq<char>>::empty() =~= ws);
    } else {
        assert forall|j: int| 0 <= j < ws.drop_last().len() implies (#[trigger] ws.drop_last()[j]).len()
            > 0 && solid(ws.drop_last()[j]) by {
            assert(ws.drop_last()[j] == ws[j]);
        }
        lemma_wrap_fold_words(ws.drop_last(), width);
        let prev = wrap_fold(ws.drop_last(), width);
        let w = ws.last();
        assert(w == ws[ws.len() - 1]);
        lemma_words_of_solid(w);
        if prev.1.len() == 0 {
            assert(words_of_lines(prev.0) + Seq::<Seq<char>>::empty() =~= words_of_lines(prev.0));
            assert(words_of_lines(prev.0) + seq![w] =~= ws);
        } else if byte_len(prev.1) + 1 + byte_len(w) <= width {
            lemma_words_of_join(prev.1, w);
            assert(words_of_lines(prev.0) + words_of(prev.1).push(w) =~= (words_of_lines(prev.0)
                + words_of(prev.1)).push(w));
            assert(ws.drop_last().push(w) =~= ws);
        } else {
            lemma_words_of_lines_push(prev.0, prev.1);
            assert(words_of_lines(prev.0) + words_of(prev.1) + seq![w] =~= ws);
        }
    }
}

/// Law: wrapping neither loses, adds nor reorders words: the words of the
/// lines, one line after the other, are the words of the text.
pub proof fn law_wrap_keeps_words(text: Seq<char>, width: nat)
    ensures
        words_of_lines(wrapped(text, width)) == words_of(text),
{
    lemma_words_solid(text);
    lemma_wrap_fold_words(words_of(text), width);
    let f = wrap_fold(words_of(text), width);
    if f.1.len() > 0 {
        lemma_words_of_lines_push(f.0, f.1);
    } else {
        assert(words_of_lines(f.0) + Seq::<Seq<char>>::empty() =~= words_of_lines(f.0));
    }
}

/// No line could take the first word of the next one: with a space, it
/// would not fit in `width`.
pub open spec fn no_room_for_next(ls: Seq<Seq<char>>, width: nat) -> bool {
    forall|i: int|
        0 <= i < ls.len() - 1 ==> byte_len(#[trigger] ls[i]) + 1 + byte_len(words_of(ls[i + 1])[0])
            > width
}

proof fn lemma_wrap_fold_greedy(ws: Seq<Seq<char>>, width: nat)
    requires
        forall|j: int| 0 <= j < ws.len() ==> (#[trigger] ws[j]).len() > 0 && solid(ws[j]),
    ensures
        ({
            let f = wrap_fold(ws, width);
            &&& no_room_for_next(f.0, width)
            &&& f.1.len() > 0 ==> words_of(f.1).len() > 0
            &&& f.0.len() > 0 && f.1.len() > 0 ==> byte_len(f.0.last()) + 1 + byte_len(
                words_of(f.1)[0],
            ) > width
            &&& f.1.len() == 0 ==> f.0.len() == 0
        }),
    decreases ws.len(),
{
    if ws.len() > 0 {
        assert forall|j: int| 0 <= j < ws.drop_last().len() implies (#[trigger] ws.drop_last()[j]).len()
            > 0 && solid(ws.drop_last()[j]) by {
            assert(ws.drop_last()[j] == ws[j]);
        }
        lemma_wrap_fold_greedy(ws.drop_last(), width);
        lemma_wrap_fold_fits(ws.drop_last(), width);
        let prev = wrap_fold(ws.drop_last(), width);
        let w = ws.last();
        assert(w == ws[ws.len() - 1]);
        lemma_words_of_solid(w);
        let f = wrap_fold(ws, width);
        if prev.1.len() == 0 {
            assert(ws.len() == 1);
            assert(f.0 == prev.0);
        } else if byte_len(prev.1) + 1 + byte_len(w) <= width {
            lemma_words_of_join(prev.1, w);
            assert(words_of(f.1)[0] == words_of(prev.1)[0]);
        } else {
            assert(f.0 == prev.0.push(prev.1));
            assert forall|i: int| 0 <= i < f.0.len() - 1 implies byte_len(#[trigger] f.0[i]) + 1
                + byte_len(words_of(f.0[i + 1])[0]) > width by {
                if i < prev.0.len() - 1 {
                    assert(f.0[i] == prev.0[i] && f.0[i + 1] == prev.0[i + 1]);
                } else {
                    assert(f.0[i] == prev.0.last());
                    assert(f.0[i + 1] == prev.1);
                }
            }
        }
    }
}

/// Law: wrapping is greedy: no line could also have held the first word of
/// the line after it, so no line break comes earlier than it has to.
pub proof fn law_wrap_is_greedy(text: Seq<char>, width: nat)
    ensures
        no_room_for_next(wrapped(text, width), width),
{
    lemma_words_solid(text);
    let ws = words_of(text);
    lemma_wrap_fold_greedy(ws, width);
    let f = wrap_fold(ws, width);
    let l = wrapped(text, width);
    if f.1.len() > 0 {
        assert(l == f.0.push(f.1));
        assert forall|i: int| 0 <= i < l.len() - 1 implies byte_len(#[trigger] l[i]) + 1 + byte_len(
            words_of(l[i + 1])[0],
        ) > width by {
            if i < f.0.len() - 1 {
                assert(l[i] == f.0[i] && l[i + 1] == f.0[i + 1]);
            } else {
                assert(l[i] == f.0.last());
                assert(l[i + 1] == f.1);
            }
        }
    }
}

} // verus!
