//! Small text formats used by the pages: relative times, word counts,
//! whitespace collapsing and the normal form used to compare passages.
use vstd::prelude::*;
use crate::text::{
    push_char, chars_of, is_ws, is_whitespace, is_ascii_punct,
    is_ascii_punctuation, trim, trim_seq, trim_start_seq, trim_end_seq, push_decimal, decimal, to_lowercase, spec_to_lowercase,
    string_from_chars,
};

verus! {

// ---------------------------------------------------------------------
// Relative time
// ---------------------------------------------------------------------

/// How long before `now` the time `timestamp` was, in the largest unit
/// that fits (`now`, minutes, hours, days, weeks); `now` for the future.
pub open spec fn relative_time_spec(timestamp: u64, now: u64) -> Seq<char> {
    if timestamp > now {
        "now"@
    } else {
        let diff = (now - timestamp) as nat;
        if diff / 60 < 1 {
            "now"@
        } else if diff / 60 < 60 {
            decimal(diff / 60) + "m"@
        } else if diff / 3600 < 24 {
            decimal(diff / 3600) + "h"@
        } else if diff / 86400 < 7 {
            decimal(diff / 86400) + "d"@
        } else {
            decimal(diff / 604800) + "w"@
        }
    }
}

/// Formats a unix timestamp relative to `now` (e.g. `6h`, `2d`, `3w`).
pub fn format_relative_time(timestamp: u64, now: u64) -> (res: String)
    ensures
        res@ == relative_time_spec(timestamp, now),
{
    if timestamp > now {
        return "now".to_owned();
    }
    let diff = now - timestamp;
    let minutes = diff / 60;
    let hours = diff / 3600;
    let days = diff / 86400;
    let weeks = diff / 604800;
    let mut s = String::new();
    if minutes < 1 {
        s.append("now");
    } else if minutes < 60 {
        push_decimal(&mut s, minutes);
        s.append("m");
    } else if hours < 24 {
        push_decimal(&mut s, hours);
        s.append("h");
    } else if days < 7 {
        push_decimal(&mut s, days);
        s.append("d");
    } else {
        push_decimal(&mut s, weeks);
        s.append("w");
    }
    s
}

// ---------------------------------------------------------------------
// Replacing one character
// ---------------------------------------------------------------------

/// `s` with every `c` replaced by `r`.
pub open spec fn replace_char_spec(s: Seq<char>, c: char, r: Seq<char>) -> Seq<char>
    decreases s.len(),
{
    if s.len() == 0 {
        Seq::empty()
    } else {
        replace_char_spec(s.drop_last(), c, r) + if s.last() == c {
            r
        } else {
            seq![s.last()]
        }
    }
}

/// `str::replace` of one character by a string.
pub fn replace_char(s: &str, c: char, r: &str) -> (res: String)
    ensures
        res@ == replace_char_spec(s@, c, r@),
{
    let v = chars_of(s);
    let mut out = String::new();
    for i in 0..v.len()
        invariant
            v@ == s@,
            out@ == replace_char_spec(v@.take(i as int), c, r@),
    {
        assert(v@.take(i + 1).drop_last() =~= v@.take(i as int));
        if v[i] == c {
            out.append(r);
        } else {
            push_char(&mut out, v[i]);
        }
    }
    assert(v@.take(v.len() as int) =~= v@);
    out
}

// ---------------------------------------------------------------------
// Words
// ---------------------------------------------------------------------

/// The number of maximal runs of non-whitespace characters in `s`
/// (`split_whitespace().count()`).
pub open spec fn word_count_spec(s: Seq<char>) -> nat
    decreases s.len(),
{
    if s.len() == 0 {
        0
    } else {
        word_count_spec(s.drop_last()) + if !is_ws(s.last()) && (s.len() == 1 || is_ws(
            s[s.len() - 2],
        )) {
            1nat
        } else {
            0nat
        }
    }
}

pub fn word_count(s: &str) -> (res: usize)
    ensures
        res == word_count_spec(s@),
{
    let v = chars_of(s);
    let mut n: usize = 0;
    for i in 0..v.len()
        invariant
            v@ == s@,
            n == word_count_spec(v@.take(i as int)),
            n <= i,
    {
        let ghost t = v@.take(i + 1);
        assert(t.drop_last() =~= v@.take(i as int));
        assert(t.last() == v@[i as int]);
        if i > 0 {
            assert(t[t.len() - 2] == v@[i - 1]);
        }
        if !is_whitespace(v[i]) && (i == 0 || is_whitespace(v[i - 1])) {
            n = n + 1;
        }
    }
    assert(v@.take(v.len() as int) =~= v@);
    n
}

// ---------------------------------------------------------------------
// Collapsing whitespace
// ---------------------------------------------------------------------

/// Reading `s` left to right: each run of whitespace after some output
/// becomes one space; other characters are kept. Gives the output and
/// whether it ends in such a space.
pub open spec fn collapse_fold(s: Seq<char>) -> (Seq<char>, bool)
    decreases s.len(),
{
    if s.len() == 0 {
        (Seq::empty(), false)
    } else {
        let (out, last_space) = collapse_fold(s.drop_last());
        let ch = s.last();
        if is_ws(ch) {
            if !last_space && out.len() > 0 {
                (out.push(' '), true)
            } else {
                (out, last_space)
            }
        } else {
            (out.push(ch), false)
        }
    }
}

/// Runs of whitespace collapsed to one space, and the ends trimmed.
pub open spec fn collapse_whitespace_spec(s: Seq<char>) -> Seq<char> {
    trim_seq(collapse_fold(s).0)
}

pub fn collapse_whitespace(input: &str) -> (res: String)
    ensures
        res@ == collapse_whitespace_spec(input@),
{
    let v = chars_of(input);
    let mut result = String::new();
    let mut last_space = false;
    for i in 0..v.len()
        invariant
            v@ == input@,
            (result@, last_space) == collapse_fold(v@.take(i as int)),
    {
        assert(v@.take(i + 1).drop_last() =~= v@.take(i as int));
        let ch = v[i];
        if is_whitespace(ch) {
            if !last_space && result.as_str().unicode_len() > 0 {
                push_char(&mut result, ' ');
                last_space = true;
            }
        } else {
            push_char(&mut result, ch);
            last_space = false;
        }
    }
    assert(v@.take(v.len() as int) =~= v@);
    trim(result.as_str())
}

/// The words of `s`, its maximal runs of characters other than
/// whitespace, in order: a character other than whitespace extends the
/// last word when it follows another such character, else starts a word.
pub open spec fn words(s: Seq<char>) -> Seq<Seq<char>>
    decreases s.len(),
{
    if s.len() == 0 {
        Seq::empty()
    } else {
        let w = words(s.drop_last());
        let c = s.last();
        if is_ws(c) {
            w
        } else if s.len() > 1 && !is_ws(s[s.len() - 2]) {
            w.drop_last().push(w.last().push(c))
        } else {
            w.push(seq![c])
        }
    }
}

/// Words joined with one space between each two.
pub open spec fn join_words(ws: Seq<Seq<char>>) -> Seq<char>
    decreases ws.len(),
{
    if ws.len() == 0 {
        Seq::empty()
    } else if ws.len() == 1 {
        ws[0]
    } else {
        join_words(ws.drop_last()) + seq![' '] + ws.last()
    }
}

/// Each word is non-empty and holds no whitespace.
pub open spec fn words_wf(ws: Seq<Seq<char>>) -> bool {
    forall|i: int|
        0 <= i < ws.len() ==> #[trigger] ws[i].len() > 0 && forall|j: int|
            0 <= j < ws[i].len() ==> !is_ws(#[trigger] ws[i][j])
}

proof fn lemma_words(s: Seq<char>)
    ensures
        words_wf(words(s)),
        words(s).len() == word_count_spec(s),
        s.len() > 0 && !is_ws(s.last()) ==> words(s).len() > 0,
    decreases s.len(),
{
    if s.len() > 0 {
        let t = s.drop_last();
        lemma_words(t);
        let w = words(t);
        let c = s.last();
        if !is_ws(c) && s.len() > 1 && !is_ws(s[s.len() - 2]) {
            assert(t.last() == s[s.len() - 2]);
            let nw = w.drop_last().push(w.last().push(c));
            assert forall|i: int| 0 <= i < nw.len() implies #[trigger] nw[i].len() > 0 && forall|
                j: int,
            | 0 <= j < nw[i].len() ==> !is_ws(#[trigger] nw[i][j]) by {
                if i < w.len() - 1 {
                    assert(nw[i] == w[i]);
                } else {
                    assert(nw[i] == w.last().push(c));
                    assert(w.last() == w[w.len() - 1]);
                }
            }
        } else if !is_ws(c) {
            let nw = w.push(seq![c]);
            assert forall|i: int| 0 <= i < nw.len() implies #[trigger] nw[i].len() > 0 && forall|
                j: int,
            | 0 <= j < nw[i].len() ==> !is_ws(#[trigger] nw[i][j]) by {
                if i < w.len() {
                    assert(nw[i] == w[i]);
                }
            }
        }
    }
}

proof fn lemma_join_ends(ws: Seq<Seq<char>>)
    requires
        ws.len() > 0,
        words_wf(ws),
    ensures
        join_words(ws).len() > 0,
        join_words(ws)[0] == ws[0][0],
        join_words(ws).last() == ws.last().last(),
    decreases ws.len(),
{
    assert(ws[0].len() > 0);
    assert(ws.last().len() > 0);
    if ws.len() > 1 {
        let front = ws.drop_last();
        assert(words_wf(front)) by {
            assert forall|i: int| 0 <= i < front.len() implies #[trigger] front[i].len() > 0 && forall|
                j: int,
            | 0 <= j < front[i].len() ==> !is_ws(#[trigger] front[i][j]) by {
                assert(front[i] == ws[i]);
            }
        }
        lemma_join_ends(front);
        assert(front[0] == ws[0]);
    }
}

proof fn lemma_collapse_fold_words(s: Seq<char>)
    ensures
        words(s).len() == 0 ==> collapse_fold(s) == (Seq::<char>::empty(), false),
        words(s).len() > 0 && is_ws(s.last()) ==> collapse_fold(s) == (join_words(words(s))
            + seq![' '], true),
        s.len() > 0 && !is_ws(s.last()) ==> collapse_fold(s) == (join_words(words(s)), false),
    decreases s.len(),
{
    if s.len() > 0 {
        let t = s.drop_last();
        lemma_collapse_fold_words(t);
        lemma_words(t);
        lemma_words(s);
        let w = words(t);
        let c = s.last();
        let (out, last_space) = collapse_fold(t);
        if t.len() > 0 && !is_ws(t.last()) {
            lemma_join_ends(w);
        }
        if is_ws(c) {
        } else if s.len() > 1 && !is_ws(s[s.len() - 2]) {
            assert(t.last() == s[s.len() - 2]);
            let x = w.last();
            let nw = w.drop_last().push(x.push(c));
            if w.len() == 1 {
                assert(join_words(nw) =~= out.push(c));
            } else {
                assert(nw.drop_last() =~= w.drop_last());
                assert(join_words(nw) =~= out.push(c));
            }
        } else {
            let nw = w.push(seq![c]);
            if w.len() == 0 {
                assert(join_words(nw) =~= out.push(c));
            } else {
                assert(nw.drop_last() =~= w);
                assert(t.len() > 0 && is_ws(t.last()));
                assert(join_words(nw) =~= out.push(c));
            }
        }
    }
}

/// Collapsing whitespace gives the words of the input joined by single
/// spaces; there are as many of them as `word_count` counts.
pub proof fn lemma_collapse_whitespace_words(s: Seq<char>)
    ensures
        collapse_whitespace_spec(s) == join_words(words(s)),
        words_wf(words(s)),
        words(s).len() == word_count_spec(s),
{
    lemma_words(s);
    lemma_collapse_fold_words(s);
    let j = join_words(words(s));
    if words(s).len() > 0 {
        let ws = words(s);
        lemma_join_ends(ws);
        assert(ws[0].len() > 0 && !is_ws(ws[0][0]));
        let l = ws.len() - 1;
        assert(ws[l].len() > 0 && !is_ws(ws[l][ws[l].len() - 1]));
        assert(!is_ws(j[0]));
        assert(!is_ws(j.last()));
        assert(trim_start_seq(j) == j);
        assert(trim_end_seq(j) == j);
        if s.len() > 0 && is_ws(s.last()) {
            let js = j + seq![' '];
            assert(js[0] == j[0]);
            assert(trim_start_seq(js) == js);
            assert(js.drop_last() =~= j);
            assert(is_ws(' '));
            assert(trim_end_seq(js) == trim_end_seq(j));
        }
    }
}

// ---------------------------------------------------------------------
// Comparing passages
// ---------------------------------------------------------------------

/// `s` without trailing ASCII punctuation.
pub open spec fn trim_end_punct(s: Seq<char>) -> Seq<char>
    decreases s.len(),
{
    if s.len() > 0 && is_ascii_punct(s.last()) {
        trim_end_punct(s.drop_last())
    } else {
        s
    }
}

/// Trimmed of whitespace and trailing ASCII punctuation (and of the
/// whitespace that the punctuation left at the end), lower-cased: the form
/// in which a highlight's context and text are compared.
pub open spec fn normalize_spec(s: Seq<char>) -> Seq<char> {
    spec_to_lowercase(trim_seq(trim_end_punct(trim_seq(s))))
}

pub fn normalize_for_comparison(s: &str) -> (res: String)
    ensures
        res@ == normalize_spec(s@),
{
    let t = trim(s);
    let v = chars_of(t.as_str());
    let mut hi: usize = v.len();
    assert(v@.take(hi as int) =~= v@);
    while hi > 0 && is_ascii_punctuation(v[hi - 1])
        invariant
            hi <= v.len(),
            trim_end_punct(v@.take(hi as int)) == trim_end_punct(v@),
        decreases hi,
    {
        assert(v@.take(hi as int).drop_last() =~= v@.take(hi - 1));
        hi = hi - 1;
    }
    let stripped = string_from_chars(&v, 0, hi);
    assert(v@.subrange(0, hi as int) =~= v@.take(hi as int));
    let trimmed = trim(stripped.as_str());
    to_lowercase(trimmed.as_str())
}

} // verus!
