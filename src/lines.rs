//! Splitting text into lines and into words.
use vstd::prelude::*;
use crate::remote_path::slice_range;
use crate::text::{is_space, is_space_char, string_of, views};

verus! {

/// `s` cut at every `c`; the pieces between separators, possibly empty.
pub open spec fn split_on(s: Seq<char>, c: char) -> Seq<Seq<char>>
    decreases s.len(),
{
    if s.len() == 0 {
        seq![Seq::empty()]
    } else if s.last() == c {
        split_on(s.drop_last(), c).push(Seq::empty())
    } else {
        let p = split_on(s.drop_last(), c);
        p.update(p.len() - 1, p.last().push(s.last()))
    }
}

/// A line without the carriage return that may end it.
pub open spec fn strip_cr(line: Seq<char>) -> Seq<char> {
    if line.len() > 0 && line.last() == '\r' {
        line.drop_last()
    } else {
        line
    }
}

/// The lines of `s` as `str::lines` gives them: cut at each newline, with no empty
/// line after a final newline, each without a trailing carriage return.
pub open spec fn text_lines(s: Seq<char>) -> Seq<Seq<char>> {
    let p = split_on(s, '\n');
    let q = if p.last().len() == 0 {
        p.drop_last()
    } else {
        p
    };
    strip_all_cr(q)
}

/// Each line without its trailing carriage return.
pub open spec fn strip_all_cr(q: Seq<Seq<char>>) -> Seq<Seq<char>> {
    q.map_values(|l: Seq<char>| strip_cr(l))
}

/// The words of `s`: its maximal runs of characters other than white space.
pub open spec fn words(s: Seq<char>) -> Seq<Seq<char>>
    decreases s.len(),
{
    if s.len() == 0 {
        Seq::empty()
    } else if is_space(s.last()) {
        words(s.drop_last())
    } else if s.len() >= 2 && !is_space(s[s.len() - 2]) {
        let w = words(s.drop_last());
        w.update(w.len() - 1, w.last().push(s.last()))
    } else {
        words(s.drop_last()).push(seq![s.last()])
    }
}

proof fn lemma_split_nonempty(s: Seq<char>, c: char)
    ensures
        split_on(s, c).len() >= 1,
    decreases s.len(),
{
    if s.len() > 0 {
        lemma_split_nonempty(s.drop_last(), c);
    }
}

proof fn lemma_words_end(s: Seq<char>)
    requires
        s.len() > 0,
        !is_space(s.last()),
    ensures
        words(s).len() >= 1,
    decreases s.len(),
{
    if s.len() >= 2 && !is_space(s[s.len() - 2]) {
        lemma_words_end(s.drop_last());
        assert(s.drop_last().last() == s[s.len() - 2]);
    }
}

/// The views of some character vectors.
pub open spec fn char_views(v: Seq<Vec<char>>) -> Seq<Seq<char>> {
    v.map_values(|x: Vec<char>| x@)
}

/// The lines of `text` (see `text_lines`), as character vectors.
pub fn lines_of(text: &[char]) -> (r: Vec<Vec<char>>)
    ensures
        char_views(r@) == text_lines(text@),
{
    let mut done: Vec<Vec<char>> = Vec::new();
    let mut current: Vec<char> = Vec::new();
    let mut i: usize = 0;
    assert(text@.take(0) =~= Seq::<char>::empty());
    assert(char_views(done@).push(current@) =~= split_on(text@.take(0), '\n'));
    while i < text.len()
        invariant
            i <= text@.len(),
            char_views(done@).push(current@) == split_on(text@.take(i as int), '\n'),
        decreases text@.len() - i,
    {
        let ghost prev = text@.take(i as int);
        assert(text@.take(i + 1).drop_last() =~= prev);
        let c = text[i];
        if c == '\n' {
            let finished = current;
            current = Vec::new();
            done.push(finished);
            assert(char_views(done@).push(current@) =~= split_on(prev, '\n').push(Seq::empty()));
        } else {
            let ghost before = current@;
            current.push(c);
            proof {
                lemma_split_nonempty(prev, '\n');
                let p = split_on(prev, '\n');
                assert(char_views(done@).push(current@) =~= p.update(
                    p.len() - 1,
                    p.last().push(c),
                ));
            }
        }
        i = i + 1;
    }
    assert(text@.take(i as int) =~= text@);
    let ghost p = split_on(text@, '\n');
    if current.len() > 0 {
        done.push(current);
    }
    assert(char_views(done@) =~= (if p.last().len() == 0 {
        p.drop_last()
    } else {
        p
    }));
    let mut out: Vec<Vec<char>> = Vec::new();
    let mut k: usize = 0;
    let ghost q = char_views(done@);
    while k < done.len()
        invariant
            k <= done@.len(),
            q == char_views(done@),
            char_views(out@) == strip_all_cr(q.take(k as int)),
            out@.len() == k,
        decreases done@.len() - k,
    {
        let n = done[k].len();
        let line = if n > 0 && done[k][n - 1] == '\r' {
            slice_range(done[k].as_slice(), 0, n - 1)
        } else {
            slice_range(done[k].as_slice(), 0, n)
        };
        proof {
            assert(done@[k as int]@.subrange(0, n as int) =~= done@[k as int]@);
            assert(done@[k as int]@.subrange(0, n - 1) =~= done@[k as int]@.drop_last());
        }
        let ghost before = out@;
        out.push(line);
        proof {
            assert forall|j: int| 0 <= j <= k implies #[trigger] char_views(out@)[j] == strip_cr(q[j]) by {
                if j < k {
                    assert(out@[j] == before[j]);
                    assert(char_views(before)[j] == strip_all_cr(q.take(k as int))[j]);
                }
            }
        }
        k = k + 1;
        assert(char_views(out@) =~= strip_all_cr(q.take(k as int)));
    }
    assert(q.take(k as int) =~= q);
    out
}

/// The words of `text` (see `words`), as strings.
pub fn words_of(text: &[char]) -> (r: Vec<String>)
    ensures
        views(r@) == words(text@),
{
    let mut out: Vec<Vec<char>> = Vec::new();
    let mut i: usize = 0;
    assert(text@.take(0) =~= Seq::<char>::empty());
    assert(char_views(out@) =~= words(text@.take(0)));
    while i < text.len()
        invariant
            i <= text@.len(),
            char_views(out@) == words(text@.take(i as int)),
        decreases text@.len() - i,
    {
        let ghost prev = text@.take(i as int);
        let ghost next = text@.take(i + 1);
        assert(next.drop_last() =~= prev);
        let c = text[i];
        if !is_space_char(c) {
            if i > 0 && !is_space_char(text[i - 1]) {
                proof {
                    assert(prev.last() == text@[i - 1]);
                    lemma_words_end(prev);
                    assert(next[next.len() - 2] == text@[i - 1]);
                }
                let last = out.len() - 1;
                let mut w = slice_range(out[last].as_slice(), 0, out[last].len());
                assert(w@ =~= out@[last as int]@);
                w.push(c);
                out.set(last, w);
                assert(char_views(out@) =~= words(next));
            } else {
                let mut w: Vec<char> = Vec::new();
                w.push(c);
                out.push(w);
                assert(char_views(out@) =~= words(next));
            }
        }
        i = i + 1;
    }
    assert(text@.take(i as int) =~= text@);
    let mut strings: Vec<String> = Vec::new();
    let mut k: usize = 0;
    while k < out.len()
        invariant
            k <= out@.len(),
            views(strings@) == char_views(out@).take(k as int),
            strings@.len() == k,
        decreases out@.len() - k,
    {
        let ghost before = strings@;
        let item = string_of(out[k].as_slice());
        strings.push(item);
        proof {
            assert forall|j: int| 0 <= j <= k implies #[trigger] views(strings@)[j] == char_views(out@)[j] by {
                if j < k {
                    assert(strings@[j] == before[j]);
                    assert(views(before)[j] == char_views(out@).take(k as int)[j]);
                }
            }
        }
        k = k + 1;
        assert(views(strings@) =~= char_views(out@).take(k as int));
    }
    assert(char_views(out@).take(k as int) =~= char_views(out@));
    strings
}

} // verus!
