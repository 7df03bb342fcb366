//! Greedy word wrapping, and what holds of its lines.
use super::text::{is_whitespace, is_ws, split_chars, split_on};
use crate::strings::{char_views, chars_of, string_of, views};
use vstd::prelude::*;

verus! {

/// The maximal runs of non-white-space chars in `s`, in order.
pub open spec fn words(s: Seq<char>) -> Seq<Seq<char>>
    decreases s.len(),
{
    if s.len() == 0 {
        Seq::empty()
    } else if is_ws(s.last()) {
        words(s.drop_last())
    } else if s.len() >= 2 && !is_ws(s[s.len() - 2]) {
        let p = words(s.drop_last());
        p.update(p.len() - 1, p.last().push(s.last()))
    } else {
        words(s.drop_last()).push(seq![s.last()])
    }
}

/// Greedy filling: `done` are the finished lines, `cur` the line being
/// built, `rest` the words still to place. A word goes on the current line
/// when the line, a space and the word fit in `w` columns; else the line is
/// finished and the word starts the next one.
pub open spec fn fill(done: Seq<Seq<char>>, cur: Seq<char>, rest: Seq<Seq<char>>, w: nat) -> Seq<
    Seq<char>,
>
    decreases rest.len(),
{
    if rest.len() == 0 {
        if cur.len() > 0 {
            done.push(cur)
        } else {
            done
        }
    } else if cur.len() == 0 {
        fill(done, rest[0], rest.drop_first(), w)
    } else if cur.len() + 1 + rest[0].len() > w {
        fill(done.push(cur), rest[0], rest.drop_first(), w)
    } else {
        fill(done, cur + seq![' '] + rest[0], rest.drop_first(), w)
    }
}

/// The lines that greedy filling makes of `ws` at width `w`.
pub open spec fn greedy(ws: Seq<Seq<char>>, w: nat) -> Seq<Seq<char>> {
    fill(Seq::empty(), Seq::empty(), ws, w)
}

/// The wrapped lines of each paragraph of `ps`, one after the other.
pub open spec fn wrap_paragraphs(ps: Seq<Seq<char>>, w: nat) -> Seq<Seq<char>>
    decreases ps.len(),
{
    if ps.len() == 0 {
        Seq::empty()
    } else {
        wrap_paragraphs(ps.drop_last(), w) + greedy(words(ps.last()), w)
    }
}

/// `s` wrapped at `w`: each paragraph (the text between line breaks) filled
/// greedily with its words.
pub open spec fn wrapped(s: Seq<char>, w: nat) -> Seq<Seq<char>> {
    wrap_paragraphs(split_on(s, '\n'), w)
}

/// A word: non-empty, with no white space in it.
pub open spec fn is_word(x: Seq<char>) -> bool {
    x.len() > 0 && forall|k: int| 0 <= k < x.len() ==> !is_ws(#[trigger] x[k])
}

/// A wrapped line at width `w`: its words joined by single spaces, no line
/// break in it, and either at most `w` chars long or a single word.
pub open spec fn fits(l: Seq<char>, w: nat) -> bool {
    &&& l.len() > 0
    &&& l == joined(words(l))
    &&& l.len() <= w || is_word(l)
    &&& forall|k: int| 0 <= k < l.len() ==> #[trigger] l[k] != '\n'
}

/// The lines of `ls` joined by single spaces.
pub open spec fn joined(ls: Seq<Seq<char>>) -> Seq<char>
    decreases ls.len(),
{
    if ls.len() == 0 {
        Seq::empty()
    } else if ls.len() == 1 {
        ls[0]
    } else {
        joined(ls.drop_last()) + seq![' '] + ls.last()
    }
}

/// The words of each line of `ls`, one line after the other.
pub open spec fn line_words(ls: Seq<Seq<char>>) -> Seq<Seq<char>>
    decreases ls.len(),
{
    if ls.len() == 0 {
        Seq::empty()
    } else {
        line_words(ls.drop_last()) + words(ls.last())
    }
}

/// Appends the chars of `src` to `dst`.
fn extend_chars(dst: &mut Vec<char>, src: &Vec<char>)
    ensures
        final(dst)@ == old(dst)@ + src@,
{
    let mut i: usize = 0;
    while i < src.len()
        invariant
            i <= src.len(),
            dst@ == old(dst)@ + src@.subrange(0, i as int),
        decreases src.len() - i,
    {
        dst.push(src[i]);
        i += 1;
        assert(dst@ =~= old(dst)@ + src@.subrange(0, i as int));
    }
    assert(src@.subrange(0, i as int) == src@);
}

/// The words of `s`.
fn words_of(s: &Vec<char>) -> (r: Vec<Vec<char>>)
    ensures
        char_views(r@) == words(s@),
{
    let mut r: Vec<Vec<char>> = Vec::new();
    let mut cur: Vec<char> = Vec::new();
    let mut i: usize = 0;
    while i < s.len()
        invariant
            i <= s.len(),
            (cur@.len() > 0) == (i > 0 && !is_ws(s@[i - 1])),
            cur@.len() > 0 ==> char_views(r@).push(cur@) == words(s@.subrange(0, i as int)),
            cur@.len() == 0 ==> char_views(r@) == words(s@.subrange(0, i as int)),
        decreases s.len() - i,
    {
        let c = s[i];
        let ghost t = s@.subrange(0, i + 1);
        let ghost prev = s@.subrange(0, i as int);
        let ghost prev_r = char_views(r@);
        let ghost prev_cur = cur@;
        proof {
            assert(t.drop_last() == prev);
            assert(t.last() == c);
            if i > 0 {
                assert(t[t.len() - 2] == s@[i - 1]);
            }
        }
        if is_whitespace(c) {
            if cur.len() > 0 {
                r.push(cur);
                cur = Vec::new();
                assert(char_views(r@) =~= prev_r.push(prev_cur));
            }
            assert(words(t) == words(prev));
        } else {
            cur.push(c);
            if cur.len() > 1 {
                assert(words(t) == words(prev).update(words(prev).len() - 1, prev_cur.push(c)));
                assert(char_views(r@).push(cur@) =~= words(t));
            } else {
                assert(words(t) == words(prev).push(seq![c]));
                assert(cur@ =~= seq![c]);
                assert(char_views(r@).push(cur@) =~= words(t));
            }
        }
        i += 1;
    }
    assert(s@.subrange(0, i as int) == s@);
    if cur.len() > 0 {
        r.push(cur);
    }
    assert(char_views(r@) =~= words(s@));
    r
}

/// The lines that greedy filling makes of `ws` at width `w`.
fn fill_lines(ws: &Vec<Vec<char>>, w: usize) -> (r: Vec<Vec<char>>)
    ensures
        char_views(r@) == greedy(char_views(ws@), w as nat),
{
    let ghost wv = char_views(ws@);
    let mut done: Vec<Vec<char>> = Vec::new();
    let mut cur: Vec<char> = Vec::new();
    let mut i: usize = 0;
    assert(wv.subrange(0, wv.len() as int) == wv);
    assert(char_views(done@) =~= Seq::<Seq<char>>::empty());
    while i < ws.len()
        invariant
            i <= ws.len(),
            wv == char_views(ws@),
            fill(char_views(done@), cur@, wv.subrange(i as int, wv.len() as int), w as nat)
                == greedy(wv, w as nat),
        decreases ws.len() - i,
    {
        let word = &ws[i];
        proof {
            let rest = wv.subrange(i as int, wv.len() as int);
            assert(rest[0] == word@);
            assert(rest.drop_first() == wv.subrange(i + 1, wv.len() as int));
        }
        let ghost prev_done = char_views(done@);
        let ghost prev_cur = cur@;
        if cur.len() == 0 {
            extend_chars(&mut cur, word);
            assert(cur@ =~= word@);
            assert(char_views(done@) == prev_done);
        } else if cur.len() >= w || word.len() > w - 1 - cur.len() {
            done.push(cur);
            cur = Vec::new();
            extend_chars(&mut cur, word);
            assert(cur@ =~= word@);
            assert(char_views(done@) =~= prev_done.push(prev_cur));
        } else {
            cur.push(' ');
            extend_chars(&mut cur, word);
            assert(cur@ =~= prev_cur + seq![' '] + word@);
            assert(char_views(done@) == prev_done);
        }
        i += 1;
    }
    let ghost prev_done = char_views(done@);
    if cur.len() > 0 {
        done.push(cur);
        assert(char_views(done@) =~= prev_done.push(cur@));
    }
    done
}

/// Breaks `text` into lines of at most `width` chars at white space.
/// Each paragraph (the text between line breaks) is wrapped on its own; a
/// word goes on the current line when the line, a space and the word fit,
/// else it starts the next line. A word longer than `width` stands alone on
/// its line. Paragraphs without words give no lines.
pub fn wrap_text(text: &str, width: usize) -> (r: Vec<String>)
    ensures
        views(r@) == wrapped(text@, width as nat),
{
    let cs = chars_of(text);
    let pieces = split_chars(&cs, '\n');
    let ghost pv = char_views(pieces@);
    let mut out: Vec<String> = Vec::new();
    let mut k: usize = 0;
    assert(views(out@) =~= wrap_paragraphs(pv.subrange(0, 0), width as nat));
    while k < pieces.len()
        invariant
            k <= pieces.len(),
            pv == char_views(pieces@),
            views(out@) == wrap_paragraphs(pv.subrange(0, k as int), width as nat),
        decreases pieces.len() - k,
    {
        let ws = words_of(&pieces[k]);
        let ls = fill_lines(&ws, width);
        let ghost before = views(out@);
        let mut j: usize = 0;
        while j < ls.len()
            invariant
                j <= ls.len(),
                views(out@) == before + char_views(ls@).subrange(0, j as int),
            decreases ls.len() - j,
        {
            let line = string_of(&ls[j]);
            let ghost prev = views(out@);
            out.push(line);
            assert(views(out@) =~= prev.push(ls@[j as int]@));
            assert(char_views(ls@).subrange(0, j + 1) =~= char_views(ls@).subrange(0, j as int).push(ls@[j as int]@));
            j += 1;
            assert(views(out@) =~= before + char_views(ls@).subrange(0, j as int));
        }
        proof {
            assert(char_views(ls@).subrange(0, j as int) == char_views(ls@));
            assert(pv.subrange(0, k + 1).drop_last() == pv.subrange(0, k as int));
            assert(pv.subrange(0, k + 1).last() == pieces@[k as int]@);
        }
        k += 1;
    }
    assert(pv.subrange(0, k as int) == pv);
    out
}

proof fn lemma_words_nonempty(s: Seq<char>)
    ensures
        s.len() > 0 && !is_ws(s.last()) ==> words(s).len() >= 1,
    decreases s.len(),
{
    if s.len() >= 2 {
        lemma_words_nonempty(s.drop_last());
    }
}

proof fn lemma_words_are_words(s: Seq<char>)
    ensures
        forall|i: int| 0 <= i < words(s).len() ==> is_word(#[trigger] words(s)[i]),
    decreases s.len(),
{
    if s.len() > 0 {
        let d = s.drop_last();
        lemma_words_are_words(d);
        if !is_ws(s.last()) && s.len() >= 2 && !is_ws(s[s.len() - 2]) {
            lemma_words_nonempty(d);
            let p = words(d);
            let x = p.last().push(s.last());
            assert(is_word(p[p.len() - 1]));
            assert(is_word(x)) by {
                assert forall|k: int| 0 <= k < x.len() implies !is_ws(#[trigger] x[k]) by {
                    if k < x.len() - 1 {
                        assert(x[k] == p.last()[k]);
                    }
                }
            }
        }
    }
}

proof fn lemma_words_of_word(x: Seq<char>)
    requires
        is_word(x),
    ensures
        words(x) == seq![x],
    decreases x.len(),
{
    let d = x.drop_last();
    if x.len() == 1 {
        assert(d.len() == 0);
        assert(words(d) == Seq::<Seq<char>>::empty());
        assert(seq![x.last()] =~= x);
        assert(words(x) == words(d).push(seq![x.last()]));
        assert(words(d).push(seq![x.last()]) =~= seq![x]);
    } else {
        assert(is_word(d)) by {
            assert forall|k: int| 0 <= k < d.len() implies !is_ws(#[trigger] d[k]) by {
                assert(d[k] == x[k]);
            }
        }
        lemma_words_of_word(d);
        assert(!is_ws(x[x.len() - 2]));
        assert(d.push(x.last()) =~= x);
        assert(words(x) == seq![d].update(0, d.push(x.last())));
        assert(seq![d].update(0, d.push(x.last())) =~= seq![x]);
    }
}

proof fn lemma_words_join(x: Seq<char>, y: Seq<char>)
    ensures
        words(x + seq![' '] + y) == words(x) + words(y),
    decreases y.len(),
{
    let s = x + seq![' '] + y;
    if y.len() == 0 {
        assert(s.drop_last() == x);
        assert(words(y) == Seq::<Seq<char>>::empty());
        assert(words(x) + words(y) == words(x));
    } else {
        let yd = y.drop_last();
        lemma_words_join(x, yd);
        assert(s.drop_last() == x + seq![' '] + yd);
        assert(s.last() == y.last());
        if !is_ws(y.last()) {
            if yd.len() > 0 && !is_ws(yd.last()) {
                lemma_words_nonempty(yd);
                assert(s[s.len() - 2] == yd.last());
                assert(y[y.len() - 2] == yd.last());
                let p = words(yd);
                assert((words(x) + p).update(words(x).len() + p.len() - 1, p.last().push(y.last()))
                    =~= words(x) + p.update(p.len() - 1, p.last().push(y.last())));
            } else {
                if yd.len() > 0 {
                    assert(s[s.len() - 2] == yd.last());
                    assert(y[y.len() - 2] == yd.last());
                } else {
                    assert(s[s.len() - 2] == ' ');
                }
                assert((words(x) + words(yd)).push(seq![y.last()]) =~= words(x) + words(yd).push(
                    seq![y.last()],
                ));
            }
        }
    }
}

proof fn lemma_words_joined(ls: Seq<Seq<char>>)
    ensures
        words(joined(ls)) == line_words(ls),
    decreases ls.len(),
{
    if ls.len() == 1 {
        assert(ls.drop_last() =~= Seq::<Seq<char>>::empty());
        assert(line_words(ls.drop_last()) == Seq::<Seq<char>>::empty());
        assert(line_words(ls) =~= words(ls[0]));
    } else if ls.len() > 1 {
        lemma_words_joined(ls.drop_last());
        lemma_words_join(joined(ls.drop_last()), ls.last());
    }
}

proof fn lemma_joined_no_break(ls: Seq<Seq<char>>, w: nat)
    requires
        forall|i: int| 0 <= i < ls.len() ==> fits(#[trigger] ls[i], w),
    ensures
        forall|k: int| 0 <= k < joined(ls).len() ==> #[trigger] joined(ls)[k] != '\n',
    decreases ls.len(),
{
    if ls.len() == 1 {
        assert(fits(ls[0], w));
    } else if ls.len() > 1 {
        let d = ls.drop_last();
        assert forall|i: int| 0 <= i < d.len() implies fits(#[trigger] d[i], w) by {
            assert(d[i] == ls[i]);
        }
        lemma_joined_no_break(d, w);
        let j = joined(ls);
        assert(fits(ls[ls.len() - 1], w));
        assert forall|k: int| 0 <= k < j.len() implies #[trigger] j[k] != '\n' by {
            let jd = joined(d);
            if k < jd.len() {
                assert(j[k] == jd[k]);
            } else if k > jd.len() {
                assert(j[k] == ls.last()[k - jd.len() - 1]);
            }
        }
    }
}

proof fn lemma_fill(done: Seq<Seq<char>>, cur: Seq<char>, rest: Seq<Seq<char>>, w: nat)
    requires
        forall|i: int| 0 <= i < rest.len() ==> is_word(#[trigger] rest[i]),
        forall|i: int| 0 <= i < done.len() ==> fits(#[trigger] done[i], w),
        cur.len() == 0 || fits(cur, w),
    ensures
        forall|i: int|
            0 <= i < fill(done, cur, rest, w).len() ==> fits(#[trigger] fill(done, cur, rest, w)[i], w),
        line_words(fill(done, cur, rest, w)) == line_words(done) + words(cur) + rest,
    decreases rest.len(),
{
    if rest.len() == 0 {
        if cur.len() > 0 {
            assert(done.push(cur).drop_last() == done);
        } else {
            assert(words(cur) == Seq::<Seq<char>>::empty());
        }
        assert(line_words(done) + words(cur) + rest =~= line_words(done) + words(cur));
    } else {
        let x = rest[0];
        let tail = rest.drop_first();
        assert(is_word(x));
        assert(forall|i: int| 0 <= i < tail.len() ==> tail[i] == rest[i + 1]);
        lemma_words_of_word(x);
        assert(joined(seq![x]) == x);
        assert(fits(x, w));
        assert(rest =~= seq![x] + tail);
        if cur.len() == 0 {
            lemma_fill(done, x, tail, w);
            assert(words(cur) == Seq::<Seq<char>>::empty());
            assert(line_words(done) + words(cur) + rest =~= line_words(done) + words(x) + tail);
        } else if cur.len() + 1 + x.len() > w {
            let d2 = done.push(cur);
            assert forall|i: int| 0 <= i < d2.len() implies fits(#[trigger] d2[i], w) by {
                if i < done.len() {
                    assert(d2[i] == done[i]);
                }
            }
            lemma_fill(d2, x, tail, w);
            assert(d2.drop_last() == done);
            assert(line_words(done) + words(cur) + rest =~= line_words(d2) + words(x) + tail);
        } else {
            let c2 = cur + seq![' '] + x;
            lemma_words_join(cur, x);
            let wc = words(cur);
            assert(wc.len() > 0) by {
                if wc.len() == 0 {
                    assert(joined(wc).len() == 0);
                }
            }
            assert((wc + seq![x]).drop_last() =~= wc);
            assert(words(c2) == wc + seq![x]);
            assert(joined(words(c2)) == c2);
            assert(fits(c2, w)) by {
                assert forall|k: int| 0 <= k < c2.len() implies #[trigger] c2[k] != '\n' by {
                    if k < cur.len() {
                        assert(c2[k] == cur[k]);
                    } else if k > cur.len() {
                        assert(c2[k] == x[k - cur.len() - 1]);
                        assert(!is_ws(x[k - cur.len() - 1]));
                    }
                }
            }
            lemma_fill(done, c2, tail, w);
            lemma_words_join(cur, x);
            assert(line_words(done) + words(cur) + rest =~= line_words(done) + words(c2) + tail);
        }
    }
}

/// Every line that greedy filling makes of words fits: no line break, and
/// at most `w` chars or a single word. Its words are the words given.
proof fn lemma_greedy(ws: Seq<Seq<char>>, w: nat)
    requires
        forall|i: int| 0 <= i < ws.len() ==> is_word(#[trigger] ws[i]),
    ensures
        forall|i: int| 0 <= i < greedy(ws, w).len() ==> fits(#[trigger] greedy(ws, w)[i], w),
        line_words(greedy(ws, w)) == ws,
{
    assert(Seq::<char>::empty().len() == 0);
    lemma_fill(Seq::empty(), Seq::empty(), ws, w);
    assert(line_words(Seq::<Seq<char>>::empty()) + words(Seq::<char>::empty()) + ws =~= ws);
}

proof fn lemma_paragraphs_fit(ps: Seq<Seq<char>>, w: nat)
    ensures
        forall|i: int|
            0 <= i < wrap_paragraphs(ps, w).len() ==> fits(#[trigger] wrap_paragraphs(ps, w)[i], w),
    decreases ps.len(),
{
    if ps.len() > 0 {
        lemma_paragraphs_fit(ps.drop_last(), w);
        lemma_words_are_words(ps.last());
        lemma_greedy(words(ps.last()), w);
        let a = wrap_paragraphs(ps.drop_last(), w);
        let b = greedy(words(ps.last()), w);
        assert forall|i: int| 0 <= i < (a + b).len() implies fits(#[trigger] (a + b)[i], w) by {
            if i < a.len() {
                assert((a + b)[i] == a[i]);
            } else {
                assert((a + b)[i] == b[i - a.len()]);
            }
        }
    }
}

proof fn lemma_split_without_break(s: Seq<char>)
    requires
        forall|k: int| 0 <= k < s.len() ==> #[trigger] s[k] != '\n',
    ensures
        split_on(s, '\n') == seq![s],
    decreases s.len(),
{
    if s.len() > 0 {
        let d = s.drop_last();
        assert forall|k: int| 0 <= k < d.len() implies #[trigger] d[k] != '\n' by {
            assert(d[k] == s[k]);
        }
        lemma_split_without_break(d);
        assert(s.last() == s[s.len() - 1]);
        assert(s.last() != '\n');
        assert(d.push(s.last()) =~= s);
        let p = split_on(d, '\n');
        assert(p.len() - 1 == 0 && p.last() == d);
        assert(seq![d].update(0, d.push(s.last())) =~= seq![s]);
    } else {
        assert(s =~= Seq::<char>::empty());
    }
}

proof fn lemma_one_paragraph(p: Seq<char>, w: nat)
    requires
        split_on(p, '\n') == seq![p],
    ensures
        wrapped(p, w) == greedy(words(p), w),
{
    let ps = seq![p];
    assert(ps.drop_last() =~= Seq::<Seq<char>>::empty());
    assert(wrap_paragraphs(ps.drop_last(), w) == Seq::<Seq<char>>::empty());
    assert(ps.last() == p);
    assert(Seq::<Seq<char>>::empty() + greedy(words(p), w) =~= greedy(words(p), w));
}

proof fn lemma_joined_grows(g: Seq<Seq<char>>, i: int)
    requires
        1 <= i < g.len(),
    ensures
        joined(g.subrange(0, i + 1)) == joined(g.subrange(0, i)) + seq![' '] + g[i],
{
    assert(g.subrange(0, i + 1).drop_last() =~= g.subrange(0, i));
}

proof fn lemma_joined_prefix_len(g: Seq<Seq<char>>, i: int)
    requires
        1 <= i <= g.len(),
    ensures
        joined(g.subrange(0, i)).len() <= joined(g).len(),
    decreases g.len() - i,
{
    if i == g.len() {
        assert(g.subrange(0, i) =~= g);
    } else {
        lemma_joined_grows(g, i);
        lemma_joined_prefix_len(g, i + 1);
    }
}

proof fn lemma_fill_fitting(g: Seq<Seq<char>>, i: int, w: nat)
    requires
        forall|k: int| 0 <= k < g.len() ==> is_word(#[trigger] g[k]),
        1 <= i <= g.len(),
        joined(g.subrange(0, i)).len() > 0,
        joined(g).len() <= w,
    ensures
        fill(Seq::empty(), joined(g.subrange(0, i)), g.subrange(i, g.len() as int), w) == seq![
            joined(g),
        ],
    decreases g.len() - i,
{
    let cur = joined(g.subrange(0, i));
    let rest = g.subrange(i, g.len() as int);
    if i == g.len() {
        assert(g.subrange(0, i) =~= g);
        assert(rest.len() == 0);
        assert(Seq::<Seq<char>>::empty().push(cur) =~= seq![joined(g)]);
    } else {
        lemma_joined_grows(g, i);
        lemma_joined_prefix_len(g, i + 1);
        assert(rest[0] == g[i]);
        assert(rest.drop_first() =~= g.subrange(i + 1, g.len() as int));
        lemma_fill_fitting(g, i + 1, w);
    }
}

/// Every line of `wrap_text(text, w)` is at most `w` chars long, except a
/// line that holds one word longer than `w`, alone.
pub proof fn lemma_wrapped_lines_fit(text: Seq<char>, w: nat)
    ensures
        forall|i: int|
            0 <= i < wrapped(text, w).len() ==> (#[trigger] wrapped(text, w)[i]).len() <= w
                || is_word(wrapped(text, w)[i]),
{
    lemma_paragraphs_fit(split_on(text, '\n'), w);
}

/// Each line of a wrapped text, wrapped again at the same width, comes back
/// as that one line: a line that fits is never broken again.
pub proof fn lemma_wrapped_line_is_stable(text: Seq<char>, w: nat, i: int)
    requires
        0 <= i < wrapped(text, w).len(),
    ensures
        wrapped(wrapped(text, w)[i], w) == seq![wrapped(text, w)[i]],
{
    lemma_paragraphs_fit(split_on(text, '\n'), w);
    let l = wrapped(text, w)[i];
    assert(fits(l, w));
    lemma_split_without_break(l);
    lemma_one_paragraph(l, w);
    let g = words(l);
    lemma_words_are_words(l);
    if is_word(l) {
        lemma_words_of_word(l);
        assert(seq![l].drop_first() =~= Seq::<Seq<char>>::empty());
        assert(greedy(seq![l], w) == fill(Seq::empty(), l, Seq::empty(), w));
        assert(Seq::<Seq<char>>::empty().push(l) =~= seq![l]);
    } else {
        assert(g.len() > 0) by {
            if g.len() == 0 {
                assert(joined(g).len() == 0);
            }
        }
        assert(g.subrange(0, 1) =~= seq![g[0]]);
        assert(joined(g.subrange(0, 1)) == g[0]);
        assert(g.drop_first() =~= g.subrange(1, g.len() as int));
        assert(greedy(g, w) == fill(Seq::empty(), g[0], g.drop_first(), w));
        assert(l == joined(g));
        lemma_fill_fitting(g, 1, w);
    }
}

/// Wrapping a paragraph, joining its lines with single spaces and wrapping
/// the result at the same width gives the same lines again.
pub proof fn lemma_rewrap(text: Seq<char>, w: nat)
    requires
        forall|k: int| 0 <= k < text.len() ==> #[trigger] text[k] != '\n',
    ensures
        wrapped(joined(wrapped(text, w)), w) == wrapped(text, w),
{
    lemma_split_without_break(text);
    let ws = words(text);
    assert(wrapped(text, w) == greedy(ws, w)) by {
        lemma_one_paragraph(text, w);
    }
    lemma_words_are_words(text);
    lemma_greedy(ws, w);
    let ls = greedy(ws, w);
    let j = joined(ls);
    lemma_joined_no_break(ls, w);
    lemma_split_without_break(j);
    lemma_words_joined(ls);
    assert(wrapped(j, w) == greedy(words(j), w)) by {
        lemma_one_paragraph(j, w);
    }
}

} // verus!
