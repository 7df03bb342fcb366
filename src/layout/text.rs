//! White space, line breaks and trimming.
use crate::strings::{char_views, chars_of, string_of, views};
use vstd::prelude::*;

verus! {

/// Unicode white space, as `char::is_whitespace` has it.
pub open spec fn is_ws(c: char) -> bool {
    let n = c as u32;
    (0x09 <= n && n <= 0x0d) || n == 0x20 || n == 0x85 || n == 0xa0 || n == 0x1680 || (0x2000
        <= n && n <= 0x200a) || n == 0x2028 || n == 0x2029 || n == 0x202f || n == 0x205f || n
        == 0x3000
}

/// The pieces of `s` between occurrences of `sep`: one more than there are
/// separators.
pub open spec fn split_on(s: Seq<char>, sep: char) -> Seq<Seq<char>>
    decreases s.len(),
{
    if s.len() == 0 {
        seq![Seq::empty()]
    } else {
        let p = split_on(s.drop_last(), sep);
        if s.last() == sep {
            p.push(Seq::empty())
        } else {
            p.update(p.len() - 1, p.last().push(s.last()))
        }
    }
}

/// `l` without one carriage return at its end.
pub open spec fn strip_cr(l: Seq<char>) -> Seq<char> {
    if l.len() > 0 && l.last() == '\r' {
        l.drop_last()
    } else {
        l
    }
}

/// The lines of `s`: the pieces between line feeds, each without a carriage
/// return before its line feed; a line feed at the very end starts no line.
pub open spec fn text_lines(s: Seq<char>) -> Seq<Seq<char>> {
    let ps = split_on(s, '\n');
    let body = ps.drop_last().map_values(|l: Seq<char>| strip_cr(l));
    if ps.last().len() == 0 {
        body
    } else {
        body.push(ps.last())
    }
}

/// `s` without its leading white space.
pub open spec fn trim_start(s: Seq<char>) -> Seq<char>
    decreases s.len(),
{
    if s.len() > 0 && is_ws(s[0]) {
        trim_start(s.drop_first())
    } else {
        s
    }
}

/// `s` without its trailing white space.
pub open spec fn trim_end(s: Seq<char>) -> Seq<char>
    decreases s.len(),
{
    if s.len() > 0 && is_ws(s.last()) {
        trim_end(s.drop_last())
    } else {
        s
    }
}

/// `s` without white space at either end.
pub open spec fn trimmed(s: Seq<char>) -> Seq<char> {
    trim_end(trim_start(s))
}

proof fn lemma_split_on_nonempty(s: Seq<char>, sep: char)
    ensures
        split_on(s, sep).len() >= 1,
    decreases s.len(),
{
    if s.len() > 0 {
        lemma_split_on_nonempty(s.drop_last(), sep);
    }
}

/// Whether `c` is white space.
pub fn is_whitespace(c: char) -> (r: bool)
    ensures
        r == is_ws(c),
{
    let n = c as u32;
    (0x09 <= n && n <= 0x0d) || n == 0x20 || n == 0x85 || n == 0xa0 || n == 0x1680 || (0x2000 <= n
        && n <= 0x200a) || n == 0x2028 || n == 0x2029 || n == 0x202f || n == 0x205f || n == 0x3000
}

/// The pieces of `s` between occurrences of `sep`.
pub(crate) fn split_chars(s: &Vec<char>, sep: char) -> (r: Vec<Vec<char>>)
    ensures
        char_views(r@) == split_on(s@, sep),
{
    let mut r: Vec<Vec<char>> = Vec::new();
    let mut cur: Vec<char> = Vec::new();
    let mut i: usize = 0;
    while i < s.len()
        invariant
            i <= s.len(),
            char_views(r@).push(cur@) == split_on(s@.subrange(0, i as int), sep),
        decreases s.len() - i,
    {
        let c = s[i];
        proof {
            let t = s@.subrange(0, i + 1);
            assert(t.drop_last() == s@.subrange(0, i as int));
            lemma_split_on_nonempty(s@.subrange(0, i as int), sep);
        }
        if c == sep {
            r.push(cur);
            cur = Vec::new();
        } else {
            cur.push(c);
        }
        i += 1;
        proof {
            assert(char_views(r@).push(cur@) =~= split_on(s@.subrange(0, i as int), sep));
        }
    }
    assert(s@.subrange(0, i as int) == s@);
    r.push(cur);
    assert(char_views(r@) =~= split_on(s@, sep));
    r
}

/// The lines of `text`, split at line feeds as `text_lines` says.
pub fn split_lines(text: &str) -> (r: Vec<String>)
    ensures
        views(r@) == text_lines(text@),
{
    let cs = chars_of(text);
    let pieces = split_chars(&cs, '\n');
    proof {
        lemma_split_on_nonempty(cs@, '\n');
    }
    let ghost pv = char_views(pieces@);
    let n = pieces.len() - 1;
    let mut out: Vec<String> = Vec::new();
    let mut k: usize = 0;
    while k < n
        invariant
            n == pieces.len() - 1,
            k <= n,
            pv == char_views(pieces@),
            views(out@) == pv.drop_last().map_values(|l: Seq<char>| strip_cr(l)).subrange(
                0,
                k as int,
            ),
        decreases n - k,
    {
        let p = &pieces[k];
        let m = p.len();
        let line = if m > 0 && p[m - 1] == '\r' {
            let mut q: Vec<char> = Vec::new();
            let mut j: usize = 0;
            while j < m - 1
                invariant
                    m == p.len(),
                    m > 0,
                    j <= m - 1,
                    q@ == p@.subrange(0, j as int),
                decreases m - 1 - j,
            {
                q.push(p[j]);
                j += 1;
            }
            assert(q@ =~= p@.drop_last());
            string_of(&q)
        } else {
            string_of(p)
        };
        assert(line@ == strip_cr(p@));
        let ghost prev = views(out@);
        out.push(line);
        proof {
            assert(views(out@) =~= prev.push(line@));
            let body = pv.drop_last().map_values(|l: Seq<char>| strip_cr(l));
            assert(body[k as int] == strip_cr(p@));
            assert(views(out@) =~= body.subrange(0, k + 1));
        }
        k += 1;
    }
    let ghost body = pv.drop_last().map_values(|l: Seq<char>| strip_cr(l));
    assert(body.subrange(0, n as int) =~= body);
    if pieces[n].len() > 0 {
        let last = string_of(&pieces[n]);
        out.push(last);
        assert(views(out@) =~= body.push(pv.last()));
    }
    out
}

/// `text` without white space at either end.
pub fn trim(text: &str) -> (r: String)
    ensures
        r@ == trimmed(text@),
{
    let cs = chars_of(text);
    let n = cs.len();
    let mut a: usize = 0;
    assert(cs@.subrange(0, n as int) == cs@);
    while a < n && is_whitespace(cs[a])
        invariant
            n == cs@.len(),
            a <= n,
            trim_start(cs@) == trim_start(cs@.subrange(a as int, n as int)),
        decreases n - a,
    {
        assert(cs@.subrange(a as int, n as int).drop_first() == cs@.subrange(a + 1, n as int));
        a += 1;
    }
    assert(cs@.subrange(0, n as int) == cs@);
    let ghost mid = cs@.subrange(a as int, n as int);
    let mut b: usize = n;
    while b > a && is_whitespace(cs[b - 1])
        invariant
            n == cs@.len(),
            a <= b <= n,
            mid == cs@.subrange(a as int, n as int),
            trim_end(mid) == trim_end(cs@.subrange(a as int, b as int)),
        decreases b - a,
    {
        assert(cs@.subrange(a as int, b as int).drop_last() == cs@.subrange(a as int, b - 1));
        b -= 1;
    }
    let mut q: Vec<char> = Vec::new();
    let mut k: usize = a;
    while k < b
        invariant
            a <= k <= b,
            b <= cs@.len(),
            q@ == cs@.subrange(a as int, k as int),
        decreases b - k,
    {
        q.push(cs[k]);
        k += 1;
        assert(q@ =~= cs@.subrange(a as int, k as int));
    }
    proof {
        assert(cs@ == text@);
        if a < n {
            assert(trim_start(cs@.subrange(a as int, n as int)) == mid);
        } else {
            assert(mid.len() == 0);
        }
        if b > a {
            assert(trim_end(cs@.subrange(a as int, b as int)) == cs@.subrange(a as int, b as int));
        } else {
            assert(cs@.subrange(a as int, b as int).len() == 0);
        }
    }
    string_of(&q)
}

} // verus!
