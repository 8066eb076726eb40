//! The power reading of a YouLess energy monitor page: the last
//! whitespace-separated field of the last but one line.

use vstd::prelude::*;
use vstd::string::*;
use crate::text::{chars_of, is_white_space, string_from, sub_chars, white_space};

verus! {

/// The length of the first line of `s`: up to the first `\n`, or all of
/// `s`.
pub open spec fn first_line_len(s: Seq<char>) -> nat
    decreases s.len(),
{
    if s.len() == 0 {
        0
    } else if s[0] == '\n' {
        0
    } else {
        1 + first_line_len(s.drop_first())
    }
}

/// A line without the `\r` of a `\r\n` ending.
pub open spec fn strip_cr(l: Seq<char>) -> Seq<char> {
    if l.len() > 0 && l.last() == '\r' {
        l.drop_last()
    } else {
        l
    }
}

/// The lines of a text, as `str::lines` splits it: at each `\n`, dropping
/// a `\r` just before it; a final line ending adds no empty line.
pub open spec fn text_lines(s: Seq<char>) -> Seq<Seq<char>>
    decreases s.len(),
{
    if s.len() == 0 {
        Seq::empty()
    } else {
        let i = first_line_len(s);
        if i >= s.len() {
            seq![s]
        } else {
            seq![strip_cr(s.take(i as int))] + text_lines(s.skip(i + 1int))
        }
    }
}

proof fn lemma_first_line_len(s: Seq<char>, k: nat)
    requires
        k <= s.len(),
        forall|j: int| 0 <= j < k ==> s[j] != '\n',
        k == s.len() || s[k as int] == '\n',
    ensures
        first_line_len(s) == k,
    decreases k,
{
    if k > 0 {
        lemma_first_line_len(s.drop_first(), (k - 1) as nat);
    }
}

proof fn lemma_first_line_bound(s: Seq<char>)
    ensures
        first_line_len(s) <= s.len(),
    decreases s.len(),
{
    if s.len() > 0 && s[0] != '\n' {
        lemma_first_line_bound(s.drop_first());
    }
}

/// The lines of a text.
pub fn lines_of(s: &str) -> (r: Vec<String>)
    ensures
        r@.len() == text_lines(s@).len(),
        forall|k: int| 0 <= k < r@.len() ==> #[trigger] r@[k]@ == text_lines(s@)[k],
{
    let c = chars_of(s);
    let n = c.len();
    let mut out: Vec<String> = Vec::new();
    let ghost mut views: Seq<Seq<char>> = Seq::empty();
    let mut pos: usize = 0;
    assert(s@.skip(0) =~= s@);
    assert(views + text_lines(s@) =~= text_lines(s@));
    while pos < n
        invariant
            n == c@.len(),
            c@ == s@,
            pos <= n,
            out@.len() == views.len(),
            forall|k: int| 0 <= k < out@.len() ==> #[trigger] out@[k]@ == views[k],
            text_lines(s@) == views + text_lines(s@.skip(pos as int)),
        decreases n - pos,
    {
        let mut j: usize = pos;
        while j < n && c[j] != '\n'
            invariant
                pos <= j <= n,
                n == c@.len(),
                forall|t: int| pos <= t < j ==> c@[t] != '\n',
            decreases n - j,
        {
            j = j + 1;
        }
        let ghost rest = s@.skip(pos as int);
        proof {
            lemma_first_line_len(rest, (j - pos) as nat);
        }
        if j == n {
            let piece = sub_chars(c.as_slice(), pos, n);
            assert(piece@ =~= rest);
            assert(text_lines(rest) == seq![rest]);
            out.push(string_from(piece.as_slice()));
            proof {
                views = views.push(rest);
                assert(s@.skip(n as int) =~= Seq::<char>::empty());
                assert(text_lines(s@) =~= views + text_lines(s@.skip(n as int)));
            }
            pos = n;
        } else {
            let mut end = j;
            if end > pos && c[end - 1] == '\r' {
                end = end - 1;
            }
            let piece = sub_chars(c.as_slice(), pos, end);
            assert(piece@ =~= strip_cr(rest.take((j - pos) as int)));
            assert(rest.skip((j - pos) + 1) =~= s@.skip(j + 1));
            out.push(string_from(piece.as_slice()));
            proof {
                let old_views = views;
                views = views.push(piece@);
                assert(text_lines(rest) == seq![piece@] + text_lines(s@.skip(j + 1)));
                assert(text_lines(s@) =~= views + text_lines(s@.skip(j + 1)));
            }
            pos = j + 1;
        }
    }
    assert(s@.skip(pos as int) =~= Seq::<char>::empty());
    assert(views =~= text_lines(s@));
    out
}

/// `l[a..b]` is the last run of non-white-space characters of `l`.
pub open spec fn last_word_bounds(l: Seq<char>, a: int, b: int) -> bool {
    &&& 0 <= a < b <= l.len()
    &&& forall|i: int| b <= i < l.len() ==> is_white_space(#[trigger] l[i])
    &&& forall|i: int| a <= i < b ==> !is_white_space(#[trigger] l[i])
    &&& a == 0 || is_white_space(l[a - 1])
}

/// The last whitespace-separated field of a line, if it has one.
pub open spec fn last_word(l: Seq<char>) -> Option<Seq<char>> {
    if exists|a: int, b: int| last_word_bounds(l, a, b) {
        let (a, b) = choose|a: int, b: int| last_word_bounds(l, a, b);
        Some(l.subrange(a, b))
    } else {
        None
    }
}

proof fn lemma_last_word_unique(l: Seq<char>, a: int, b: int, c: int, d: int)
    requires
        last_word_bounds(l, a, b),
        last_word_bounds(l, c, d),
    ensures
        a == c,
        b == d,
{
    if b < d {
        assert(is_white_space(l[b]));
        assert(!is_white_space(l[d - 1]));
    }
    if d < b {
        assert(is_white_space(l[d]));
        assert(!is_white_space(l[b - 1]));
    }
    if a < c {
        assert(!is_white_space(l[c - 1]));
    }
    if c < a {
        assert(!is_white_space(l[a - 1]));
    }
}

/// The last whitespace-separated field of a line, if it has one.
pub fn last_field(line: &str) -> (r: Option<String>)
    ensures
        match r {
            Some(w) => last_word(line@) == Some(w@),
            None => last_word(line@).is_none(),
        },
{
    let c = chars_of(line);
    let n = c.len();
    let mut b: usize = n;
    while b > 0 && white_space(c[b - 1])
        invariant
            b <= n,
            n == c@.len(),
            c@ == line@,
            forall|i: int| b <= i < n ==> is_white_space(#[trigger] c@[i]),
        decreases b,
    {
        b = b - 1;
    }
    if b == 0 {
        assert forall|x: int, y: int| !last_word_bounds(line@, x, y) by {
            if last_word_bounds(line@, x, y) {
                assert(!is_white_space(line@[y - 1]));
                assert(is_white_space(c@[y - 1]));
            }
        }
        return None;
    }
    let mut a: usize = b - 1;
    while a > 0 && !white_space(c[a - 1])
        invariant
            a < b <= n,
            n == c@.len(),
            c@ == line@,
            forall|i: int| a <= i < b ==> !is_white_space(#[trigger] c@[i]),
            !is_white_space(c@[b - 1]),
        decreases a,
    {
        a = a - 1;
    }
    assert(last_word_bounds(line@, a as int, b as int));
    proof {
        let (x, y) = choose|x: int, y: int| last_word_bounds(line@, x, y);
        lemma_last_word_unique(line@, a as int, b as int, x, y);
    }
    let w = sub_chars(c.as_slice(), a, b);
    Some(string_from(w.as_slice()))
}

/// The reading of a monitor page: its last but one line and that line's
/// last field, if the page has two lines.
pub fn power_reading(page: &str) -> (r: Option<(String, Option<String>)>)
    ensures
        match r {
            Some((line, field)) => text_lines(page@).len() >= 2
                && line@ == text_lines(page@)[text_lines(page@).len() - 2]
                && match field {
                    Some(w) => last_word(line@) == Some(w@),
                    None => last_word(line@).is_none(),
                },
            None => text_lines(page@).len() < 2,
        },
{
    let lines = lines_of(page);
    let n = lines.len();
    if n < 2 {
        return None;
    }
    let line = lines[n - 2].clone();
    let field = last_field(line.as_str());
    Some((line, field))
}

} // verus!
