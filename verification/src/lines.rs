//! Cutting text into lines and fields, and joining fields back together.

use crate::text::{chars_of, find, find_from, lemma_find_from, substring};
use vstd::prelude::*;

verus! {

/// The one-character text that ends a line.
pub open spec fn line_feed() -> Seq<char> {
    seq!['\n']
}

/// `line` without a carriage return at its end.
pub open spec fn strip_cr(line: Seq<char>) -> Seq<char> {
    if line.len() > 0 && line.last() == '\r' {
        line.drop_last()
    } else {
        line
    }
}

/// The lines of `s` from position `pos` on.
pub open spec fn lines_from(s: Seq<char>, pos: int) -> Seq<Seq<char>>
    decreases s.len() - pos,
{
    if pos < 0 || pos >= s.len() {
        Seq::empty()
    } else {
        match find_from(s, line_feed(), pos) {
            Some(i) => {
                proof {
                    lemma_find_from(s, line_feed(), pos);
                }
                seq![strip_cr(s.subrange(pos, i))] + lines_from(s, i + 1)
            },
            None => seq![s.subrange(pos, s.len() as int)],
        }
    }
}

/// The lines of `s`. A line ends at a line feed, which is not part of it, nor
/// is a carriage return directly before that line feed. Text after the last
/// line feed is a line of its own unless it is empty.
pub open spec fn lines(s: Seq<char>) -> Seq<Seq<char>> {
    lines_from(s, 0)
}

/// The lines of `s`.
pub fn split_lines(s: &str) -> (out: Vec<String>)
    ensures
        out.deep_view() == lines(s@),
{
    let v = chars_of(s);
    let n = v.len();
    let mut nl: Vec<char> = Vec::new();
    nl.push('\n');
    assert(nl@ == line_feed());
    let mut out: Vec<String> = Vec::new();
    let mut pos: usize = 0;
    assert(out.deep_view() == Seq::<Seq<char>>::empty());
    while pos < n
        invariant
            v@ == s@,
            n == v@.len(),
            nl@ == line_feed(),
            pos <= n,
            lines(s@) == out.deep_view() + lines_from(s@, pos as int),
        decreases n - pos,
    {
        let ghost before = out.deep_view();
        proof {
            lemma_find_from(s@, line_feed(), pos as int);
        }
        match find(&v, &nl, pos) {
            Some(i) => {
                let end = if i > pos && v[i - 1] == '\r' {
                    i - 1
                } else {
                    i
                };
                let line = substring(s, pos, end);
                assert(line@ == strip_cr(s@.subrange(pos as int, i as int))) by {
                    let whole = s@.subrange(pos as int, i as int);
                    if i > pos && v@[i - 1] == '\r' {
                        assert(whole.last() == '\r');
                        assert(whole.drop_last() == s@.subrange(pos as int, i - 1));
                    }
                }
                out.push(line);
                assert(out.deep_view() == before.push(line@));
                assert(before.push(line@) + lines_from(s@, i + 1) == before + (seq![line@]
                    + lines_from(s@, i + 1)));
                pos = i + 1;
            },
            None => {
                let line = substring(s, pos, n);
                out.push(line);
                assert(out.deep_view() == before.push(line@));
                assert(lines_from(s@, n as int) == Seq::<Seq<char>>::empty());
                assert(before.push(line@) + Seq::<Seq<char>>::empty() == before + seq![line@]);
                pos = n;
            },
        }
    }
    assert(lines_from(s@, pos as int) == Seq::<Seq<char>>::empty());
    assert(out.deep_view() + Seq::<Seq<char>>::empty() == out.deep_view());
    out
}

/// The fields of `s` from position `pos` on, cut at each `sep`.
pub open spec fn split_from(s: Seq<char>, sep: Seq<char>, pos: int) -> Seq<Seq<char>>
    decreases s.len() - pos,
{
    if sep.len() == 0 || pos < 0 || pos > s.len() {
        Seq::empty()
    } else {
        match find_from(s, sep, pos) {
            Some(i) => {
                proof {
                    lemma_find_from(s, sep, pos);
                }
                seq![s.subrange(pos, i)] + split_from(s, sep, i + sep.len())
            },
            None => seq![s.subrange(pos, s.len() as int)],
        }
    }
}

/// The fields of `s`, cut at each occurrence of the non-empty text `sep`,
/// taken from the left without overlap. A text without `sep` is one field,
/// the empty text too. An empty `sep` cuts no field at all.
pub open spec fn split(s: Seq<char>, sep: Seq<char>) -> Seq<Seq<char>> {
    split_from(s, sep, 0)
}

/// The fields of `s`, cut at each occurrence of `sep`; none where `sep` is
/// empty.
pub fn split_fields(s: &str, sep: &str) -> (out: Vec<String>)
    ensures
        out.deep_view() == split(s@, sep@),
{
    let v = chars_of(s);
    let p = chars_of(sep);
    let n = v.len();
    let mut out: Vec<String> = Vec::new();
    let mut pos: usize = 0;
    assert(out.deep_view() == Seq::<Seq<char>>::empty());
    if p.len() == 0 {
        return out;
    }
    loop
        invariant
            v@ == s@,
            p@ == sep@,
            sep@.len() > 0,
            n == v@.len(),
            pos <= n,
            split(s@, sep@) == out.deep_view() + split_from(s@, sep@, pos as int),
        decreases n - pos,
    {
        let ghost before = out.deep_view();
        proof {
            lemma_find_from(s@, sep@, pos as int);
        }
        match find(&v, &p, pos) {
            Some(i) => {
                let field = substring(s, pos, i);
                out.push(field);
                assert(out.deep_view() == before.push(field@));
                assert(before.push(field@) + split_from(s@, sep@, i + sep@.len()) == before + (
                seq![field@] + split_from(s@, sep@, i + sep@.len())));
                pos = i + p.len();
            },
            None => {
                let field = substring(s, pos, n);
                out.push(field);
                assert(out.deep_view() == before.push(field@));
                assert(before.push(field@) == before + seq![field@]);
                return out;
            },
        }
    }
}

/// The texts of `parts` in order, with `sep` between each two neighbours.
pub open spec fn join(parts: Seq<Seq<char>>, sep: Seq<char>) -> Seq<char>
    decreases parts.len(),
{
    if parts.len() == 0 {
        Seq::empty()
    } else if parts.len() == 1 {
        parts[0]
    } else {
        join(parts.drop_last(), sep) + sep + parts.last()
    }
}

/// The texts of `parts` in order, with `sep` between each two neighbours.
pub fn join_with(parts: &Vec<String>, sep: &str) -> (out: String)
    ensures
        out@ == join(parts.deep_view(), sep@),
{
    let mut out = String::new();
    let n = parts.len();
    let mut i: usize = 0;
    assert(parts.deep_view().take(0) == Seq::<Seq<char>>::empty());
    while i < n
        invariant
            n == parts@.len(),
            i <= n,
            out@ == join(parts.deep_view().take(i as int), sep@),
        decreases n - i,
    {
        let ghost head = parts.deep_view().take(i as int);
        let ghost next = parts.deep_view().take(i + 1);
        assert(next.drop_last() == head);
        assert(next.last() == parts@[i as int]@);
        if i > 0 {
            out.append(sep);
        } else {
            assert(out@ + parts@[i as int]@ == parts@[i as int]@);
        }
        out.append(parts[i].as_str());
        i = i + 1;
    }
    assert(parts.deep_view().take(n as int) == parts.deep_view());
    out
}

} // verus!
