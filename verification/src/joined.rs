//! Searching, and cutting into lines and fields, in texts that are put
//! together from parts: what is found in the whole, told by the parts.

use crate::lines::{join, line_feed, lines, lines_from, split, split_from, strip_cr};
use crate::text::{find_from, lemma_find_from, occurs_at};
use vstd::prelude::*;

verus! {

/// A position at which `needle` stands, with none from `from` on before it,
/// is the position that the search from `from` finds.
pub proof fn lemma_find_is(s: Seq<char>, needle: Seq<char>, from: int, at: int)
    requires
        0 <= from <= at,
        occurs_at(s, needle, at),
        forall|j: int| from <= j < at ==> !occurs_at(s, needle, j),
    ensures
        find_from(s, needle, from) == Some(at),
{
    lemma_find_from(s, needle, from);
}

/// Where `needle` stands nowhere from `from` on, the search finds nothing.
pub proof fn lemma_find_none(s: Seq<char>, needle: Seq<char>, from: int)
    requires
        0 <= from,
        forall|j: int| from <= j ==> !occurs_at(s, needle, j),
    ensures
        find_from(s, needle, from) is None,
{
    lemma_find_from(s, needle, from);
}

/// A character stands at a position exactly where the one-character text of
/// it stands there.
pub proof fn lemma_occurs_char(s: Seq<char>, c: char, i: int)
    ensures
        occurs_at(s, seq![c], i) == (0 <= i < s.len() && s[i] == c),
{
    if 0 <= i < s.len() {
        if s[i] == c {
            assert(s.subrange(i, i + 1) =~= seq![c]);
        } else {
            assert(s.subrange(i, i + 1)[0] == s[i]);
        }
    }
}

/// What stands in the second part of a text stands as far behind in the
/// whole as the first part is long.
pub proof fn lemma_occurs_shift(u: Seq<char>, y: Seq<char>, needle: Seq<char>, j: int)
    requires
        0 <= j,
    ensures
        occurs_at(u + y, needle, u.len() + j) == occurs_at(y, needle, j),
{
    if j + needle.len() <= y.len() {
        assert((u + y).subrange(u.len() + j, u.len() + j + needle.len()) =~= y.subrange(
            j,
            j + needle.len(),
        ));
    }
}

/// What stands within the first part of a text stands at the same place in
/// the whole.
pub proof fn lemma_occurs_head(u: Seq<char>, y: Seq<char>, needle: Seq<char>, j: int)
    requires
        0 <= j,
        j + needle.len() <= u.len(),
    ensures
        occurs_at(u + y, needle, j) == occurs_at(u, needle, j),
{
    assert((u + y).subrange(j, j + needle.len()) =~= u.subrange(j, j + needle.len()));
}

/// The position that a search finds, moved by `by`.
pub open spec fn moved(found: Option<int>, by: int) -> Option<int> {
    match found {
        Some(i) => Some(i + by),
        None => None,
    }
}

/// A search that begins in the second part of a text finds what the same
/// search finds in the second part alone.
pub proof fn lemma_find_shift(u: Seq<char>, y: Seq<char>, needle: Seq<char>, k: int)
    requires
        0 <= k,
    ensures
        find_from(u + y, needle, u.len() + k) == moved(find_from(y, needle, k), u.len() as int),
{
    lemma_find_from(y, needle, k);
    match find_from(y, needle, k) {
        Some(i) => {
            lemma_occurs_shift(u, y, needle, i);
            assert forall|j: int| u.len() + k <= j < u.len() + i implies !occurs_at(
                u + y,
                needle,
                j,
            ) by {
                lemma_occurs_shift(u, y, needle, j - u.len());
            }
            lemma_find_is(u + y, needle, u.len() + k, u.len() + i);
        },
        None => {
            assert forall|j: int| u.len() + k <= j implies !occurs_at(u + y, needle, j) by {
                lemma_occurs_shift(u, y, needle, j - u.len());
            }
            lemma_find_none(u + y, needle, u.len() + k);
        },
    }
}

/// What a search finds in the first part of a text, it finds in the whole.
pub proof fn lemma_find_head(u: Seq<char>, y: Seq<char>, needle: Seq<char>, from: int, at: int)
    requires
        0 <= from,
        find_from(u, needle, from) == Some(at),
    ensures
        find_from(u + y, needle, from) == Some(at),
{
    lemma_find_from(u, needle, from);
    lemma_occurs_head(u, y, needle, at);
    assert forall|j: int| from <= j < at implies !occurs_at(u + y, needle, j) by {
        lemma_occurs_head(u, y, needle, j);
    }
    lemma_find_is(u + y, needle, from, at);
}

/// Whether `s` holds no line feed.
pub open spec fn is_one_line(s: Seq<char>) -> bool {
    forall|i: int| 0 <= i < s.len() ==> #[trigger] s[i] != '\n'
}

/// Whether `s` holds no carriage return.
pub open spec fn has_no_cr(s: Seq<char>) -> bool {
    forall|i: int| 0 <= i < s.len() ==> #[trigger] s[i] != '\r'
}

/// A text without a line feed and without a carriage return at its end,
/// ended by a line feed, is one line.
pub proof fn lemma_single_line(x: Seq<char>)
    requires
        is_one_line(x),
        x.len() > 0 ==> x.last() != '\r',
    ensures
        lines(x + line_feed()) == seq![x],
{
    let s = x + line_feed();
    let at = x.len() as int;
    lemma_occurs_char(s, '\n', at);
    assert forall|j: int| 0 <= j < at implies !occurs_at(s, line_feed(), j) by {
        lemma_occurs_char(s, '\n', j);
        assert(s[j] == x[j]);
    }
    lemma_find_is(s, line_feed(), 0, at);
    assert(s.subrange(0, at) =~= x);
    assert(strip_cr(x) == x);
    assert(lines_from(s, at + 1) =~= Seq::<Seq<char>>::empty());
    assert(seq![x] + Seq::<Seq<char>>::empty() =~= seq![x]);
}

/// The lines from a position in the second part of a text are the lines of
/// the second part from that position.
pub proof fn lemma_lines_shift(u: Seq<char>, y: Seq<char>, k: int)
    requires
        0 <= k,
    ensures
        lines_from(u + y, u.len() + k) == lines_from(y, k),
    decreases y.len() - k,
{
    let s = u + y;
    if k < y.len() {
        lemma_find_shift(u, y, line_feed(), k);
        lemma_find_from(y, line_feed(), k);
        match find_from(y, line_feed(), k) {
            Some(i) => {
                assert(s.subrange(u.len() + k, u.len() + i) =~= y.subrange(k, i));
                lemma_lines_shift(u, y, i + 1);
            },
            None => {
                assert(s.subrange(u.len() + k, s.len() as int) =~= y.subrange(k, y.len() as int));
            },
        }
    }
}

/// After a text that ends in a line feed, the lines of another text follow:
/// the lines of the whole are the lines of the one and then those of the
/// other.
pub proof fn lemma_lines_concat(u: Seq<char>, y: Seq<char>)
    requires
        u.len() > 0,
        u.last() == '\n',
    ensures
        lines(u + y) == lines(u) + lines(y),
{
    lemma_lines_concat_from(u, y, 0);
}

proof fn lemma_lines_concat_from(u: Seq<char>, y: Seq<char>, pos: int)
    requires
        u.len() > 0,
        u.last() == '\n',
        0 <= pos <= u.len(),
    ensures
        lines_from(u + y, pos) == lines_from(u, pos) + lines(y),
    decreases u.len() - pos,
{
    let s = u + y;
    if pos == u.len() {
        lemma_lines_shift(u, y, 0);
        assert(lines_from(u, pos) =~= Seq::<Seq<char>>::empty());
        assert(Seq::<Seq<char>>::empty() + lines(y) =~= lines(y));
    } else {
        lemma_find_from(u, line_feed(), pos);
        lemma_occurs_char(u, '\n', u.len() - 1);
        let i = find_from(u, line_feed(), pos).unwrap();
        lemma_find_head(u, y, line_feed(), pos, i);
        assert(s.subrange(pos, i) =~= u.subrange(pos, i));
        lemma_lines_concat_from(u, y, i + 1);
        let first = seq![strip_cr(u.subrange(pos, i))];
        assert(first + (lines_from(u, i + 1) + lines(y)) =~= (first + lines_from(u, i + 1)) + lines(
            y,
        ));
    }
}

/// A text that ends in a line feed has at least one line.
pub proof fn lemma_lines_not_empty(x: Seq<char>)
    ensures
        lines(x + line_feed()).len() > 0,
{
    let s = x + line_feed();
    lemma_find_from(s, line_feed(), 0);
}

/// The texts of a list with something between them: the first, and then
/// each other behind a separator.
pub proof fn lemma_join_first(parts: Seq<Seq<char>>, sep: Seq<char>)
    requires
        parts.len() >= 2,
    ensures
        join(parts, sep) == parts[0] + sep + join(parts.drop_first(), sep),
    decreases parts.len(),
{
    let rest = parts.drop_first();
    if parts.len() == 2 {
        assert(parts.drop_last() =~= seq![parts[0]]);
        assert(rest =~= seq![parts[1]]);
        assert(join(parts.drop_last(), sep) == parts[0]);
        assert(join(rest, sep) == parts[1]);
    } else {
        lemma_join_first(parts.drop_last(), sep);
        assert(parts.drop_last().drop_first() =~= rest.drop_last());
        assert(rest.last() == parts.last());
        assert(join(parts, sep) =~= parts[0] + sep + (join(rest.drop_last(), sep) + sep
            + rest.last()));
    }
}

/// The fields from a position in the second part of a text are the fields
/// of the second part from that position.
pub proof fn lemma_split_shift(u: Seq<char>, y: Seq<char>, sep: Seq<char>, k: int)
    requires
        0 <= k <= y.len(),
        sep.len() > 0,
    ensures
        split_from(u + y, sep, u.len() + k) == split_from(y, sep, k),
    decreases y.len() - k,
{
    let s = u + y;
    lemma_find_shift(u, y, sep, k);
    lemma_find_from(y, sep, k);
    match find_from(y, sep, k) {
        Some(i) => {
            assert(s.subrange(u.len() + k, u.len() + i) =~= y.subrange(k, i));
            lemma_split_shift(u, y, sep, i + sep.len());
        },
        None => {
            assert(s.subrange(u.len() + k, s.len() as int) =~= y.subrange(k, y.len() as int));
        },
    }
}

/// Whether `sep` stands nowhere in `s`.
pub open spec fn is_free_of(s: Seq<char>, sep: Seq<char>) -> bool {
    forall|i: int| !occurs_at(s, sep, i)
}

/// Texts that do not hold the two-character separator between them are the
/// fields of their joined text: what was joined is cut apart again.
pub proof fn lemma_split_join(parts: Seq<Seq<char>>, first: char, second: char)
    requires
        parts.len() > 0,
        first != second,
        forall|i: int| 0 <= i < parts.len() ==> is_free_of(#[trigger] parts[i], seq![first, second]),
    ensures
        split(join(parts, seq![first, second]), seq![first, second]) == parts,
    decreases parts.len(),
{
    let sep = seq![first, second];
    let whole = join(parts, sep);
    let head = parts[0];
    if parts.len() == 1 {
        assert(whole == head);
        assert forall|j: int| 0 <= j implies !occurs_at(whole, sep, j) by {}
        lemma_find_none(whole, sep, 0);
        assert(whole.subrange(0, whole.len() as int) =~= whole);
        assert(seq![whole] =~= parts);
    } else {
        let rest = parts.drop_first();
        lemma_join_first(parts, sep);
        let tail = join(rest, sep);
        assert(whole == head + sep + tail);
        let at = head.len() as int;
        assert(whole.subrange(at, at + 2) =~= sep);
        assert forall|j: int| 0 <= j < at implies !occurs_at(whole, sep, j) by {
            if j + 2 <= at {
                assert(whole.subrange(j, j + 2) =~= head.subrange(j, j + 2));
                assert(!occurs_at(head, sep, j));
            } else {
                assert(whole.subrange(j, j + 2)[1] == first);
                assert(sep[1] == second);
            }
        }
        lemma_find_is(whole, sep, 0, at);
        assert(whole.subrange(0, at) =~= head);
        assert forall|i: int| 0 <= i < rest.len() implies is_free_of(#[trigger] rest[i], sep) by {
            assert(rest[i] == parts[i + 1]);
        }
        lemma_split_join(rest, first, second);
        assert(whole =~= (head + sep) + tail);
        lemma_split_shift(head + sep, tail, sep, 0);
        assert(seq![head] + rest =~= parts);
    }
}

/// A text without carriage returns, ended by a line feed and cut into
/// lines, is put together again by line feeds between the lines.
pub proof fn lemma_join_lines(q: Seq<char>)
    requires
        has_no_cr(q),
    ensures
        join(lines(q + line_feed()), line_feed()) == q,
    decreases q.len(),
{
    let nl = line_feed();
    lemma_find_from(q, nl, 0);
    match find_from(q, nl, 0) {
        None => {
            assert forall|i: int| 0 <= i < q.len() implies #[trigger] q[i] != '\n' by {
                lemma_occurs_char(q, '\n', i);
            }
            if q.len() > 0 {
                assert(q[q.len() - 1] != '\r');
            }
            lemma_single_line(q);
        },
        Some(i) => {
            lemma_occurs_char(q, '\n', i);
            let a = q.take(i);
            let r = q.skip(i + 1);
            assert forall|j: int| 0 <= j < a.len() implies #[trigger] a[j] != '\n' by {
                lemma_occurs_char(q, '\n', j);
                assert(a[j] == q[j]);
            }
            if a.len() > 0 {
                assert(a[a.len() - 1] == q[a.len() - 1]);
            }
            assert forall|j: int| 0 <= j < r.len() implies #[trigger] r[j] != '\r' by {
                assert(r[j] == q[i + 1 + j]);
            }
            lemma_single_line(a);
            lemma_join_lines(r);
            assert(q + nl =~= (a + nl) + (r + nl));
            lemma_lines_concat(a + nl, r + nl);
            lemma_lines_not_empty(r);
            let all = lines(q + nl);
            let later = lines(r + nl);
            assert(all == seq![a] + later);
            assert(all.drop_first() =~= later);
            lemma_join_first(all, nl);
            assert(q =~= a + nl + r);
        },
    }
}

} // verus!
