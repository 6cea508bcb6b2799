//! The open questions of all repositories, in one list.

use crate::channel::{docs_of, pending_in, Clarifications, EntryView, PendingClarification, PendingView};
use crate::text::chars_of;
use vstd::prelude::*;
use vstd::seq_lib::to_multiset_build;
use vstd::utf8::char_u32_cast;

verus! {

/// Whether `a` comes before `b` in the order of a dictionary, character by
/// character by code point; a text comes after each of its proper prefixes.
pub open spec fn text_less(a: Seq<char>, b: Seq<char>) -> bool
    decreases a.len(),
{
    if b.len() == 0 {
        false
    } else if a.len() == 0 {
        true
    } else if a[0] != b[0] {
        (a[0] as u32) < (b[0] as u32)
    } else {
        text_less(a.drop_first(), b.drop_first())
    }
}

/// Whether `a` comes before `b` in the order of a dictionary.
pub fn str_less(a: &str, b: &str) -> (r: bool)
    ensures
        r == text_less(a@, b@),
{
    let x = chars_of(a);
    let y = chars_of(b);
    let n = x.len();
    let m = y.len();
    let mut i: usize = 0;
    assert(x@.skip(0) == x@ && y@.skip(0) == y@);
    while i < n && i < m
        invariant
            n == x@.len(),
            m == y@.len(),
            i <= n,
            i <= m,
            x@ == a@,
            y@ == b@,
            text_less(x@, y@) == text_less(x@.skip(i as int), y@.skip(i as int)),
        decreases n - i,
    {
        assert(x@.skip(i as int).drop_first() == x@.skip(i + 1));
        assert(y@.skip(i as int).drop_first() == y@.skip(i + 1));
        assert(x@.skip(i as int)[0] == x@[i as int]);
        assert(y@.skip(i as int)[0] == y@[i as int]);
        if x[i] != y[i] {
            let p: u32 = x[i] as u32;
            let q: u32 = y[i] as u32;
            return p < q;
        }
        i = i + 1;
    }
    i < m
}

/// Whether `a` is listed before `b`: by the name of the repository, and
/// within one repository by the number of the task.
pub open spec fn listed_before(a: PendingView, b: PendingView) -> bool {
    text_less(a.repo_name, b.repo_name) || (a.repo_name == b.repo_name && a.issue_number
        < b.issue_number)
}

fn is_listed_before(a: &PendingClarification, b: &PendingClarification) -> (r: bool)
    ensures
        r == listed_before(a@, b@),
{
    str_less(a.repo_name.as_str(), b.repo_name.as_str()) || (a.repo_name == b.repo_name
        && a.issue_number < b.issue_number)
}

/// The ordered list `sorted` with `x` put in behind everything that is not
/// listed after it.
pub open spec fn insert(sorted: Seq<PendingView>, x: PendingView) -> Seq<PendingView>
    decreases sorted.len(),
{
    if sorted.len() > 0 && listed_before(x, sorted.last()) {
        insert(sorted.drop_last(), x).push(sorted.last())
    } else {
        sorted.push(x)
    }
}

/// `items` in the order of the list; items that the order does not tell
/// apart keep the order they came in.
pub open spec fn in_order(items: Seq<PendingView>) -> Seq<PendingView>
    decreases items.len(),
{
    if items.len() == 0 {
        Seq::empty()
    } else {
        insert(in_order(items.drop_last()), items.last())
    }
}

/// Putting `x` in at a place behind which everything is listed after it, and
/// directly before which something is not, is putting it in order.
proof fn lemma_insert_at(sorted: Seq<PendingView>, x: PendingView, at: int)
    requires
        0 <= at <= sorted.len(),
        forall|k: int| at <= k < sorted.len() ==> listed_before(x, #[trigger] sorted[k]),
        at > 0 ==> !listed_before(x, sorted[at - 1]),
    ensures
        insert(sorted, x) == sorted.take(at).push(x) + sorted.skip(at),
    decreases sorted.len(),
{
    if at == sorted.len() {
        assert(sorted.take(at) == sorted);
        assert(sorted.skip(at) == Seq::<PendingView>::empty());
        assert(sorted.push(x) + Seq::<PendingView>::empty() == sorted.push(x));
    } else {
        let shorter = sorted.drop_last();
        lemma_insert_at(shorter, x, at);
        assert(shorter.take(at) == sorted.take(at));
        assert((shorter.take(at).push(x) + shorter.skip(at)).push(sorted.last()) == sorted.take(
            at,
        ).push(x) + sorted.skip(at));
    }
}

/// No text comes before itself.
pub proof fn lemma_text_less_irreflexive(a: Seq<char>)
    ensures
        !text_less(a, a),
    decreases a.len(),
{
    if a.len() > 0 {
        lemma_text_less_irreflexive(a.drop_first());
    }
}

/// Of two different texts, one comes before the other, and never both.
pub proof fn lemma_text_less_total(a: Seq<char>, b: Seq<char>)
    ensures
        text_less(a, b) || a == b || text_less(b, a),
        !(text_less(a, b) && text_less(b, a)),
    decreases a.len(),
{
    if a.len() > 0 && b.len() > 0 && a[0] == b[0] {
        lemma_text_less_total(a.drop_first(), b.drop_first());
        if a.drop_first() == b.drop_first() {
            assert(a =~= seq![a[0]] + a.drop_first());
            assert(b =~= seq![b[0]] + b.drop_first());
        }
    } else if a.len() == 0 && b.len() == 0 {
        assert(a =~= b);
    } else if a.len() > 0 && b.len() > 0 {
        char_u32_cast(a[0], a[0] as u32);
        char_u32_cast(b[0], b[0] as u32);
    }
}

/// What comes before a text comes before everything that the text comes
/// before.
pub proof fn lemma_text_less_trans(a: Seq<char>, b: Seq<char>, c: Seq<char>)
    requires
        text_less(a, b),
        text_less(b, c),
    ensures
        text_less(a, c),
    decreases a.len(),
{
    if a.len() > 0 && a[0] == b[0] && b[0] == c[0] {
        lemma_text_less_trans(a.drop_first(), b.drop_first(), c.drop_first());
    }
}

/// Whether no item of `items` is listed before an item that stands before it.
pub open spec fn is_ordered(items: Seq<PendingView>) -> bool {
    forall|i: int, j: int|
        0 <= i < j < items.len() ==> !listed_before(#[trigger] items[j], #[trigger] items[i])
}

/// Where `c` is not listed before `b`, nor `b` before `a`, `c` is not listed
/// before `a`.
pub proof fn lemma_not_before_trans(a: PendingView, b: PendingView, c: PendingView)
    requires
        !listed_before(b, a),
        !listed_before(c, b),
    ensures
        !listed_before(c, a),
{
    lemma_text_less_total(a.repo_name, b.repo_name);
    lemma_text_less_total(b.repo_name, c.repo_name);
    lemma_text_less_total(a.repo_name, c.repo_name);
    if text_less(c.repo_name, a.repo_name) {
        if text_less(a.repo_name, b.repo_name) {
            lemma_text_less_trans(c.repo_name, a.repo_name, b.repo_name);
        } else if text_less(b.repo_name, c.repo_name) {
            lemma_text_less_trans(b.repo_name, c.repo_name, a.repo_name);
        }
    }
    lemma_text_less_irreflexive(a.repo_name);
    lemma_text_less_irreflexive(b.repo_name);
    lemma_text_less_irreflexive(c.repo_name);
}

/// Putting an item into an ordered list in order gives an ordered list of
/// the same items and the new one.
pub proof fn lemma_insert_ordered(sorted: Seq<PendingView>, x: PendingView)
    requires
        is_ordered(sorted),
    ensures
        is_ordered(insert(sorted, x)),
        insert(sorted, x).to_multiset() == sorted.to_multiset().insert(x),
        forall|k: int|
            0 <= k < insert(sorted, x).len() ==> #[trigger] insert(sorted, x)[k] == x
                || sorted.contains(insert(sorted, x)[k]),
    decreases sorted.len(),
{
    let out = insert(sorted, x);
    if sorted.len() > 0 && listed_before(x, sorted.last()) {
        let init = sorted.drop_last();
        let last = sorted.last();
        let inner = insert(init, x);
        assert forall|i: int, j: int| 0 <= i < j < init.len() implies !listed_before(
            #[trigger] init[j],
            #[trigger] init[i],
        ) by {
            assert(init[i] == sorted[i] && init[j] == sorted[j]);
        }
        lemma_insert_ordered(init, x);
        to_multiset_build(inner, last);
        to_multiset_build(init, last);
        assert(init.push(last) =~= sorted);
        assert(inner.to_multiset().insert(last) =~= init.to_multiset().insert(last).insert(x));
        lemma_text_less_total(x.repo_name, last.repo_name);
        lemma_text_less_irreflexive(x.repo_name);
        assert forall|k: int| 0 <= k < out.len() implies #[trigger] out[k] == x || sorted.contains(
            out[k],
        ) by {
            if k < inner.len() {
                assert(out[k] == inner[k]);
                if inner[k] != x {
                    let i = choose|i: int| 0 <= i < init.len() && init[i] == inner[k];
                    assert(sorted[i] == inner[k]);
                }
            } else {
                assert(sorted[sorted.len() - 1] == out[k]);
            }
        }
        assert forall|i: int, j: int| 0 <= i < j < out.len() implies !listed_before(
            #[trigger] out[j],
            #[trigger] out[i],
        ) by {
            if j < inner.len() {
                assert(out[i] == inner[i] && out[j] == inner[j]);
            } else {
                assert(out[j] == last && out[i] == inner[i]);
                if inner[i] != x {
                    let k = choose|k: int| 0 <= k < init.len() && init[k] == inner[i];
                    assert(sorted[k] == inner[i]);
                    assert(!listed_before(sorted[sorted.len() - 1], sorted[k]));
                }
            }
        }
    } else {
        to_multiset_build(sorted, x);
        assert forall|k: int| 0 <= k < out.len() implies #[trigger] out[k] == x || sorted.contains(
            out[k],
        ) by {
            if k < sorted.len() {
                assert(sorted[k] == out[k]);
            }
        }
        assert forall|i: int, j: int| 0 <= i < j < out.len() implies !listed_before(
            #[trigger] out[j],
            #[trigger] out[i],
        ) by {
            if j < sorted.len() {
                assert(out[i] == sorted[i] && out[j] == sorted[j]);
            } else {
                assert(out[j] == x && out[i] == sorted[i]);
                if i < sorted.len() - 1 {
                    assert(!listed_before(sorted[sorted.len() - 1], sorted[i]));
                    lemma_not_before_trans(sorted[i], sorted.last(), x);
                }
            }
        }
    }
}

/// The list in order holds the items that it was made of, each as often as
/// it came, and none of them is listed before one that stands before it.
pub proof fn lemma_in_order(items: Seq<PendingView>)
    ensures
        is_ordered(in_order(items)),
        in_order(items).to_multiset() == items.to_multiset(),
    decreases items.len(),
{
    if items.len() > 0 {
        lemma_in_order(items.drop_last());
        lemma_insert_ordered(in_order(items.drop_last()), items.last());
        to_multiset_build(items.drop_last(), items.last());
        assert(items.drop_last().push(items.last()) =~= items);
    } else {
        assert(in_order(items) =~= items);
    }
}

impl Clone for PendingClarification {
    fn clone(&self) -> (r: Self)
        ensures
            r == *self,
    {
        PendingClarification {
            repo_name: self.repo_name.clone(),
            issue_number: self.issue_number,
            content: self.content.clone(),
        }
    }
}

/// `items` in the order of the list.
pub fn sort_pending(items: &Vec<PendingClarification>) -> (out: Vec<PendingClarification>)
    ensures
        out.deep_view() == in_order(items.deep_view()),
{
    let mut out: Vec<PendingClarification> = Vec::new();
    let n = items.len();
    let mut i: usize = 0;
    assert(items.deep_view().take(0) == Seq::<PendingView>::empty());
    assert(out.deep_view() == Seq::<PendingView>::empty());
    while i < n
        invariant
            n == items@.len(),
            i <= n,
            out@.len() == i,
            out.deep_view() == in_order(items.deep_view().take(i as int)),
        decreases n - i,
    {
        assert(items.deep_view().take(i + 1).drop_last() == items.deep_view().take(i as int));
        assert(items.deep_view().take(i + 1).last() == items@[i as int]@);
        let item = items[i].clone();
        let mut at: usize = out.len();
        while at > 0 && is_listed_before(&item, &out[at - 1])
            invariant
                at <= out@.len(),
                forall|k: int|
                    at <= k < out@.len() ==> listed_before(item@, #[trigger] out.deep_view()[k]),
            decreases at,
        {
            at = at - 1;
        }
        let ghost before = out.deep_view();
        proof {
            lemma_insert_at(before, item@, at as int);
        }
        out.insert(at, item);
        assert(out.deep_view() == before.take(at as int).push(item@) + before.skip(at as int));
        i = i + 1;
    }
    assert(items.deep_view().take(n as int) == items.deep_view());
    out
}

/// The mathematical content of the channels of several repositories, each
/// with the name of its repository.
pub open spec fn channels_view(repos: Seq<(String, Clarifications)>) -> Seq<
    (Seq<char>, Seq<EntryView>),
> {
    Seq::new(repos.len(), |i: int| (repos[i].0@, repos[i].1@))
}

/// The open questions of `repos`, repository after repository.
pub open spec fn all_pending(repos: Seq<(Seq<char>, Seq<EntryView>)>) -> Seq<PendingView>
    decreases repos.len(),
{
    if repos.len() == 0 {
        Seq::empty()
    } else {
        all_pending(repos.drop_last()) + pending_in(repos.last().1, repos.last().0)
    }
}

/// The questions of all of `repos` that wait for their answer, by the name
/// of the repository, and within one repository by the number of the task.
pub fn list_pending_clarifications(repos: &Vec<(String, Clarifications)>) -> (out: Vec<
    PendingClarification,
>)
    ensures
        out.deep_view() == in_order(all_pending(channels_view(repos@))),
{
    let mut found: Vec<PendingClarification> = Vec::new();
    let n = repos.len();
    let mut i: usize = 0;
    assert(channels_view(repos@).take(0) == Seq::<(Seq<char>, Seq<EntryView>)>::empty());
    assert(found.deep_view() == Seq::<PendingView>::empty());
    while i < n
        invariant
            n == repos@.len(),
            i <= n,
            found.deep_view() == all_pending(channels_view(repos@).take(i as int)),
        decreases n - i,
    {
        let ghost before = found.deep_view();
        assert(channels_view(repos@).take(i + 1).drop_last() == channels_view(repos@).take(
            i as int,
        ));
        assert(channels_view(repos@).take(i + 1).last() == (repos@[i as int].0@, repos@[i as int].1@));
        let mut more = repos[i].1.list_pending(repos[i].0.as_str());
        let ghost added = more.deep_view();
        found.append(&mut more);
        assert(found.deep_view() == before + added);
        i = i + 1;
    }
    assert(channels_view(repos@).take(n as int) == channels_view(repos@));
    sort_pending(&found)
}

/// The position of the first of `repos` from `from` on that holds a question
/// document of task `number`.
pub open spec fn asked_from(repos: Seq<(Seq<char>, Seq<EntryView>)>, number: u64, from: int) -> Option<
    int,
>
    decreases repos.len() - from,
{
    if from < 0 || from >= repos.len() {
        None
    } else if docs_of(repos[from].1, number).question is Some {
        Some(from)
    } else {
        asked_from(repos, number, from + 1)
    }
}

/// The position of the first of `repos` that holds a question document of
/// task `number`.
pub fn find_repo_for_issue(repos: &Vec<(String, Clarifications)>, number: u64) -> (r: Option<usize>)
    ensures
        match r {
            Some(i) => i < repos@.len() && asked_from(channels_view(repos@), number, 0) == Some(
                i as int,
            ),
            None => asked_from(channels_view(repos@), number, 0) is None,
        },
{
    let n = repos.len();
    let mut i: usize = 0;
    while i < n
        invariant
            n == repos@.len(),
            i <= n,
            asked_from(channels_view(repos@), number, 0) == asked_from(
                channels_view(repos@),
                number,
                i as int,
            ),
        decreases n - i,
    {
        assert(channels_view(repos@)[i as int].1 == repos@[i as int].1@);
        if repos[i].1.has_question(number) {
            return Some(i);
        }
        i = i + 1;
    }
    None
}

} // verus!
