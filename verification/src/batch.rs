//! Which tasks a run takes up, and the proof that a run leaves the settled
//! ones alone.

use crate::channel::{docs_of, Clarifications, EntryView};
use crate::pending::channels_view;
use crate::pipeline::{agrees, lemma_step_elsewhere, spec_start, EventView, PipelineView};
use crate::status::{IssueStateView, IssueStatus, Timestamp};
use crate::task::{ForgeIssue, ForgeIssueView};
use crate::text::same_text;
use crate::tracker::{
    distinct_keys, lemma_amend_elsewhere, lemma_reset_idempotent, lemma_same_elsewhere_trans,
    lemma_with_status, lookup, same_elsewhere, with_reset, with_status, StateTracker,
};
use vstd::prelude::*;

verus! {

/// Whether a run takes up a task, given its record, whether the run resumes
/// interrupted and failed tasks, and whether a non-blank answer lies beside
/// its question. A task without a record is taken up, and so is one whose
/// status is not terminal. A task with a terminal status is taken up only on
/// a resume, if its status is resumable, or, if it waits for a human, once
/// it is answered.
pub open spec fn is_eligible(record: Option<IssueStateView>, resume: bool, answered: bool) -> bool {
    match record {
        None => true,
        Some(r) => {
            ||| !r.status.is_terminal()
            ||| resume && r.status.is_resumable()
            ||| r.status is NeedsClarification && answered
        },
    }
}

/// A task that is fully integrated, handed over or skipped is never taken
/// up, and a task that waits for a human is not taken up before it is
/// answered.
pub proof fn lemma_settled_not_eligible(record: IssueStateView, resume: bool, answered: bool)
    ensures
        record.status is Success ==> !is_eligible(Some(record), resume, answered),
        record.status is PrCreated ==> !is_eligible(Some(record), resume, answered),
        record.status is Skipped ==> !is_eligible(Some(record), resume, answered),
        record.status is NeedsClarification && !answered ==> !is_eligible(
            Some(record),
            resume,
            answered,
        ),
{
}

/// A task that was put back into the queue is taken up by the next run.
pub proof fn lemma_reset_is_taken_up(
    records: Seq<IssueStateView>,
    repo: Seq<char>,
    number: u64,
    resume: bool,
    answered: bool,
)
    requires
        distinct_keys(records),
    ensures
        is_eligible(lookup(with_reset(records, repo, number), repo, number), resume, answered),
{
    lemma_reset_idempotent(records, repo, number);
}

/// A task whose machine stopped in the middle is never lost: whatever the
/// next run is asked to do, it takes the task up again.
pub proof fn lemma_interrupted_is_taken_up(
    machine: PipelineView,
    records: Seq<IssueStateView>,
    resume: bool,
    answered: bool,
)
    requires
        agrees(machine, records),
        !(machine.stage is Done),
        !(machine.stage is Paused),
    ensures
        is_eligible(
            lookup(records, machine.issue.full_repo(), machine.issue.number),
            resume,
            answered,
        ),
{
}

/// The position of the first of `channels` from `from` on that belongs to
/// the repository named `name`.
pub open spec fn channel_from(
    channels: Seq<(Seq<char>, Seq<EntryView>)>,
    name: Seq<char>,
    from: int,
) -> Option<int>
    decreases channels.len() - from,
{
    if from < 0 || from >= channels.len() {
        None
    } else if channels[from].0 == name {
        Some(from)
    } else {
        channel_from(channels, name, from + 1)
    }
}

/// Whether a non-blank answer lies beside the question of `issue`, in the
/// channel of its repository.
pub open spec fn is_answered(channels: Seq<(Seq<char>, Seq<EntryView>)>, issue: ForgeIssueView) -> bool {
    match channel_from(channels, issue.repo_name, 0) {
        Some(i) => docs_of(channels[i].1, issue.number).check() is Some,
        None => false,
    }
}

/// Whether `a` and `b` are the same task: the same number in the same
/// repository.
pub open spec fn same_task(a: ForgeIssueView, b: ForgeIssueView) -> bool {
    a.number == b.number && a.full_repo() == b.full_repo()
}

/// Whether `batch` holds the task `c`.
pub open spec fn holds_task(batch: Seq<ForgeIssueView>, c: ForgeIssueView) -> bool {
    exists|i: int| 0 <= i < batch.len() && same_task(#[trigger] batch[i], c)
}

/// The tasks of `candidates` that a run takes up, each once, in the order
/// they come in.
pub open spec fn eligible_tasks(
    candidates: Seq<ForgeIssueView>,
    records: Seq<IssueStateView>,
    channels: Seq<(Seq<char>, Seq<EntryView>)>,
    resume: bool,
) -> Seq<ForgeIssueView>
    decreases candidates.len(),
{
    if candidates.len() == 0 {
        Seq::empty()
    } else {
        let rest = eligible_tasks(candidates.drop_last(), records, channels, resume);
        let c = candidates.last();
        if is_eligible(lookup(records, c.full_repo(), c.number), resume, is_answered(channels, c))
            && !holds_task(rest, c) {
            rest.push(c)
        } else {
            rest
        }
    }
}

/// The tasks of `batch` in the repository that `filter` names; all of them
/// where it names none.
pub open spec fn in_repo(batch: Seq<ForgeIssueView>, filter: Option<Seq<char>>) -> Seq<ForgeIssueView>
    decreases batch.len(),
{
    if batch.len() == 0 {
        Seq::empty()
    } else {
        let rest = in_repo(batch.drop_last(), filter);
        let keep = match filter {
            Some(name) => batch.last().repo_name == name,
            None => true,
        };
        if keep {
            rest.push(batch.last())
        } else {
            rest
        }
    }
}

/// The batch of a run: the tasks of `candidates` that the run takes up, each
/// once, of the repository that `filter` names if it names one.
pub open spec fn select(
    candidates: Seq<ForgeIssueView>,
    records: Seq<IssueStateView>,
    channels: Seq<(Seq<char>, Seq<EntryView>)>,
    resume: bool,
    filter: Option<Seq<char>>,
) -> Seq<ForgeIssueView> {
    in_repo(eligible_tasks(candidates, records, channels, resume), filter)
}

/// Every task of `in_repo(batch, filter)` is a task of `batch`.
pub proof fn lemma_in_repo_subset(batch: Seq<ForgeIssueView>, filter: Option<Seq<char>>, k: int)
    requires
        0 <= k < in_repo(batch, filter).len(),
    ensures
        exists|i: int| 0 <= i < batch.len() && #[trigger] batch[i] == in_repo(batch, filter)[k],
    decreases batch.len(),
{
    let rest = in_repo(batch.drop_last(), filter);
    if k < rest.len() {
        lemma_in_repo_subset(batch.drop_last(), filter, k);
        let i = choose|i: int|
            0 <= i < batch.drop_last().len() && #[trigger] batch.drop_last()[i] == rest[k];
        assert(batch[i] == in_repo(batch, filter)[k]);
    } else {
        assert(batch[batch.len() - 1] == in_repo(batch, filter)[k]);
    }
}

/// Every task that is taken up is eligible.
pub proof fn lemma_eligible_tasks(
    candidates: Seq<ForgeIssueView>,
    records: Seq<IssueStateView>,
    channels: Seq<(Seq<char>, Seq<EntryView>)>,
    resume: bool,
    k: int,
)
    requires
        0 <= k < eligible_tasks(candidates, records, channels, resume).len(),
    ensures
        ({
            let c = eligible_tasks(candidates, records, channels, resume)[k];
            is_eligible(lookup(records, c.full_repo(), c.number), resume, is_answered(channels, c))
        }),
    decreases candidates.len(),
{
    let rest = eligible_tasks(candidates.drop_last(), records, channels, resume);
    if k < rest.len() {
        lemma_eligible_tasks(candidates.drop_last(), records, channels, resume, k);
    }
}

/// No task is taken up twice.
pub proof fn lemma_eligible_once(
    candidates: Seq<ForgeIssueView>,
    records: Seq<IssueStateView>,
    channels: Seq<(Seq<char>, Seq<EntryView>)>,
    resume: bool,
)
    ensures
        forall|i: int, j: int|
            0 <= i < j < eligible_tasks(candidates, records, channels, resume).len() ==> !same_task(
                #[trigger] eligible_tasks(candidates, records, channels, resume)[i],
                #[trigger] eligible_tasks(candidates, records, channels, resume)[j],
            ),
    decreases candidates.len(),
{
    if candidates.len() > 0 {
        lemma_eligible_once(candidates.drop_last(), records, channels, resume);
        let rest = eligible_tasks(candidates.drop_last(), records, channels, resume);
        let all = eligible_tasks(candidates, records, channels, resume);
        assert forall|i: int, j: int| 0 <= i < j < all.len() implies !same_task(
            #[trigger] all[i],
            #[trigger] all[j],
        ) by {
            if j < rest.len() {
                assert(all[i] == rest[i] && all[j] == rest[j]);
            } else {
                assert(all[i] == rest[i]);
                assert(!holds_task(rest, candidates.last()));
            }
        }
    }
}

/// Keeping the tasks of one repository keeps them different from each other.
pub proof fn lemma_in_repo_once(batch: Seq<ForgeIssueView>, filter: Option<Seq<char>>)
    requires
        forall|i: int, j: int|
            0 <= i < j < batch.len() ==> !same_task(#[trigger] batch[i], #[trigger] batch[j]),
    ensures
        forall|i: int, j: int|
            0 <= i < j < in_repo(batch, filter).len() ==> !same_task(
                #[trigger] in_repo(batch, filter)[i],
                #[trigger] in_repo(batch, filter)[j],
            ),
    decreases batch.len(),
{
    if batch.len() > 0 {
        let init = batch.drop_last();
        let rest = in_repo(init, filter);
        let out = in_repo(batch, filter);
        assert forall|i: int, j: int| 0 <= i < j < init.len() implies !same_task(
            #[trigger] init[i],
            #[trigger] init[j],
        ) by {
            assert(init[i] == batch[i] && init[j] == batch[j]);
        }
        lemma_in_repo_once(init, filter);
        assert forall|i: int, j: int| 0 <= i < j < out.len() implies !same_task(
            #[trigger] out[i],
            #[trigger] out[j],
        ) by {
            if j < rest.len() {
                assert(out[i] == rest[i] && out[j] == rest[j]);
            } else {
                assert(out[j] == batch[batch.len() - 1]);
                assert(out[i] == rest[i]);
                lemma_in_repo_subset(init, filter, i);
                let k = choose|k: int| 0 <= k < init.len() && #[trigger] init[k] == rest[i];
                assert(batch[k] == rest[i]);
            }
        }
    }
}

/// No task stands twice in a batch.
pub proof fn lemma_batch_once(
    candidates: Seq<ForgeIssueView>,
    records: Seq<IssueStateView>,
    channels: Seq<(Seq<char>, Seq<EntryView>)>,
    resume: bool,
    filter: Option<Seq<char>>,
)
    ensures
        forall|i: int, j: int|
            0 <= i < j < select(candidates, records, channels, resume, filter).len() ==> !same_task(
                #[trigger] select(candidates, records, channels, resume, filter)[i],
                #[trigger] select(candidates, records, channels, resume, filter)[j],
            ),
{
    lemma_eligible_once(candidates, records, channels, resume);
    lemma_in_repo_once(eligible_tasks(candidates, records, channels, resume), filter);
}

/// A batch holds no task that is fully integrated, and no task that waits
/// for a human without an answer.
pub proof fn lemma_batch_leaves_settled(
    candidates: Seq<ForgeIssueView>,
    records: Seq<IssueStateView>,
    channels: Seq<(Seq<char>, Seq<EntryView>)>,
    resume: bool,
    filter: Option<Seq<char>>,
    k: int,
)
    requires
        0 <= k < select(candidates, records, channels, resume, filter).len(),
    ensures
        ({
            let c = select(candidates, records, channels, resume, filter)[k];
            match lookup(records, c.full_repo(), c.number) {
                Some(r) => !(r.status is Success) && !(r.status is NeedsClarification
                    && !is_answered(channels, c)),
                None => true,
            }
        }),
{
    let taken = eligible_tasks(candidates, records, channels, resume);
    lemma_in_repo_subset(taken, filter, k);
    let i = choose|i: int|
        0 <= i < taken.len() && #[trigger] taken[i] == in_repo(taken, filter)[k];
    lemma_eligible_tasks(candidates, records, channels, resume, i);
}

/// One move of a run: the work on a task begins, or the machine of a task
/// takes a step.
pub enum Move {
    Start { issue: ForgeIssueView, now: Timestamp },
    Step { machine: PipelineView, event: EventView, now: Timestamp },
}

impl Move {
    /// The task that moves.
    pub open spec fn issue(self) -> ForgeIssueView {
        match self {
            Move::Start { issue, now } => issue,
            Move::Step { machine, event, now } => machine.issue,
        }
    }

    /// The records after the move.
    pub open spec fn apply(self, records: Seq<IssueStateView>) -> Seq<IssueStateView> {
        match self {
            Move::Start { issue, now } => spec_start(issue, records, now),
            Move::Step { machine, event, now } => machine.step(event, records, now).2,
        }
    }
}

/// The records after all of `moves`, one after the other.
pub open spec fn after_moves(records: Seq<IssueStateView>, moves: Seq<Move>) -> Seq<IssueStateView>
    decreases moves.len(),
{
    if moves.len() == 0 {
        records
    } else {
        moves.last().apply(after_moves(records, moves.drop_last()))
    }
}

/// A move touches the record of no task but its own.
pub proof fn lemma_move_elsewhere(records: Seq<IssueStateView>, m: Move)
    requires
        distinct_keys(records),
    ensures
        distinct_keys(m.apply(records)),
        same_elsewhere(records, m.apply(records), m.issue().full_repo(), m.issue().number),
{
    match m {
        Move::Start { issue, now } => {
            let repo = issue.full_repo();
            let triaging = with_status(
                records,
                repo,
                issue.number,
                issue.title,
                IssueStatus::Triaging,
            );
            lemma_with_status(records, repo, issue.number, issue.title, IssueStatus::Triaging);
            lemma_amend_elsewhere(
                triaging,
                repo,
                issue.number,
                |r: IssueStateView| IssueStateView { started_at: Some(now), ..r },
            );
            lemma_same_elsewhere_trans(records, triaging, m.apply(records), repo, issue.number);
        },
        Move::Step { machine, event, now } => {
            lemma_step_elsewhere(machine, event, records, now);
        },
    }
}

/// Whatever the tasks of a run do, the record of a task that is none of them
/// stays as it is.
pub proof fn lemma_run_leaves_others(
    records: Seq<IssueStateView>,
    moves: Seq<Move>,
    repo: Seq<char>,
    number: u64,
)
    requires
        distinct_keys(records),
        forall|i: int|
            0 <= i < moves.len() ==> !((#[trigger] moves[i]).issue().full_repo() == repo
                && moves[i].issue().number == number),
    ensures
        distinct_keys(after_moves(records, moves)),
        lookup(after_moves(records, moves), repo, number) == lookup(records, repo, number),
    decreases moves.len(),
{
    if moves.len() > 0 {
        let earlier = moves.drop_last();
        assert forall|i: int| 0 <= i < earlier.len() implies !((#[trigger] earlier[i]).issue().full_repo()
            == repo && earlier[i].issue().number == number) by {
            assert(earlier[i] == moves[i]);
        }
        lemma_run_leaves_others(records, earlier, repo, number);
        lemma_move_elsewhere(after_moves(records, earlier), moves.last());
        assert(!(moves[moves.len() - 1].issue().full_repo() == repo && moves[moves.len()
            - 1].issue().number == number));
    }
}

/// Once a task is fully integrated, or waits for a human who has not
/// answered, no run changes its record: the run does not take the task up,
/// and whatever the tasks of its batch do, they leave the record alone.
pub proof fn lemma_settled_stays(
    candidates: Seq<ForgeIssueView>,
    records: Seq<IssueStateView>,
    channels: Seq<(Seq<char>, Seq<EntryView>)>,
    resume: bool,
    filter: Option<Seq<char>>,
    moves: Seq<Move>,
    repo: Seq<char>,
    number: u64,
)
    requires
        distinct_keys(records),
        lookup(records, repo, number) is Some,
        ({
            let status = lookup(records, repo, number).unwrap().status;
            ||| status is Success
            ||| status is NeedsClarification && forall|k: int|
                0 <= k < candidates.len() && (#[trigger] candidates[k]).full_repo() == repo
                    && candidates[k].number == number ==> !is_answered(channels, candidates[k])
        }),
        forall|i: int|
            0 <= i < moves.len() ==> holds_task(
                select(candidates, records, channels, resume, filter),
                (#[trigger] moves[i]).issue(),
            ),
    ensures
        lookup(after_moves(records, moves), repo, number) == lookup(records, repo, number),
{
    let batch = select(candidates, records, channels, resume, filter);
    assert forall|i: int| 0 <= i < moves.len() implies !((#[trigger] moves[i]).issue().full_repo()
        == repo && moves[i].issue().number == number) by {
        if moves[i].issue().full_repo() == repo && moves[i].issue().number == number {
            let k = choose|k: int| 0 <= k < batch.len() && same_task(#[trigger] batch[k], moves[i].issue());
            lemma_batch_leaves_settled(candidates, records, channels, resume, filter, k);
            lemma_batch_from_candidates(candidates, records, channels, resume, filter, k);
        }
    }
    lemma_run_leaves_others(records, moves, repo, number);
}

/// Every task of a batch is one of the candidates.
pub proof fn lemma_batch_from_candidates(
    candidates: Seq<ForgeIssueView>,
    records: Seq<IssueStateView>,
    channels: Seq<(Seq<char>, Seq<EntryView>)>,
    resume: bool,
    filter: Option<Seq<char>>,
    k: int,
)
    requires
        0 <= k < select(candidates, records, channels, resume, filter).len(),
    ensures
        exists|i: int|
            0 <= i < candidates.len() && #[trigger] candidates[i] == select(
                candidates,
                records,
                channels,
                resume,
                filter,
            )[k],
{
    let taken = eligible_tasks(candidates, records, channels, resume);
    lemma_in_repo_subset(taken, filter, k);
    let i = choose|i: int|
        0 <= i < taken.len() && #[trigger] taken[i] == in_repo(taken, filter)[k];
    lemma_taken_from_candidates(candidates, records, channels, resume, i);
}

/// Every task that is taken up is one of the candidates.
pub proof fn lemma_taken_from_candidates(
    candidates: Seq<ForgeIssueView>,
    records: Seq<IssueStateView>,
    channels: Seq<(Seq<char>, Seq<EntryView>)>,
    resume: bool,
    k: int,
)
    requires
        0 <= k < eligible_tasks(candidates, records, channels, resume).len(),
    ensures
        exists|i: int|
            0 <= i < candidates.len() && #[trigger] candidates[i] == eligible_tasks(
                candidates,
                records,
                channels,
                resume,
            )[k],
    decreases candidates.len(),
{
    let rest = eligible_tasks(candidates.drop_last(), records, channels, resume);
    if k < rest.len() {
        lemma_taken_from_candidates(candidates.drop_last(), records, channels, resume, k);
        let i = choose|i: int|
            0 <= i < candidates.drop_last().len() && #[trigger] candidates.drop_last()[i]
                == rest[k];
        assert(candidates[i] == rest[k]);
    } else {
        assert(candidates[candidates.len() - 1] == candidates.last());
    }
}

// ---------------------------------------------------------------------------
// Selecting, as it runs
// ---------------------------------------------------------------------------

/// Whether a non-blank answer lies beside the question of `issue`.
fn answered(channels: &Vec<(String, Clarifications)>, issue: &ForgeIssue) -> (r: bool)
    ensures
        r == is_answered(channels_view(channels@), issue@),
{
    let n = channels.len();
    let mut i: usize = 0;
    while i < n
        invariant
            n == channels@.len(),
            i <= n,
            channel_from(channels_view(channels@), issue@.repo_name, 0) == channel_from(
                channels_view(channels@),
                issue@.repo_name,
                i as int,
            ),
        decreases n - i,
    {
        assert(channels_view(channels@)[i as int] == (channels@[i as int].0@, channels@[i as int].1@));
        if channels[i].0 == issue.repo_name {
            return channels[i].1.check_clarification(issue.number).is_some();
        }
        i = i + 1;
    }
    false
}

/// Whether `batch` holds the task `issue`.
fn holds(batch: &Vec<ForgeIssue>, issue: &ForgeIssue) -> (r: bool)
    ensures
        r == holds_task(batch.deep_view(), issue@),
{
    let repo = issue.full_repo();
    let n = batch.len();
    let mut i: usize = 0;
    while i < n
        invariant
            n == batch@.len(),
            i <= n,
            repo@ == issue@.full_repo(),
            forall|k: int| 0 <= k < i ==> !same_task(#[trigger] batch.deep_view()[k], issue@),
        decreases n - i,
    {
        if batch[i].number == issue.number {
            let other = batch[i].full_repo();
            if other == repo {
                assert(same_task(batch.deep_view()[i as int], issue@));
                return true;
            }
        }
        i = i + 1;
    }
    false
}

/// Whether a run takes up the task `issue`.
fn eligible(
    issue: &ForgeIssue,
    tracker: &StateTracker,
    channels: &Vec<(String, Clarifications)>,
    resume: bool,
) -> (r: bool)
    ensures
        r == is_eligible(
            lookup(tracker@, issue@.full_repo(), issue@.number),
            resume,
            is_answered(channels_view(channels@), issue@),
        ),
{
    let repo = issue.full_repo();
    match tracker.get(repo.as_str(), issue.number) {
        None => true,
        Some(record) => {
            if !record.status.is_terminal() {
                true
            } else if resume && record.status.is_resumable() {
                true
            } else if matches!(record.status, IssueStatus::NeedsClarification) {
                answered(channels, issue)
            } else {
                false
            }
        },
    }
}

/// The batch of a run: the tasks of `candidates` that the run takes up, each
/// once, in the order they come in, and of the repository that `filter`
/// names if it names one.
pub fn select_batch(
    candidates: &Vec<ForgeIssue>,
    tracker: &StateTracker,
    channels: &Vec<(String, Clarifications)>,
    resume: bool,
    filter: Option<&str>,
) -> (batch: Vec<ForgeIssue>)
    ensures
        batch.deep_view() == select(
            candidates.deep_view(),
            tracker@,
            channels_view(channels@),
            resume,
            match filter {
                Some(name) => Some(name@),
                None => None,
            },
        ),
{
    let ghost wanted = match filter {
        Some(name) => Some(name@),
        None => None,
    };
    let mut taken: Vec<ForgeIssue> = Vec::new();
    let n = candidates.len();
    let mut i: usize = 0;
    assert(candidates.deep_view().take(0) == Seq::<ForgeIssueView>::empty());
    assert(taken.deep_view() == Seq::<ForgeIssueView>::empty());
    while i < n
        invariant
            n == candidates@.len(),
            i <= n,
            taken.deep_view() == eligible_tasks(
                candidates.deep_view().take(i as int),
                tracker@,
                channels_view(channels@),
                resume,
            ),
        decreases n - i,
    {
        let ghost before = taken.deep_view();
        assert(candidates.deep_view().take(i + 1).drop_last() == candidates.deep_view().take(
            i as int,
        ));
        assert(candidates.deep_view().take(i + 1).last() == candidates@[i as int]@);
        if eligible(&candidates[i], tracker, channels, resume) && !holds(&taken, &candidates[i]) {
            let issue = candidates[i].clone();
            taken.push(issue);
            assert(taken.deep_view() == before.push(issue@));
        }
        i = i + 1;
    }
    assert(candidates.deep_view().take(n as int) == candidates.deep_view());
    let mut batch: Vec<ForgeIssue> = Vec::new();
    let m = taken.len();
    let mut j: usize = 0;
    assert(taken.deep_view().take(0) == Seq::<ForgeIssueView>::empty());
    assert(batch.deep_view() == Seq::<ForgeIssueView>::empty());
    while j < m
        invariant
            m == taken@.len(),
            j <= m,
            wanted == match filter {
                Some(name) => Some(name@),
                None => None,
            },
            batch.deep_view() == in_repo(taken.deep_view().take(j as int), wanted),
        decreases m - j,
    {
        let ghost before = batch.deep_view();
        assert(taken.deep_view().take(j + 1).drop_last() == taken.deep_view().take(j as int));
        assert(taken.deep_view().take(j + 1).last() == taken@[j as int]@);
        let keep = match filter {
            Some(name) => same_text(taken[j].repo_name.as_str(), name),
            None => true,
        };
        if keep {
            let issue = taken[j].clone();
            batch.push(issue);
            assert(batch.deep_view() == before.push(issue@));
        }
        j = j + 1;
    }
    assert(taken.deep_view().take(m as int) == taken.deep_view());
    batch
}

} // verus!
