//! The state store: one record per task, found by repository and number.

use crate::decimal::{decimal, u64_to_string};
use crate::status::{IssueState, IssueStateView, IssueStatus, Timestamp};
use vstd::prelude::*;

verus! {

/// Whether no two records of `records` belong to the same task.
pub open spec fn distinct_keys(records: Seq<IssueStateView>) -> bool {
    forall|i: int, j: int|
        0 <= i < j < records.len() ==> !(#[trigger] records[i]).has_key(
            (#[trigger] records[j]).repo,
            records[j].number,
        )
}

/// Whether `records` holds a record of task `number` of `repo`.
pub open spec fn has_record(records: Seq<IssueStateView>, repo: Seq<char>, number: u64) -> bool {
    exists|i: int| 0 <= i < records.len() && (#[trigger] records[i]).has_key(repo, number)
}

/// The position of the record of task `number` of `repo`, where there is one.
pub open spec fn position(records: Seq<IssueStateView>, repo: Seq<char>, number: u64) -> int {
    choose|i: int| 0 <= i < records.len() && (#[trigger] records[i]).has_key(repo, number)
}

/// The record of task `number` of `repo`.
pub open spec fn lookup(records: Seq<IssueStateView>, repo: Seq<char>, number: u64) -> Option<
    IssueStateView,
> {
    if has_record(records, repo, number) {
        Some(records[position(records, repo, number)])
    } else {
        None
    }
}

/// `records` with `change` applied to the record of task `number` of `repo`;
/// unchanged where there is no such record.
pub open spec fn amend(
    records: Seq<IssueStateView>,
    repo: Seq<char>,
    number: u64,
    change: spec_fn(IssueStateView) -> IssueStateView,
) -> Seq<IssueStateView> {
    if has_record(records, repo, number) {
        let i = position(records, repo, number);
        records.update(i, change(records[i]))
    } else {
        records
    }
}

/// `records` after the status of a task was set: a task not seen before gets
/// a fresh record first, at the end.
pub open spec fn with_status(
    records: Seq<IssueStateView>,
    repo: Seq<char>,
    number: u64,
    title: Seq<char>,
    status: IssueStatus,
) -> Seq<IssueStateView> {
    if has_record(records, repo, number) {
        amend(records, repo, number, |r: IssueStateView| IssueStateView { status, ..r })
    } else {
        records.push(IssueStateView { status, ..IssueStateView::fresh(repo, number, title) })
    }
}

/// `records` after the branch of a task was noted.
pub open spec fn with_branch(
    records: Seq<IssueStateView>,
    repo: Seq<char>,
    number: u64,
    branch: Seq<char>,
) -> Seq<IssueStateView> {
    amend(records, repo, number, |r: IssueStateView| IssueStateView { branch: Some(branch), ..r })
}

/// `records` after a task was handed over as pull request `pr_number` at `now`.
pub open spec fn with_pr(
    records: Seq<IssueStateView>,
    repo: Seq<char>,
    number: u64,
    pr_number: u64,
    now: Timestamp,
) -> Seq<IssueStateView> {
    amend(
        records,
        repo,
        number,
        |r: IssueStateView|
            IssueStateView {
                pr_number: Some(pr_number),
                status: IssueStatus::PrCreated,
                completed_at: Some(now),
                ..r
            },
    )
}

/// `records` after a task failed at `now` for the reason `error`.
pub open spec fn with_error(
    records: Seq<IssueStateView>,
    repo: Seq<char>,
    number: u64,
    error: Seq<char>,
    now: Timestamp,
) -> Seq<IssueStateView> {
    amend(
        records,
        repo,
        number,
        |r: IssueStateView|
            IssueStateView {
                status: IssueStatus::Error,
                error: Some(error),
                completed_at: Some(now),
                ..r
            },
    )
}

/// `records` after the tests of a task failed at `now`, with what is known of
/// the failure.
pub open spec fn with_test_failure(
    records: Seq<IssueStateView>,
    repo: Seq<char>,
    number: u64,
    reason: Seq<char>,
    now: Timestamp,
) -> Seq<IssueStateView> {
    amend(
        records,
        repo,
        number,
        |r: IssueStateView|
            IssueStateView {
                status: IssueStatus::TestFailure,
                error: Some(reason),
                completed_at: Some(now),
                ..r
            },
    )
}

/// `records` after a task was fully integrated at `now`.
pub open spec fn with_success(
    records: Seq<IssueStateView>,
    repo: Seq<char>,
    number: u64,
    now: Timestamp,
) -> Seq<IssueStateView> {
    amend(
        records,
        repo,
        number,
        |r: IssueStateView|
            IssueStateView { status: IssueStatus::Success, completed_at: Some(now), ..r },
    )
}

/// `records` after a task was put back into the queue: its status is
/// `Pending` and it carries no error.
pub open spec fn with_reset(records: Seq<IssueStateView>, repo: Seq<char>, number: u64) -> Seq<
    IssueStateView,
> {
    amend(
        records,
        repo,
        number,
        |r: IssueStateView| IssueStateView { status: IssueStatus::Pending, error: None, ..r },
    )
}

/// `records` after work on a task began at `now`.
pub open spec fn with_started(
    records: Seq<IssueStateView>,
    repo: Seq<char>,
    number: u64,
    now: Timestamp,
) -> Seq<IssueStateView> {
    amend(records, repo, number, |r: IssueStateView| IssueStateView { started_at: Some(now), ..r })
}

/// Where there are no two records of one task, a record is found at its own
/// position.
pub proof fn lemma_position_unique(records: Seq<IssueStateView>, i: int)
    requires
        distinct_keys(records),
        0 <= i < records.len(),
    ensures
        has_record(records, records[i].repo, records[i].number),
        position(records, records[i].repo, records[i].number) == i,
        lookup(records, records[i].repo, records[i].number) == Some(records[i]),
{
    assert(records[i].has_key(records[i].repo, records[i].number));
    let j = position(records, records[i].repo, records[i].number);
    if j < i {
        assert(!records[j].has_key(records[i].repo, records[i].number));
    } else if i < j {
        assert(!records[i].has_key(records[j].repo, records[j].number));
    }
}

/// Amending a record in a way that keeps its task keeps the records distinct,
/// and touches the record of no other task.
pub proof fn lemma_amend(
    records: Seq<IssueStateView>,
    repo: Seq<char>,
    number: u64,
    change: spec_fn(IssueStateView) -> IssueStateView,
)
    requires
        distinct_keys(records),
        forall|r: IssueStateView| #[trigger] change(r).repo == r.repo && change(r).number == r.number,
    ensures
        distinct_keys(amend(records, repo, number, change)),
        amend(records, repo, number, change).len() == records.len(),
        lookup(amend(records, repo, number, change), repo, number) == match lookup(
            records,
            repo,
            number,
        ) {
            Some(r) => Some(change(r)),
            None => None,
        },
        forall|other: Seq<char>, n: u64|
            !(other == repo && n == number) ==> #[trigger] lookup(
                amend(records, repo, number, change),
                other,
                n,
            ) == lookup(records, other, n),
{
    let after = amend(records, repo, number, change);
    if has_record(records, repo, number) {
        let i = position(records, repo, number);
        assert forall|a: int, b: int| 0 <= a < b < after.len() implies !(#[trigger] after[a]).has_key(
            (#[trigger] after[b]).repo,
            after[b].number,
        ) by {
            assert(!records[a].has_key(records[b].repo, records[b].number));
        }
        assert(after[i].has_key(repo, number));
        lemma_position_unique(after, i);
        assert forall|other: Seq<char>, n: u64| !(other == repo && n == number) implies #[trigger] lookup(
            after,
            other,
            n,
        ) == lookup(records, other, n) by {
            lemma_lookup_same(records, after, other, n);
        }
    } else {
        assert forall|k: int| 0 <= k < after.len() implies !(#[trigger] after[k]).has_key(
            repo,
            number,
        ) by {
            assert(after[k] == records[k]);
        }
    }
}

/// Two lists of records that agree on every record of a task agree on its
/// lookup.
pub proof fn lemma_lookup_same(
    before: Seq<IssueStateView>,
    after: Seq<IssueStateView>,
    repo: Seq<char>,
    number: u64,
)
    requires
        distinct_keys(before),
        distinct_keys(after),
        before.len() <= after.len(),
        forall|k: int|
            0 <= k < before.len() ==> (#[trigger] before[k]).has_key(repo, number) == after[k].has_key(
                repo,
                number,
            ),
        forall|k: int|
            0 <= k < before.len() && (#[trigger] before[k]).has_key(repo, number) ==> before[k]
                == after[k],
        forall|k: int| before.len() <= k < after.len() ==> !(#[trigger] after[k]).has_key(repo, number),
    ensures
        lookup(after, repo, number) == lookup(before, repo, number),
{
    if has_record(before, repo, number) {
        let i = position(before, repo, number);
        assert(after[i].has_key(repo, number));
        lemma_position_unique(before, i);
        lemma_position_unique(after, i);
    } else {
        assert forall|k: int| 0 <= k < after.len() implies !(#[trigger] after[k]).has_key(
            repo,
            number,
        ) by {
            if k < before.len() {
                assert(!before[k].has_key(repo, number));
            }
        }
    }
}

/// Whether `after` has for every task but `number` of `repo` the record that
/// `before` has.
pub open spec fn same_elsewhere(
    before: Seq<IssueStateView>,
    after: Seq<IssueStateView>,
    repo: Seq<char>,
    number: u64,
) -> bool {
    forall|other: Seq<char>, n: u64|
        !(other == repo && n == number) ==> #[trigger] lookup(after, other, n) == lookup(
            before,
            other,
            n,
        )
}

/// Setting the status of a task gives it a record with that status, keeps
/// what else its record held, and touches the record of no other task.
pub proof fn lemma_with_status(
    records: Seq<IssueStateView>,
    repo: Seq<char>,
    number: u64,
    title: Seq<char>,
    status: IssueStatus,
)
    requires
        distinct_keys(records),
    ensures
        distinct_keys(with_status(records, repo, number, title, status)),
        same_elsewhere(records, with_status(records, repo, number, title, status), repo, number),
        lookup(with_status(records, repo, number, title, status), repo, number) == Some(
            match lookup(records, repo, number) {
                Some(r) => IssueStateView { status, ..r },
                None => IssueStateView { status, ..IssueStateView::fresh(repo, number, title) },
            },
        ),
{
    let after = with_status(records, repo, number, title, status);
    if has_record(records, repo, number) {
        lemma_amend(records, repo, number, |r: IssueStateView| IssueStateView { status, ..r });
    } else {
        let added = IssueStateView { status, ..IssueStateView::fresh(repo, number, title) };
        assert(after == records.push(added));
        assert forall|a: int, b: int| 0 <= a < b < after.len() implies !(#[trigger] after[a]).has_key(
            (#[trigger] after[b]).repo,
            after[b].number,
        ) by {
            if b < records.len() {
                assert(!records[a].has_key(records[b].repo, records[b].number));
            } else {
                assert(!records[a].has_key(repo, number));
            }
        }
        assert(after[records.len() as int].has_key(repo, number));
        lemma_position_unique(after, records.len() as int);
        assert forall|other: Seq<char>, n: u64| !(other == repo && n == number) implies #[trigger] lookup(
            after,
            other,
            n,
        ) == lookup(records, other, n) by {
            lemma_lookup_same(records, after, other, n);
        }
    }
}

/// Amending the record of a task in a way that keeps its task touches the
/// record of no other task.
pub proof fn lemma_amend_elsewhere(
    records: Seq<IssueStateView>,
    repo: Seq<char>,
    number: u64,
    change: spec_fn(IssueStateView) -> IssueStateView,
)
    requires
        distinct_keys(records),
        forall|r: IssueStateView| #[trigger] change(r).repo == r.repo && change(r).number == r.number,
    ensures
        distinct_keys(amend(records, repo, number, change)),
        same_elsewhere(records, amend(records, repo, number, change), repo, number),
{
    lemma_amend(records, repo, number, change);
}

/// A change that touches one task only, followed by another such change of
/// the same task, touches that task only.
pub proof fn lemma_same_elsewhere_trans(
    first: Seq<IssueStateView>,
    second: Seq<IssueStateView>,
    third: Seq<IssueStateView>,
    repo: Seq<char>,
    number: u64,
)
    requires
        same_elsewhere(first, second, repo, number),
        same_elsewhere(second, third, repo, number),
    ensures
        same_elsewhere(first, third, repo, number),
{
    assert forall|other: Seq<char>, n: u64| !(other == repo && n == number) implies #[trigger] lookup(
        third,
        other,
        n,
    ) == lookup(first, other, n) by {
        assert(lookup(third, other, n) == lookup(second, other, n));
        assert(lookup(second, other, n) == lookup(first, other, n));
    }
}

/// Putting a task back into the queue leaves it pending and without an
/// error, and doing so once more changes nothing.
pub proof fn lemma_reset_idempotent(records: Seq<IssueStateView>, repo: Seq<char>, number: u64)
    requires
        distinct_keys(records),
    ensures
        with_reset(with_reset(records, repo, number), repo, number) == with_reset(
            records,
            repo,
            number,
        ),
        lookup(with_reset(records, repo, number), repo, number) == match lookup(
            records,
            repo,
            number,
        ) {
            Some(r) => Some(IssueStateView { status: IssueStatus::Pending, error: None, ..r }),
            None => None,
        },
{
    let change = |r: IssueStateView|
        IssueStateView { status: IssueStatus::Pending, error: None, ..r };
    let once = with_reset(records, repo, number);
    lemma_amend(records, repo, number, change);
    if has_record(records, repo, number) {
        let i = position(records, repo, number);
        assert(once[i].has_key(repo, number));
        lemma_position_unique(once, i);
        assert(with_reset(once, repo, number) =~= once);
    } else {
        assert(lookup(once, repo, number) is None);
    }
}

/// The tasks of `records` whose status `want` accepts, oldest record first.
pub open spec fn select_keys(
    records: Seq<IssueStateView>,
    want: spec_fn(IssueStatus) -> bool,
) -> Seq<(Seq<char>, u64)>
    decreases records.len(),
{
    if records.len() == 0 {
        Seq::empty()
    } else {
        let rest = select_keys(records.drop_last(), want);
        if want(records.last().status) {
            rest.push((records.last().repo, records.last().number))
        } else {
            rest
        }
    }
}

/// How many of `records` have a status that `want` accepts.
pub open spec fn count_where(
    records: Seq<IssueStateView>,
    want: spec_fn(IssueStatus) -> bool,
) -> nat
    decreases records.len(),
{
    if records.len() == 0 {
        0
    } else {
        count_where(records.drop_last(), want) + if want(records.last().status) {
            1nat
        } else {
            0nat
        }
    }
}

/// No more records are counted than there are.
pub proof fn lemma_count_bounded(records: Seq<IssueStateView>, want: spec_fn(IssueStatus) -> bool)
    ensures
        count_where(records, want) <= records.len(),
    decreases records.len(),
{
    if records.len() > 0 {
        lemma_count_bounded(records.drop_last(), want);
    }
}

/// `records` without those whose task an earlier record already has.
pub open spec fn keep_first(records: Seq<IssueStateView>) -> Seq<IssueStateView>
    decreases records.len(),
{
    if records.len() == 0 {
        Seq::empty()
    } else {
        let rest = keep_first(records.drop_last());
        if has_record(rest, records.last().repo, records.last().number) {
            rest
        } else {
            rest.push(records.last())
        }
    }
}

/// The statuses that count as in progress.
pub open spec fn is_in_progress(status: IssueStatus) -> bool {
    status is Triaging || status is Executing
}

/// The statuses that count as completed.
pub open spec fn is_completed(status: IssueStatus) -> bool {
    status is Success || status is PrCreated
}

/// The statuses that count as skipped.
pub open spec fn is_skipped(status: IssueStatus) -> bool {
    status is Skipped || status is NeedsClarification
}

/// The statuses that count as failed.
pub open spec fn is_failed(status: IssueStatus) -> bool {
    status is TestFailure || status is Error
}

/// How many tasks stand in each group of statuses.
#[derive(Debug)]
pub struct StateSummary {
    pub pending: usize,
    pub in_progress: usize,
    pub completed: usize,
    pub skipped: usize,
    pub failed: usize,
}

impl Default for StateSummary {
    fn default() -> (r: Self)
        ensures
            r.pending == 0,
            r.in_progress == 0,
            r.completed == 0,
            r.skipped == 0,
            r.failed == 0,
    {
        StateSummary { pending: 0, in_progress: 0, completed: 0, skipped: 0, failed: 0 }
    }
}

impl StateSummary {
    /// The one-line form of the summary.
    pub open spec fn spec_to_text(&self) -> Seq<char> {
        "pending="@ + decimal(self.pending as nat) + ", in_progress="@ + decimal(
            self.in_progress as nat,
        ) + ", completed="@ + decimal(self.completed as nat) + ", skipped="@ + decimal(
            self.skipped as nat,
        ) + ", failed="@ + decimal(self.failed as nat)
    }

    /// The one-line form of the summary.
    pub fn to_text(&self) -> (r: String)
        ensures
            r@ == self.spec_to_text(),
    {
        let mut out = String::from_str("pending=");
        out.append(u64_to_string(self.pending as u64).as_str());
        out.append(", in_progress=");
        out.append(u64_to_string(self.in_progress as u64).as_str());
        out.append(", completed=");
        out.append(u64_to_string(self.completed as u64).as_str());
        out.append(", skipped=");
        out.append(u64_to_string(self.skipped as u64).as_str());
        out.append(", failed=");
        out.append(u64_to_string(self.failed as u64).as_str());
        out
    }
}

/// The state store. It never holds two records of one task.
pub struct StateTracker {
    records: Vec<IssueState>,
}

impl View for StateTracker {
    type V = Seq<IssueStateView>;

    /// The records, oldest first.
    closed spec fn view(&self) -> Seq<IssueStateView> {
        self.records.deep_view()
    }
}

impl StateTracker {
    #[verifier::type_invariant]
    spec fn distinct(&self) -> bool {
        distinct_keys(self.records.deep_view())
    }

    /// A store without records.
    pub fn new() -> (t: Self)
        ensures
            t@ == Seq::<IssueStateView>::empty(),
    {
        let records: Vec<IssueState> = Vec::new();
        assert(records.deep_view() == Seq::<IssueStateView>::empty());
        StateTracker { records }
    }

    /// Takes the records out, leaving none behind.
    fn take_records(&mut self) -> (records: Vec<IssueState>)
        ensures
            records.deep_view() == old(self)@,
            distinct_keys(records.deep_view()),
            final(self)@ == Seq::<IssueStateView>::empty(),
    {
        proof {
            use_type_invariant(&*self);
        }
        let mut records: Vec<IssueState> = Vec::new();
        assert(records.deep_view() == Seq::<IssueStateView>::empty());
        std::mem::swap(&mut self.records, &mut records);
        records
    }

    /// Puts `records` in the place of the present ones.
    fn put_records(&mut self, records: Vec<IssueState>)
        requires
            distinct_keys(records.deep_view()),
        ensures
            final(self)@ == records.deep_view(),
    {
        let mut records = records;
        std::mem::swap(&mut self.records, &mut records);
    }

    /// The position of the record of task `number` of `repo`.
    fn find(&self, repo: &str, number: u64) -> (r: Option<usize>)
        ensures
            distinct_keys(self@),
            match r {
                Some(i) => i < self@.len() && self@[i as int].has_key(repo@, number) && has_record(
                    self@,
                    repo@,
                    number,
                ) && position(self@, repo@, number) == i,
                None => !has_record(self@, repo@, number),
            },
    {
        proof {
            use_type_invariant(self);
        }
        let wanted = String::from_str(repo);
        let n = self.records.len();
        let mut i: usize = 0;
        while i < n
            invariant
                n == self.records@.len(),
                i <= n,
                wanted@ == repo@,
                distinct_keys(self@),
                forall|k: int| 0 <= k < i ==> !(#[trigger] self@[k]).has_key(repo@, number),
            decreases n - i,
        {
            if self.records[i].number == number && self.records[i].repo == wanted {
                proof {
                    lemma_position_unique(self@, i as int);
                }
                return Some(i);
            }
            i = i + 1;
        }
        None
    }

    /// The record of task `number` of `repo`.
    pub fn get(&self, repo: &str, number: u64) -> (r: Option<&IssueState>)
        ensures
            r.deep_view() == lookup(self@, repo@, number),
    {
        match self.find(repo, number) {
            Some(i) => Some(&self.records[i]),
            None => None,
        }
    }

    /// Sets the status of a task; a task not seen before gets a record first.
    pub fn set_status(&mut self, repo: &str, number: u64, title: &str, status: IssueStatus)
        ensures
            final(self)@ == with_status(old(self)@, repo@, number, title@, status),
    {
        match self.find(repo, number) {
            Some(i) => {
                let ghost before = self@;
                let mut records = self.take_records();
                let mut record = records[i].clone();
                record.status = status;
                proof {
                    lemma_amend(
                        before,
                        repo@,
                        number,
                        |r: IssueStateView| IssueStateView { status, ..r },
                    );
                }
                records.set(i, record);
                assert(records.deep_view() == before.update(i as int, record@));
                self.put_records(records);
            },
            None => {
                let record = IssueState {
                    repo: String::from_str(repo),
                    number,
                    title: String::from_str(title),
                    status,
                    branch: None,
                    pr_number: None,
                    started_at: None,
                    completed_at: None,
                    error: None,
                };
                let ghost before = self@;
                let mut records = self.take_records();
                records.push(record);
                assert(records.deep_view() == before.push(record@));
                self.put_records(records);
            },
        }
    }

    /// Puts `record` in the place of the record at position `i`, which
    /// belongs to the same task.
    fn replace(&mut self, i: usize, record: IssueState)
        requires
            i < old(self)@.len(),
            record@.repo == old(self)@[i as int].repo,
            record@.number == old(self)@[i as int].number,
        ensures
            final(self)@ == old(self)@.update(i as int, record@),
    {
        let ghost before = self@;
        let mut records = self.take_records();
        records.set(i, record);
        assert(records.deep_view() == before.update(i as int, record@));
        assert forall|a: int, b: int| 0 <= a < b < before.len() implies !(#[trigger] before.update(
            i as int,
            record@,
        )[a]).has_key((#[trigger] before.update(i as int, record@)[b]).repo, before.update(
            i as int,
            record@,
        )[b].number) by {
            assert(!before[a].has_key(before[b].repo, before[b].number));
        }
        self.put_records(records);
    }

    /// Notes the branch of a task. Nothing changes where the task has no record.
    pub fn set_branch(&mut self, repo: &str, number: u64, branch: &str)
        ensures
            final(self)@ == with_branch(old(self)@, repo@, number, branch@),
    {
        if let Some(i) = self.find(repo, number) {
            let mut record = self.records[i].clone();
            record.branch = Some(String::from_str(branch));
            self.replace(i, record);
        }
    }

    /// Notes at `now` that a task was handed over as pull request `pr_number`.
    /// Nothing changes where the task has no record.
    pub fn set_pr_at(&mut self, repo: &str, number: u64, pr_number: u64, now: Timestamp)
        ensures
            final(self)@ == with_pr(old(self)@, repo@, number, pr_number, now),
    {
        if let Some(i) = self.find(repo, number) {
            let mut record = self.records[i].clone();
            record.pr_number = Some(pr_number);
            record.status = IssueStatus::PrCreated;
            record.completed_at = Some(now);
            self.replace(i, record);
        }
    }

    /// Notes that a task was handed over as pull request `pr_number`, at the
    /// time of the call.
    pub fn set_pr(&mut self, repo: &str, number: u64, pr_number: u64)
        ensures
            exists|now: Timestamp|
                final(self)@ == with_pr(old(self)@, repo@, number, pr_number, now),
    {
        let now = current_time();
        self.set_pr_at(repo, number, pr_number, now);
    }

    /// Notes at `now` that a task failed for the reason `error`. Nothing
    /// changes where the task has no record.
    pub fn set_error_at(&mut self, repo: &str, number: u64, error: &str, now: Timestamp)
        ensures
            final(self)@ == with_error(old(self)@, repo@, number, error@, now),
    {
        if let Some(i) = self.find(repo, number) {
            let mut record = self.records[i].clone();
            record.status = IssueStatus::Error;
            record.error = Some(String::from_str(error));
            record.completed_at = Some(now);
            self.replace(i, record);
        }
    }

    /// Notes at `now` that the tests of a task failed, with what is known of
    /// the failure. Nothing changes where the task has no record.
    pub fn set_test_failure_at(&mut self, repo: &str, number: u64, reason: &str, now: Timestamp)
        ensures
            final(self)@ == with_test_failure(old(self)@, repo@, number, reason@, now),
    {
        if let Some(i) = self.find(repo, number) {
            let mut record = self.records[i].clone();
            record.status = IssueStatus::TestFailure;
            record.error = Some(String::from_str(reason));
            record.completed_at = Some(now);
            self.replace(i, record);
        }
    }

    /// Notes at `now` that a task was fully integrated. Nothing changes where
    /// the task has no record.
    pub fn set_success_at(&mut self, repo: &str, number: u64, now: Timestamp)
        ensures
            final(self)@ == with_success(old(self)@, repo@, number, now),
    {
        if let Some(i) = self.find(repo, number) {
            let mut record = self.records[i].clone();
            record.status = IssueStatus::Success;
            record.completed_at = Some(now);
            self.replace(i, record);
        }
    }

    /// Notes that a task failed for the reason `error`, at the time of the call.
    pub fn set_error(&mut self, repo: &str, number: u64, error: &str)
        ensures
            exists|now: Timestamp|
                final(self)@ == with_error(old(self)@, repo@, number, error@, now),
    {
        let now = current_time();
        self.set_error_at(repo, number, error, now);
    }

    /// Puts a task back into the queue and clears its error. Nothing changes
    /// where the task has no record.
    pub fn reset_to_pending(&mut self, repo: &str, number: u64)
        ensures
            final(self)@ == with_reset(old(self)@, repo@, number),
    {
        if let Some(i) = self.find(repo, number) {
            let mut record = self.records[i].clone();
            record.status = IssueStatus::Pending;
            record.error = None;
            self.replace(i, record);
        }
    }

    /// Notes that work on a task began at `now`. Nothing changes where the
    /// task has no record.
    pub fn set_started_at(&mut self, repo: &str, number: u64, now: Timestamp)
        ensures
            final(self)@ == with_started(old(self)@, repo@, number, now),
    {
        if let Some(i) = self.find(repo, number) {
            let mut record = self.records[i].clone();
            record.started_at = Some(now);
            self.replace(i, record);
        }
    }

    /// Notes that work on a task began, at the time of the call.
    pub fn set_started(&mut self, repo: &str, number: u64)
        ensures
            exists|now: Timestamp| final(self)@ == with_started(old(self)@, repo@, number, now),
    {
        let now = current_time();
        self.set_started_at(repo, number, now);
    }

    /// Whether a task was handed over or skipped.
    pub fn is_processed(&self, repo: &str, number: u64) -> (r: bool)
        ensures
            r == match lookup(self@, repo@, number) {
                Some(record) => record.status is PrCreated || record.status is Skipped,
                None => false,
            },
    {
        match self.get(repo, number) {
            Some(record) => matches!(record.status, IssueStatus::PrCreated | IssueStatus::Skipped),
            None => false,
        }
    }

    /// Whether a task has a record with a terminal status.
    pub fn is_terminal(&self, repo: &str, number: u64) -> (r: bool)
        ensures
            r == match lookup(self@, repo@, number) {
                Some(record) => record.status.is_terminal(),
                None => false,
            },
    {
        match self.get(repo, number) {
            Some(record) => record.status.is_terminal(),
            None => false,
        }
    }

    /// Whether a task has a record with a resumable status.
    pub fn is_resumable(&self, repo: &str, number: u64) -> (r: bool)
        ensures
            r == match lookup(self@, repo@, number) {
                Some(record) => record.status.is_resumable(),
                None => false,
            },
    {
        match self.get(repo, number) {
            Some(record) => record.status.is_resumable(),
            None => false,
        }
    }

    /// The tasks that a resume sweep picks up again, oldest record first.
    pub fn resumable_issues(&self) -> (r: Vec<(String, u64)>)
        ensures
            r.deep_view() == select_keys(self@, |s: IssueStatus| s.is_resumable()),
    {
        let ghost want = |s: IssueStatus| s.is_resumable();
        let mut out: Vec<(String, u64)> = Vec::new();
        let n = self.records.len();
        let mut i: usize = 0;
        assert(self@.take(0) == Seq::<IssueStateView>::empty());
        assert(out.deep_view() == Seq::<(Seq<char>, u64)>::empty());
        while i < n
            invariant
                n == self.records@.len(),
                i <= n,
                want == |s: IssueStatus| s.is_resumable(),
                out.deep_view() == select_keys(self@.take(i as int), want),
            decreases n - i,
        {
            let ghost before = out.deep_view();
            assert(self@.take(i + 1).drop_last() == self@.take(i as int));
            assert(self@.take(i + 1).last() == self.records@[i as int]@);
            if self.records[i].status.is_resumable() {
                let key = (self.records[i].repo.clone(), self.records[i].number);
                out.push(key);
                assert(out.deep_view() == before.push((key.0@, key.1)));
            }
            i = i + 1;
        }
        assert(self@.take(n as int) == self@);
        out
    }

    /// The tasks that wait for an answer, oldest record first.
    pub fn needs_clarification_issues(&self) -> (r: Vec<(String, u64)>)
        ensures
            r.deep_view() == select_keys(self@, |s: IssueStatus| s is NeedsClarification),
    {
        let ghost want = |s: IssueStatus| s is NeedsClarification;
        let mut out: Vec<(String, u64)> = Vec::new();
        let n = self.records.len();
        let mut i: usize = 0;
        assert(self@.take(0) == Seq::<IssueStateView>::empty());
        assert(out.deep_view() == Seq::<(Seq<char>, u64)>::empty());
        while i < n
            invariant
                n == self.records@.len(),
                i <= n,
                want == |s: IssueStatus| s is NeedsClarification,
                out.deep_view() == select_keys(self@.take(i as int), want),
            decreases n - i,
        {
            let ghost before = out.deep_view();
            assert(self@.take(i + 1).drop_last() == self@.take(i as int));
            assert(self@.take(i + 1).last() == self.records@[i as int]@);
            if matches!(self.records[i].status, IssueStatus::NeedsClarification) {
                let key = (self.records[i].repo.clone(), self.records[i].number);
                out.push(key);
                assert(out.deep_view() == before.push((key.0@, key.1)));
            }
            i = i + 1;
        }
        assert(self@.take(n as int) == self@);
        out
    }

    /// How many tasks stand in each group of statuses.
    pub fn summary(&self) -> (r: StateSummary)
        ensures
            r.pending == count_where(self@, |s: IssueStatus| s is Pending),
            r.in_progress == count_where(self@, |s: IssueStatus| is_in_progress(s)),
            r.completed == count_where(self@, |s: IssueStatus| is_completed(s)),
            r.skipped == count_where(self@, |s: IssueStatus| is_skipped(s)),
            r.failed == count_where(self@, |s: IssueStatus| is_failed(s)),
    {
        let ghost p = |s: IssueStatus| s is Pending;
        let ghost a = |s: IssueStatus| is_in_progress(s);
        let ghost c = |s: IssueStatus| is_completed(s);
        let ghost k = |s: IssueStatus| is_skipped(s);
        let ghost f = |s: IssueStatus| is_failed(s);
        let mut summary = StateSummary::default();
        let n = self.records.len();
        let mut i: usize = 0;
        assert(self@.take(0) == Seq::<IssueStateView>::empty());
        while i < n
            invariant
                n == self.records@.len(),
                i <= n,
                p == |s: IssueStatus| s is Pending,
                a == |s: IssueStatus| is_in_progress(s),
                c == |s: IssueStatus| is_completed(s),
                k == |s: IssueStatus| is_skipped(s),
                f == |s: IssueStatus| is_failed(s),
                summary.pending == count_where(self@.take(i as int), p),
                summary.in_progress == count_where(self@.take(i as int), a),
                summary.completed == count_where(self@.take(i as int), c),
                summary.skipped == count_where(self@.take(i as int), k),
                summary.failed == count_where(self@.take(i as int), f),
            decreases n - i,
        {
            assert(self@.take(i + 1).drop_last() == self@.take(i as int));
            assert(self@.take(i + 1).last() == self.records@[i as int]@);
            proof {
                lemma_count_bounded(self@.take(i as int), p);
                lemma_count_bounded(self@.take(i as int), a);
                lemma_count_bounded(self@.take(i as int), c);
                lemma_count_bounded(self@.take(i as int), k);
                lemma_count_bounded(self@.take(i as int), f);
            }
            match self.records[i].status {
                IssueStatus::Pending => {
                    summary.pending = summary.pending + 1;
                },
                IssueStatus::Triaging | IssueStatus::Executing => {
                    summary.in_progress = summary.in_progress + 1;
                },
                IssueStatus::Success | IssueStatus::PrCreated => {
                    summary.completed = summary.completed + 1;
                },
                IssueStatus::Skipped | IssueStatus::NeedsClarification => {
                    summary.skipped = summary.skipped + 1;
                },
                IssueStatus::TestFailure | IssueStatus::Error => {
                    summary.failed = summary.failed + 1;
                },
            }
            i = i + 1;
        }
        assert(self@.take(n as int) == self@);
        summary
    }

    /// All records, oldest first.
    pub fn all_issues(&self) -> (r: &Vec<IssueState>)
        ensures
            r.deep_view() == self@,
            distinct_keys(self@),
    {
        proof {
            use_type_invariant(self);
        }
        &self.records
    }

    /// A store of `records`, taken in order; a record whose task an earlier
    /// one already has is left out.
    pub fn from_records(records: Vec<IssueState>) -> (t: Self)
        ensures
            t@ == keep_first(records.deep_view()),
    {
        let mut tracker = StateTracker::new();
        let n = records.len();
        let mut i: usize = 0;
        assert(records.deep_view().take(0) == Seq::<IssueStateView>::empty());
        while i < n
            invariant
                n == records@.len(),
                i <= n,
                tracker@ == keep_first(records.deep_view().take(i as int)),
            decreases n - i,
        {
            assert(records.deep_view().take(i + 1).drop_last() == records.deep_view().take(
                i as int,
            ));
            assert(records.deep_view().take(i + 1).last() == records@[i as int]@);
            if tracker.find(records[i].repo.as_str(), records[i].number).is_none() {
                let ghost before = tracker@;
                let record = records[i].clone();
                let mut kept = tracker.take_records();
                kept.push(record);
                assert(kept.deep_view() == before.push(record@));
                tracker.put_records(kept);
            }
            i = i + 1;
        }
        assert(records.deep_view().take(n as int) == records.deep_view());
        tracker
    }
}

/// Reads the clock through `chrono::Utc::now`. Trusted: chrono builds the
/// value from whole seconds and the nanoseconds of a fraction of a second,
/// so the nanoseconds stay below one second. Nothing else is known of the
/// time. Where the clock stands before the year 1970, chrono does not answer
/// at all.
#[verifier::external_body]
pub(crate) fn current_time() -> (now: Timestamp)
    ensures
        now.nanos < 1_000_000_000,
{
    let now = chrono::Utc::now();
    Timestamp { secs: now.timestamp(), nanos: now.timestamp_subsec_nanos() }
}

} // verus!
