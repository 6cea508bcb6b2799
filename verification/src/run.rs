//! One run over a batch: which task may do what next, so that no task is in
//! two hands at once and the agent is never invoked more often at a time
//! than the slots allow.
//!
//! A run holds the stage machine of each task of its batch. Its caller asks
//! for the next action, performs it, and hands the event back; it may do so
//! from as many workers as it likes.

use crate::batch::{lemma_move_elsewhere, Move};
use crate::pipeline::{
    agrees, lemma_start_agrees, lemma_step_agrees, lemma_step_elsewhere, spec_start, Action, Event,
    EventView, Pipeline, PipelineView,
};
use crate::status::{IssueStateView, Timestamp};
use crate::task::{ForgeIssue, ForgeIssueView};
use crate::tracker::{distinct_keys, lookup, same_elsewhere, StateTracker};
use vstd::prelude::*;

verus! {

/// The mathematical content of the place of one task in a run.
pub struct SlotView {
    /// The stage machine of the task.
    pub machine: PipelineView,
    /// The action that waits to be handed out.
    pub next: Option<Action>,
    /// Whether an action was handed out and its event is still awaited.
    pub busy: bool,
    /// Whether the action that was handed out holds one of the slots of the
    /// agent.
    pub permit: bool,
}

impl SlotView {
    /// Whether the task is through for this run: nothing waits to be handed
    /// out, and nothing is awaited.
    pub open spec fn at_rest(self) -> bool {
        !self.busy && self.next is None
    }

    /// Whether the next action of the task can be handed out, given whether
    /// a slot of the agent is free.
    pub open spec fn ready(self, free: bool) -> bool {
        !self.busy && self.next is Some && (free || !self.next.unwrap().needs_permit())
    }

    /// Whether the place is in order: only an action that was handed out
    /// holds a slot of the agent, while it is awaited nothing else waits,
    /// and what waits is an action that asks for something.
    pub open spec fn sound(self) -> bool {
        &&& self.permit ==> self.busy
        &&& self.busy ==> self.next is None
        &&& self.next matches Some(action) ==> follow_up(action) == Some(action)
    }
}

/// The mathematical content of a [`Run`].
pub struct RunView {
    pub slots: Seq<SlotView>,
    pub capacity: nat,
}

/// How many of `slots` hold a slot of the agent.
pub open spec fn permits_held(slots: Seq<SlotView>) -> nat
    decreases slots.len(),
{
    if slots.len() == 0 {
        0
    } else {
        permits_held(slots.drop_last()) + if slots.last().permit {
            1nat
        } else {
            0nat
        }
    }
}

/// The position of the first of `slots` from `from` on whose next action can
/// be handed out.
pub open spec fn first_ready(slots: Seq<SlotView>, free: bool, from: int) -> Option<int>
    decreases slots.len() - from,
{
    if from < 0 || from >= slots.len() {
        None
    } else if slots[from].ready(free) {
        Some(from)
    } else {
        first_ready(slots, free, from + 1)
    }
}

/// What follows for the run on the action with which a machine answered:
/// an action that asks for nothing more leaves nothing to hand out.
pub open spec fn follow_up(action: Action) -> Option<Action> {
    if action is Finish || action is AskHuman || action is Idle {
        None
    } else {
        Some(action)
    }
}

impl RunView {
    /// Whether the run is in order: every place is, and no more slots of the
    /// agent are held than there are.
    pub open spec fn sound(self) -> bool {
        &&& permits_held(self.slots) <= self.capacity
        &&& forall|i: int| 0 <= i < self.slots.len() ==> (#[trigger] self.slots[i]).sound()
    }

    /// Whether a slot of the agent is free.
    pub open spec fn free(self) -> bool {
        permits_held(self.slots) < self.capacity
    }

    /// Whether every task is through.
    pub open spec fn finished(self) -> bool {
        forall|i: int| 0 <= i < self.slots.len() ==> (#[trigger] self.slots[i]).at_rest()
    }

    /// The run after the next action was asked for, and what is handed out:
    /// the waiting action of the first task that is in no hand and whose
    /// action needs no slot of the agent or finds one free. The task is in
    /// the hand of the caller from then on.
    pub open spec fn next(self) -> (RunView, Option<(int, Action)>) {
        match first_ready(self.slots, self.free(), 0) {
            None => (self, None),
            Some(i) => {
                let action = self.slots[i].next.unwrap();
                (
                    RunView {
                        slots: self.slots.update(
                            i,
                            SlotView {
                                next: None,
                                busy: true,
                                permit: action.needs_permit(),
                                ..self.slots[i]
                            },
                        ),
                        ..self
                    },
                    Some((i, action)),
                )
            },
        }
    }

    /// The run and the records after the event of the action of task `i` was
    /// handed back, and the action with which its machine answers. The
    /// machine takes its step, the task leaves the hand of the caller and
    /// gives its slot of the agent back, and the answer waits to be handed
    /// out unless it asks for nothing more. An event for a task that is in
    /// no hand changes nothing.
    pub open spec fn complete(
        self,
        i: int,
        event: EventView,
        records: Seq<IssueStateView>,
        now: Timestamp,
    ) -> (RunView, Action, Seq<IssueStateView>) {
        if 0 <= i < self.slots.len() && self.slots[i].busy {
            let (machine, action, after) = self.slots[i].machine.step(event, records, now);
            (
                RunView {
                    slots: self.slots.update(
                        i,
                        SlotView { machine, next: follow_up(action), busy: false, permit: false },
                    ),
                    ..self
                },
                action,
                after,
            )
        } else {
            (self, Action::Idle, records)
        }
    }
}

/// Replacing one place changes the number of held slots by what that place
/// holds before and after.
pub proof fn lemma_permits_update(slots: Seq<SlotView>, i: int, slot: SlotView)
    requires
        0 <= i < slots.len(),
    ensures
        permits_held(slots.update(i, slot)) + (if slots[i].permit {
            1nat
        } else {
            0nat
        }) == permits_held(slots) + (if slot.permit {
            1nat
        } else {
            0nat
        }),
    decreases slots.len(),
{
    let after = slots.update(i, slot);
    if i == slots.len() - 1 {
        assert(after.drop_last() =~= slots.drop_last());
    } else {
        assert(after.drop_last() =~= slots.drop_last().update(i, slot));
        lemma_permits_update(slots.drop_last(), i, slot);
    }
}

/// What `first_ready` finds is ready, and nothing before it is.
pub proof fn lemma_first_ready(slots: Seq<SlotView>, free: bool, from: int)
    requires
        0 <= from,
    ensures
        match first_ready(slots, free, from) {
            Some(i) => from <= i < slots.len() && slots[i].ready(free) && forall|k: int|
                from <= k < i ==> !(#[trigger] slots[k]).ready(free),
            None => forall|k: int| from <= k < slots.len() ==> !(#[trigger] slots[k]).ready(free),
        },
    decreases slots.len() - from,
{
    if from < slots.len() && !slots[from].ready(free) {
        lemma_first_ready(slots, free, from + 1);
    }
}

/// Asking for the next action keeps the run in order: never are more slots
/// of the agent held than there are, and a task that is in a hand is not
/// handed out again.
pub proof fn lemma_next_sound(run: RunView)
    requires
        run.sound(),
    ensures
        run.next().0.sound(),
        run.next().0.capacity == run.capacity,
        run.next().0.slots.len() == run.slots.len(),
        match run.next().1 {
            Some((i, action)) => {
                &&& 0 <= i < run.slots.len()
                &&& !run.slots[i].busy
                &&& run.slots[i].next == Some(action)
                &&& run.next().0.slots[i].busy
                &&& action.needs_permit() ==> run.free()
                &&& !(action is Finish) && !(action is AskHuman) && !(action is Idle)
            },
            None => run.next().0 == run,
        },
{
    lemma_first_ready(run.slots, run.free(), 0);
    if let Some(i) = first_ready(run.slots, run.free(), 0) {
        let action = run.slots[i].next.unwrap();
        let slot = SlotView {
            next: None,
            busy: true,
            permit: action.needs_permit(),
            ..run.slots[i]
        };
        lemma_permits_update(run.slots, i, slot);
        assert(run.slots[i].sound());
        let after = run.next().0;
        assert forall|k: int| 0 <= k < after.slots.len() implies (#[trigger] after.slots[k]).sound() by {
            if k != i {
                assert(run.slots[k].sound());
            }
        }
    }
}

/// Handing an event back keeps the run in order, and frees the slot of the
/// agent that the task held.
pub proof fn lemma_complete_sound(
    run: RunView,
    i: int,
    event: EventView,
    records: Seq<IssueStateView>,
    now: Timestamp,
)
    requires
        run.sound(),
    ensures
        run.complete(i, event, records, now).0.sound(),
        run.complete(i, event, records, now).0.capacity == run.capacity,
        run.complete(i, event, records, now).0.slots.len() == run.slots.len(),
        permits_held(run.complete(i, event, records, now).0.slots) <= permits_held(run.slots),
{
    if 0 <= i < run.slots.len() && run.slots[i].busy {
        let (machine, action, after) = run.slots[i].machine.step(event, records, now);
        let slot = SlotView { machine, next: follow_up(action), busy: false, permit: false };
        lemma_permits_update(run.slots, i, slot);
        let done = run.complete(i, event, records, now).0;
        assert forall|k: int| 0 <= k < done.slots.len() implies (#[trigger] done.slots[k]).sound() by {
            if k != i {
                assert(run.slots[k].sound());
            }
        }
    }
}

/// Whether no two of `slots` belong to the same task.
pub open spec fn distinct_tasks(slots: Seq<SlotView>) -> bool {
    forall|i: int, j: int|
        0 <= i < j < slots.len() ==> !((#[trigger] slots[i]).machine.issue.full_repo() == (
        #[trigger] slots[j]).machine.issue.full_repo() && slots[i].machine.issue.number
            == slots[j].machine.issue.number)
}

/// Whether the state store agrees with the machine of every task of the run.
pub open spec fn all_agree(slots: Seq<SlotView>, records: Seq<IssueStateView>) -> bool {
    forall|i: int| 0 <= i < slots.len() ==> agrees((#[trigger] slots[i]).machine, records)
}

/// Handing out an action changes no machine: the state store agrees as before.
pub proof fn lemma_next_agrees(run: RunView, records: Seq<IssueStateView>)
    requires
        distinct_tasks(run.slots),
        all_agree(run.slots, records),
    ensures
        distinct_tasks(run.next().0.slots),
        all_agree(run.next().0.slots, records),
{
    lemma_first_ready(run.slots, run.free(), 0);
    let after = run.next().0.slots;
    assert forall|i: int| 0 <= i < after.len() implies (#[trigger] after[i]).machine
        == run.slots[i].machine by {}
    assert forall|i: int| 0 <= i < after.len() implies agrees(
        (#[trigger] after[i]).machine,
        records,
    ) by {
        assert(agrees(run.slots[i].machine, records));
    }
    assert forall|i: int, j: int| 0 <= i < j < after.len() implies !((
    #[trigger] after[i]).machine.issue.full_repo() == (#[trigger] after[j]).machine.issue.full_repo()
        && after[i].machine.issue.number == after[j].machine.issue.number) by {
        assert(!(run.slots[i].machine.issue.full_repo() == run.slots[j].machine.issue.full_repo()
            && run.slots[i].machine.issue.number == run.slots[j].machine.issue.number));
    }
}

/// Whatever event is handed back, the state store agrees afterwards with the
/// machine of every task of the run: each change of a status is entered
/// with the step that makes it, and the step of one task touches the record
/// of no other. So a run that stops at any moment leaves every task either
/// at rest with a terminal status or found again as triaging or executing.
pub proof fn lemma_complete_agrees(
    run: RunView,
    i: int,
    event: EventView,
    records: Seq<IssueStateView>,
    now: Timestamp,
)
    requires
        distinct_keys(records),
        distinct_tasks(run.slots),
        all_agree(run.slots, records),
    ensures
        distinct_keys(run.complete(i, event, records, now).2),
        distinct_tasks(run.complete(i, event, records, now).0.slots),
        all_agree(
            run.complete(i, event, records, now).0.slots,
            run.complete(i, event, records, now).2,
        ),
{
    if 0 <= i < run.slots.len() && run.slots[i].busy {
        let mine = run.slots[i].machine;
        let (done, action, after) = run.complete(i, event, records, now);
        lemma_step_elsewhere(mine, event, records, now);
        lemma_step_agrees(mine, event, records, now);
        assert(agrees(mine, records));
        assert forall|k: int| 0 <= k < done.slots.len() implies (
        #[trigger] done.slots[k]).machine.issue == run.slots[k].machine.issue by {}
        assert forall|a: int, b: int| 0 <= a < b < done.slots.len() implies !((
        #[trigger] done.slots[a]).machine.issue.full_repo() == (
        #[trigger] done.slots[b]).machine.issue.full_repo() && done.slots[a].machine.issue.number
            == done.slots[b].machine.issue.number) by {
            assert(!(run.slots[a].machine.issue.full_repo()
                == run.slots[b].machine.issue.full_repo() && run.slots[a].machine.issue.number
                == run.slots[b].machine.issue.number));
        }
        assert forall|k: int| 0 <= k < done.slots.len() implies agrees(
            (#[trigger] done.slots[k]).machine,
            after,
        ) by {
            if k != i {
                let other = run.slots[k].machine;
                assert(done.slots[k] == run.slots[k]);
                assert(agrees(other, records));
                if k < i {
                    assert(!(run.slots[k].machine.issue.full_repo()
                        == run.slots[i].machine.issue.full_repo()
                        && run.slots[k].machine.issue.number == run.slots[i].machine.issue.number));
                } else {
                    assert(!(run.slots[i].machine.issue.full_repo()
                        == run.slots[k].machine.issue.full_repo()
                        && run.slots[i].machine.issue.number == run.slots[k].machine.issue.number));
                }
                assert(lookup(after, other.issue.full_repo(), other.issue.number) == lookup(
                    records,
                    other.issue.full_repo(),
                    other.issue.number,
                ));
            }
        }
    }
}

/// The place of one task in a run.
#[derive(Debug)]
struct Slot {
    machine: Pipeline,
    next: Option<Action>,
    busy: bool,
    permit: bool,
}

impl View for Slot {
    type V = SlotView;

    closed spec fn view(&self) -> SlotView {
        SlotView { machine: self.machine@, next: self.next, busy: self.busy, permit: self.permit }
    }
}

impl DeepView for Slot {
    type V = SlotView;

    closed spec fn deep_view(&self) -> SlotView {
        self@
    }
}

/// One run over a batch.
#[derive(Debug)]
pub struct Run {
    slots: Vec<Slot>,
    capacity: usize,
}

impl View for Run {
    type V = RunView;

    closed spec fn view(&self) -> RunView {
        RunView { slots: self.slots.deep_view(), capacity: self.capacity as nat }
    }
}

/// The places of the tasks of a batch as the run begins: each machine waits
/// for its triage, which waits to be handed out.
pub open spec fn fresh_slots(batch: Seq<(ForgeIssueView, bool)>, max_retries: u32) -> Seq<
    SlotView,
> {
    Seq::new(
        batch.len(),
        |i: int|
            SlotView {
                machine: PipelineView::fresh(batch[i].0, batch[i].1, max_retries),
                next: Some(Action::RunTriage),
                busy: false,
                permit: false,
            },
    )
}

/// The records after the work on each task of a batch began at `now`, one
/// task after the other.
pub open spec fn started_records(
    batch: Seq<(ForgeIssueView, bool)>,
    records: Seq<IssueStateView>,
    now: Timestamp,
) -> Seq<IssueStateView>
    decreases batch.len(),
{
    if batch.len() == 0 {
        records
    } else {
        spec_start(
            batch.last().0,
            started_records(batch.drop_last(), records, now),
            now,
        )
    }
}

/// The mathematical content of a batch: each task with the answer whether
/// its repository needs its containers to run.
pub open spec fn batch_view(batch: Seq<(ForgeIssue, bool)>) -> Seq<
    (ForgeIssueView, bool),
> {
    Seq::new(batch.len(), |i: int| (batch[i].0@, batch[i].1))
}

/// As a run over different tasks begins, the state store agrees with the
/// machine of each of them.
pub proof fn lemma_begin_agrees(
    batch: Seq<(ForgeIssueView, bool)>,
    max_retries: u32,
    records: Seq<IssueStateView>,
    now: Timestamp,
)
    requires
        distinct_keys(records),
        forall|i: int, j: int|
            0 <= i < j < batch.len() ==> !((#[trigger] batch[i]).0.full_repo() == (
            #[trigger] batch[j]).0.full_repo() && batch[i].0.number == batch[j].0.number),
    ensures
        distinct_keys(started_records(batch, records, now)),
        distinct_tasks(fresh_slots(batch, max_retries)),
        all_agree(fresh_slots(batch, max_retries), started_records(batch, records, now)),
    decreases batch.len(),
{
    let slots = fresh_slots(batch, max_retries);
    let after = started_records(batch, records, now);
    assert forall|i: int, j: int| 0 <= i < j < slots.len() implies !((
    #[trigger] slots[i]).machine.issue.full_repo() == (#[trigger] slots[j]).machine.issue.full_repo()
        && slots[i].machine.issue.number == slots[j].machine.issue.number) by {
        assert(!(batch[i].0.full_repo() == batch[j].0.full_repo() && batch[i].0.number
            == batch[j].0.number));
    }
    if batch.len() > 0 {
        let init = batch.drop_last();
        let last = batch.last();
        let before = started_records(init, records, now);
        assert forall|i: int, j: int| 0 <= i < j < init.len() implies !((
        #[trigger] init[i]).0.full_repo() == (#[trigger] init[j]).0.full_repo() && init[i].0.number
            == init[j].0.number) by {
            assert(init[i] == batch[i] && init[j] == batch[j]);
        }
        lemma_begin_agrees(init, max_retries, records, now);
        lemma_start_agrees(last.0, last.1, max_retries, before, now);
        lemma_move_elsewhere(before, Move::Start { issue: last.0, now });
        assert forall|k: int| 0 <= k < slots.len() implies agrees(
            (#[trigger] slots[k]).machine,
            after,
        ) by {
            if k < init.len() {
                assert(slots[k] == fresh_slots(init, max_retries)[k]);
                assert(agrees(fresh_slots(init, max_retries)[k].machine, before));
                assert(!(batch[k].0.full_repo() == batch[batch.len() - 1].0.full_repo()
                    && batch[k].0.number == batch[batch.len() - 1].0.number));
                assert(lookup(after, batch[k].0.full_repo(), batch[k].0.number) == lookup(
                    before,
                    batch[k].0.full_repo(),
                    batch[k].0.number,
                ));
            }
        }
    }
}

/// No place holds a slot of the agent as a run begins.
proof fn lemma_fresh_holds_nothing(slots: Seq<SlotView>)
    requires
        forall|i: int| 0 <= i < slots.len() ==> !(#[trigger] slots[i]).permit,
    ensures
        permits_held(slots) == 0,
    decreases slots.len(),
{
    if slots.len() > 0 {
        assert forall|i: int| 0 <= i < slots.drop_last().len() implies !(
        #[trigger] slots.drop_last()[i]).permit by {
            assert(slots.drop_last()[i] == slots[i]);
        }
        lemma_fresh_holds_nothing(slots.drop_last());
    }
}

impl Run {
    #[verifier::type_invariant]
    spec fn in_order(&self) -> bool {
        self@.sound()
    }

    /// Begins a run over `batch` at `now`, with `capacity` slots for
    /// invocations of the agent and `max_retries` retries for each task.
    /// Each task comes with the answer whether its repository needs its
    /// containers to run. The work on each task is entered as begun.
    pub fn begin(
        batch: Vec<(ForgeIssue, bool)>,
        max_retries: u32,
        capacity: usize,
        tracker: &mut StateTracker,
        now: Timestamp,
    ) -> (run: Run)
        ensures
            run@ == (RunView {
                slots: fresh_slots(batch_view(batch@), max_retries),
                capacity: capacity as nat,
            }),
            final(tracker)@ == started_records(batch_view(batch@), old(tracker)@, now),
    {
        let ghost all = batch_view(batch@);
        let ghost before = tracker@;
        let mut slots: Vec<Slot> = Vec::new();
        let n = batch.len();
        let mut i: usize = 0;
        assert(all.take(0) =~= Seq::<(ForgeIssueView, bool)>::empty());
        assert(slots.deep_view() =~= fresh_slots(all.take(0), max_retries));
        while i < n
            invariant
                n == batch@.len(),
                i <= n,
                all == batch_view(batch@),
                slots.deep_view() == fresh_slots(all.take(i as int), max_retries),
                tracker@ == started_records(all.take(i as int), before, now),
            decreases n - i,
        {
            let ghost filled = slots.deep_view();
            assert(all.take(i + 1).drop_last() =~= all.take(i as int));
            assert(all.take(i + 1).last() == (batch@[i as int].0@, batch@[i as int].1));
            let (machine, action) = Pipeline::start(
                batch[i].0.clone(),
                batch[i].1,
                max_retries,
                tracker,
                now,
            );
            let slot = Slot { machine, next: Some(action), busy: false, permit: false };
            slots.push(slot);
            assert(slots.deep_view() =~= filled.push(slot@));
            assert(slots.deep_view() =~= fresh_slots(all.take(i + 1), max_retries));
            i = i + 1;
        }
        assert(all.take(n as int) =~= all);
        proof {
            lemma_fresh_holds_nothing(slots.deep_view());
        }
        Run { slots, capacity }
    }

    /// How many tasks the run holds.
    pub fn len(&self) -> (r: usize)
        ensures
            r == self@.slots.len(),
    {
        self.slots.len()
    }

    /// The stage machine of task `i`, if the run holds that many tasks.
    pub fn machine(&self, i: usize) -> (r: Option<&Pipeline>)
        ensures
            match r {
                Some(machine) => i < self@.slots.len() && machine@ == self@.slots[i as int].machine,
                None => i >= self@.slots.len(),
            },
    {
        if i < self.slots.len() {
            Some(&self.slots[i].machine)
        } else {
            None
        }
    }

    /// How many slots of the agent are held: never more than there are.
    pub fn permits_in_use(&self) -> (r: usize)
        ensures
            r == permits_held(self@.slots),
            r <= self@.capacity,
    {
        proof {
            use_type_invariant(self);
        }
        let n = self.slots.len();
        let mut held: usize = 0;
        let mut i: usize = 0;
        assert(self@.slots.take(0) =~= Seq::<SlotView>::empty());
        while i < n
            invariant
                n == self.slots@.len(),
                i <= n,
                held == permits_held(self@.slots.take(i as int)),
                held <= i,
            decreases n - i,
        {
            assert(self@.slots.take(i + 1).drop_last() =~= self@.slots.take(i as int));
            assert(self@.slots.take(i + 1).last() == self.slots@[i as int]@);
            if self.slots[i].permit {
                held = held + 1;
            }
            i = i + 1;
        }
        assert(self@.slots.take(n as int) =~= self@.slots);
        held
    }

    /// Whether every task is through: nothing waits to be handed out, and
    /// nothing is awaited.
    pub fn is_finished(&self) -> (r: bool)
        ensures
            r == self@.finished(),
    {
        let n = self.slots.len();
        let mut i: usize = 0;
        while i < n
            invariant
                n == self.slots@.len(),
                i <= n,
                forall|k: int| 0 <= k < i ==> (#[trigger] self@.slots[k]).at_rest(),
            decreases n - i,
        {
            if self.slots[i].busy || self.slots[i].next.is_some() {
                assert(!self@.slots[i as int].at_rest());
                return false;
            }
            i = i + 1;
        }
        true
    }

    /// Hands out the next action: the waiting action of the first task that
    /// is in no hand and whose action needs no slot of the agent or finds
    /// one free. Nothing is handed out where there is no such task.
    pub fn next(&mut self) -> (r: Option<(usize, Action)>)
        ensures
            final(self)@ == old(self)@.next().0,
            match r {
                Some((i, action)) => old(self)@.next().1 == Some((i as int, action)),
                None => old(self)@.next().1 is None,
            },
    {
        proof {
            use_type_invariant(&*self);
            lemma_next_sound(self@);
        }
        let ghost start = self@;
        let free = self.permits_in_use() < self.capacity;
        let n = self.slots.len();
        let mut i: usize = 0;
        while i < n
            invariant
                self@ == start,
                start == old(self)@,
                start.next().0.sound(),
                start.next().0.capacity == start.capacity,
                n == self.slots@.len(),
                i <= n,
                free == start.free(),
                first_ready(start.slots, free, 0) == first_ready(start.slots, free, i as int),
            decreases n - i,
        {
            let ready = !self.slots[i].busy && match self.slots[i].next {
                Some(action) => free || !action.needs_permit(),
                None => false,
            };
            assert(ready == start.slots[i as int].ready(free));
            if ready {
                let mut slots: Vec<Slot> = Vec::new();
                assert(slots.deep_view() =~= Seq::<SlotView>::empty());
                proof {
                    lemma_fresh_holds_nothing(slots.deep_view());
                }
                std::mem::swap(&mut self.slots, &mut slots);
                let mut slot = slots.remove(i);
                let action = slot.next.unwrap();
                slot.next = None;
                slot.busy = true;
                slot.permit = action.needs_permit();
                slots.insert(i, slot);
                assert(slots.deep_view() =~= start.slots.update(i as int, slot@));
                assert(start.next().1 == Some((i as int, action)));
                assert(slots.deep_view() == start.next().0.slots);
                std::mem::swap(&mut self.slots, &mut slots);
                return Some((i, action));
            }
            i = i + 1;
        }
        None
    }

    /// Takes the event of the action of task `i`: its machine takes its step
    /// at `now`, and the task leaves the hand of the caller. The answer of
    /// the machine is returned; it waits to be handed out unless it asks for
    /// nothing more. An event for a task that is in no hand changes nothing.
    pub fn complete(&mut self, i: usize, event: Event, tracker: &mut StateTracker, now: Timestamp) -> (action:
        Action)
        ensures
            (final(self)@, action, final(tracker)@) == old(self)@.complete(
                i as int,
                event@,
                old(tracker)@,
                now,
            ),
    {
        proof {
            use_type_invariant(&*self);
            lemma_complete_sound(self@, i as int, event@, tracker@, now);
        }
        if i >= self.slots.len() || !self.slots[i].busy {
            return Action::Idle;
        }
        let ghost before = self@;
        let mut slots: Vec<Slot> = Vec::new();
        assert(slots.deep_view() =~= Seq::<SlotView>::empty());
        proof {
            lemma_fresh_holds_nothing(slots.deep_view());
        }
        std::mem::swap(&mut self.slots, &mut slots);
        let mut slot = slots.remove(i);
        let action = slot.machine.step(event, tracker, now);
        slot.next = match action {
            Action::Finish | Action::AskHuman | Action::Idle => None,
            _ => Some(action),
        };
        slot.busy = false;
        slot.permit = false;
        slots.insert(i, slot);
        assert(slots.deep_view() =~= before.slots.update(i as int, slot@));
        std::mem::swap(&mut self.slots, &mut slots);
        action
    }
}

} // verus!
