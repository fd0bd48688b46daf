//! Units of pending work and the effects one unit of guest execution has
//! on its context.
//!
//! The engine reports what a run of guest code did as a `GuestEffects`:
//! writes to the shared global namespace, newly scheduled pending work,
//! and pending handles that settled. A `Task` is one queued unit of work
//! carrying the effects that running it will have; a task's scheduled
//! children are finite, which is what makes draining the queue terminate.

use vstd::prelude::*;

use crate::value::{field_views, DynValue, DynValueView};

verus! {

broadcast use vstd::std_specs::vec::group_vec_axioms, vstd::seq::group_seq_axioms;

/// How a pending handle settled: with a value, or with a guest-reported
/// failure description.
#[derive(Debug, PartialEq, Eq)]
pub enum Settlement {
    Fulfilled(DynValue),
    Rejected(String),
}

/// Spec-level picture of a settlement.
pub enum SettlementView {
    Fulfilled(DynValueView),
    Rejected(Seq<char>),
}

/// One unit of pending work on a context's queue (a microtask, a timer
/// continuation, a pending module load), carrying what running it does.
#[derive(Debug, PartialEq, Eq)]
pub struct Task {
    pub effects: GuestEffects,
}

/// What one unit of guest execution did to its context, as the engine
/// reports it: global writes applied in order, new tasks scheduled onto
/// the pending-work queue, and pending handles settled.
#[derive(Debug, PartialEq, Eq)]
pub struct GuestEffects {
    pub writes: Vec<(String, DynValue)>,
    pub scheduled: Vec<Task>,
    pub settled: Vec<(u64, Settlement)>,
}

/// Spec-level picture of a task.
pub struct TaskView {
    pub effects: EffectsView,
}

/// Spec-level picture of one unit of execution's effects.
pub struct EffectsView {
    pub writes: Seq<(Seq<char>, DynValueView)>,
    pub scheduled: Seq<TaskView>,
    pub settled: Seq<(u64, SettlementView)>,
}

pub open spec fn settlement_view(s: Settlement) -> SettlementView {
    match s {
        Settlement::Fulfilled(v) => SettlementView::Fulfilled(crate::value::dyn_view(v)),
        Settlement::Rejected(m) => SettlementView::Rejected(m@),
    }
}

pub open spec fn settlement_views(s: Seq<(u64, Settlement)>) -> Seq<(u64, SettlementView)>
    decreases s.len(),
{
    if s.len() == 0 {
        Seq::empty()
    } else {
        seq![(s[0].0, settlement_view(s[0].1))] + settlement_views(s.drop_first())
    }
}

pub open spec fn task_view(t: Task) -> TaskView
    decreases t,
{
    TaskView { effects: effects_view(t.effects) }
}

pub open spec fn effects_view(e: GuestEffects) -> EffectsView
    decreases e,
{
    EffectsView {
        writes: field_views(e.writes@),
        scheduled: task_views(e.scheduled@),
        settled: settlement_views(e.settled@),
    }
}

pub open spec fn task_views(s: Seq<Task>) -> Seq<TaskView>
    decreases s,
{
    if s.len() == 0 {
        Seq::empty()
    } else {
        seq![task_view(s[0])] + task_views(s.drop_first())
    }
}

impl View for Task {
    type V = TaskView;

    open spec fn view(&self) -> TaskView {
        task_view(*self)
    }
}

impl View for GuestEffects {
    type V = EffectsView;

    open spec fn view(&self) -> EffectsView {
        effects_view(*self)
    }
}

impl View for Settlement {
    type V = SettlementView;

    open spec fn view(&self) -> SettlementView {
        settlement_view(*self)
    }
}

pub proof fn lemma_settlement_views_index(s: Seq<(u64, Settlement)>)
    ensures
        settlement_views(s).len() == s.len(),
        forall|i: int|
            0 <= i < s.len() ==> #[trigger] settlement_views(s)[i] == (
                s[i].0,
                settlement_view(s[i].1),
            ),
    decreases s.len(),
{
    if s.len() > 0 {
        lemma_settlement_views_index(s.drop_first());
    }
}

pub proof fn lemma_task_views_index(s: Seq<Task>)
    ensures
        task_views(s).len() == s.len(),
        forall|i: int| 0 <= i < s.len() ==> #[trigger] task_views(s)[i] == task_view(s[i]),
    decreases s.len(),
{
    if s.len() > 0 {
        lemma_task_views_index(s.drop_first());
    }
}

pub proof fn lemma_task_views_concat(a: Seq<Task>, b: Seq<Task>)
    ensures
        task_views(a + b) == task_views(a) + task_views(b),
    decreases a.len(),
{
    if a.len() == 0 {
        assert(a + b =~= b);
        assert(task_views(a) + task_views(b) =~= task_views(b));
    } else {
        assert((a + b).drop_first() =~= a.drop_first() + b);
        lemma_task_views_concat(a.drop_first(), b);
        assert((a + b)[0] == a[0]);
        assert(task_views(a + b) =~= task_views(a) + task_views(b));
    }
}

pub proof fn lemma_settlement_views_concat(a: Seq<(u64, Settlement)>, b: Seq<(u64, Settlement)>)
    ensures
        settlement_views(a + b) == settlement_views(a) + settlement_views(b),
    decreases a.len(),
{
    if a.len() == 0 {
        assert(a + b =~= b);
        assert(settlement_views(a) + settlement_views(b) =~= settlement_views(b));
    } else {
        assert((a + b).drop_first() =~= a.drop_first() + b);
        lemma_settlement_views_concat(a.drop_first(), b);
        assert((a + b)[0] == a[0]);
        assert(settlement_views(a + b) =~= settlement_views(a) + settlement_views(b));
    }
}

/// The weight of one task: itself plus everything it will schedule,
/// transitively. Each drain step trades a task for its scheduled children,
/// so the queue's total weight falls by one.
pub open spec fn task_weight(t: TaskView) -> nat
    decreases t,
{
    1 + tasks_weight(t.effects.scheduled)
}

/// The total weight of a queue segment.
pub open spec fn tasks_weight(s: Seq<TaskView>) -> nat
    decreases s,
{
    if s.len() == 0 {
        0nat
    } else {
        task_weight(s[0]) + tasks_weight(s.drop_first())
    }
}

/// Weight adds over concatenation.
pub proof fn lemma_tasks_weight_concat(a: Seq<TaskView>, b: Seq<TaskView>)
    ensures
        tasks_weight(a + b) == tasks_weight(a) + tasks_weight(b),
    decreases a.len(),
{
    if a.len() == 0 {
        assert(a + b =~= b);
    } else {
        assert((a + b).drop_first() =~= a.drop_first() + b);
        lemma_tasks_weight_concat(a.drop_first(), b);
    }
}

} // verus!
