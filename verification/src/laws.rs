//! Guarantees the harness gives across executor calls, stated and proved
//! once over the executors' own specifications.

use vstd::prelude::*;

use crate::context::{spec_apply_effects, spec_drain, ContextView};
use crate::effects::{
    lemma_tasks_weight_concat, task_weight, tasks_weight, SettlementView, TaskView,
};
use crate::executor::{
    marshal_outcome, spec_first_bad_dep, spec_get_export, spec_module_position, spec_run_module,
    spec_run_script, spec_settlement_from, CompletionView, EvalReportView, HarnessErrorView,
    ModuleCompletionView, ModuleHandle, ModuleRunView,
};
use crate::module::{state_rank, ModuleState, ModuleView};
use crate::shape::Shape;
use crate::value::{DynValueView, HostValueView};

verus! {

broadcast use vstd::std_specs::vec::group_vec_axioms, vstd::seq::group_seq_axioms;

/// Draining touches only the global namespace, the queue and the
/// settlement record: the module table and the busy flag stay as they
/// are.
pub proof fn lemma_drain_preserves_modules(c: ContextView)
    ensures
        spec_drain(c).modules == c.modules,
        spec_drain(c).busy == c.busy,
    decreases tasks_weight(c.queue),
{
    if c.queue.len() > 0 {
        let rest = c.queue.drop_first();
        let sched = c.queue[0].effects.scheduled;
        lemma_tasks_weight_concat(rest, sched);
        lemma_tasks_weight_concat(seq![c.queue[0]], rest);
        assert(c.queue =~= seq![c.queue[0]] + rest);
        assert(seq![c.queue[0]].drop_first() =~= Seq::<TaskView>::empty());
        assert(tasks_weight(seq![c.queue[0]]) == task_weight(c.queue[0]));
        assert(task_weight(c.queue[0]) == 1 + tasks_weight(sched));
        lemma_drain_preserves_modules(
            spec_apply_effects(ContextView { queue: rest, ..c }, c.queue[0].effects),
        );
    }
}

/// Non-reentrancy: while one executor call is active against a context,
/// a second script or module run against the same context is rejected,
/// deterministically, and changes nothing.
pub proof fn lemma_busy_call_rejected(
    c: ContextView,
    r: EvalReportView,
    s: Shape,
    id: Seq<char>,
    src: Seq<char>,
    m: ModuleRunView,
)
    requires
        c.busy,
    ensures
        spec_run_script(c, r, s).0 == c,
        spec_run_script(c, r, s).1 == Err::<HostValueView, HarnessErrorView>(
            HarnessErrorView::ContextBusy,
        ),
        spec_run_module(c, id, src, m).0 == c,
        spec_run_module(c, id, src, m).1 == Err::<ModuleHandle, HarnessErrorView>(
            HarnessErrorView::ContextBusy,
        ),
{
}

/// Asynchronous settlement: a script whose completion value is a pending
/// handle that settles while the queue drains returns the settled value,
/// marshalled against the shape — never the pending handle itself.
pub proof fn lemma_pending_value_settles(
    c: ContextView,
    r: EvalReportView,
    s: Shape,
    h: u64,
    v: DynValueView,
)
    requires
        !c.busy,
        r.completion == CompletionView::Value(DynValueView::Pending(h)),
        spec_settlement_from(spec_drain(spec_apply_effects(c, r.effects)).settled, h, 0) == Some(
            SettlementView::Fulfilled(v),
        ),
    ensures
        spec_run_script(c, r, s).1 == marshal_outcome(v, s),
{
}

/// Module lifecycles are monotonic: a module run never touches the table
/// entries that already exist — in particular no module ever re-enters an
/// earlier lifecycle state — and at most one entry, in a terminal state,
/// is added.
pub proof fn lemma_module_states_monotonic(
    c: ContextView,
    id: Seq<char>,
    src: Seq<char>,
    run: ModuleRunView,
)
    ensures
        ({
            let c2 = spec_run_module(c, id, src, run).0;
            &&& c.modules.len() <= c2.modules.len() <= c.modules.len() + 1
            &&& forall|i: int|
                0 <= i < c.modules.len() ==> #[trigger] c2.modules[i] == c.modules[i]
            &&& forall|i: int|
                0 <= i < c.modules.len() ==> state_rank(#[trigger] c2.modules[i].state)
                    >= state_rank(c.modules[i].state)
            &&& c2.modules.len() > c.modules.len() ==> {
                let added = c2.modules[c2.modules.len() - 1];
                added.state == ModuleState::Evaluated || added.state == ModuleState::Failed
            }
        }),
{
    if !c.busy && spec_module_position(c.modules, id, 0) is None && spec_first_bad_dep(
        c.modules,
        run.deps,
        0,
    ) is None {
        lemma_drain_preserves_modules(spec_apply_effects(c, run.effects));
    }
}

/// Failure isolation: a module whose evaluation throws is recorded as
/// `Failed` and surfaced as a module-evaluation error, and the same
/// context still serves an independent module afterwards: one registered
/// under a fresh identifier, with sound dependencies, evaluates to
/// `Evaluated`, and its recorded exports are exactly those it declared.
pub proof fn lemma_module_failure_is_isolated(
    c: ContextView,
    id_a: Seq<char>,
    src_a: Seq<char>,
    run_a: ModuleRunView,
    id_b: Seq<char>,
    src_b: Seq<char>,
    run_b: ModuleRunView,
)
    requires
        !c.busy,
        spec_module_position(c.modules, id_a, 0) is None,
        spec_first_bad_dep(c.modules, run_a.deps, 0) is None,
        run_a.completion matches ModuleCompletionView::Threw(_),
        ({
            let c_after = spec_run_module(c, id_a, src_a, run_a).0;
            &&& spec_module_position(c_after.modules, id_b, 0) is None
            &&& spec_first_bad_dep(c_after.modules, run_b.deps, 0) is None
        }),
        run_b.completion matches ModuleCompletionView::Evaluated(_),
    ensures
        spec_run_module(c, id_a, src_a, run_a).1 == Err::<ModuleHandle, HarnessErrorView>(
            HarnessErrorView::ModuleEvaluation { message: run_a.completion->Threw_0 },
        ),
        ({
            let ms = spec_run_module(c, id_a, src_a, run_a).0.modules;
            &&& ms.len() == c.modules.len() + 1
            &&& ms[ms.len() - 1].id == id_a
            &&& ms[ms.len() - 1].state == ModuleState::Failed
        }),
        ({
            let c_after = spec_run_module(c, id_a, src_a, run_a).0;
            let result_b = spec_run_module(c_after, id_b, src_b, run_b);
            let ms = result_b.0.modules;
            &&& result_b.1 matches Ok(hb) && hb.state == ModuleState::Evaluated
            &&& ms.len() == c_after.modules.len() + 1
            &&& ms[ms.len() - 1].id == id_b
            &&& ms[ms.len() - 1].state == ModuleState::Evaluated
            &&& ms[ms.len() - 1].exports == run_b.completion->Evaluated_0
        }),
{
    lemma_drain_preserves_modules(spec_apply_effects(c, run_a.effects));
    let c_after = spec_run_module(c, id_a, src_a, run_a).0;
    lemma_drain_preserves_modules(spec_apply_effects(c_after, run_b.effects));
}

} // verus!
