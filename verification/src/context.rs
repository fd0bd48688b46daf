//! The execution context: one isolated dynamically-typed environment with
//! its own shared global namespace, module table and pending-work queue,
//! and the factory that builds it from an ordered set of capabilities.

use vstd::prelude::*;

use crate::effects::{
    lemma_settlement_views_concat, lemma_task_views_concat, lemma_task_views_index,
    lemma_tasks_weight_concat, settlement_views, task_view, task_views, task_weight, tasks_weight,
    EffectsView, GuestEffects, Settlement, SettlementView, Task, TaskView,
};
use crate::module::{module_views, Module, ModuleView};
use crate::value::{
    dyn_view, field_views, lemma_field_views_concat, lemma_field_views_index, DynValue,
    DynValueView,
};

verus! {

broadcast use vstd::std_specs::vec::group_vec_axioms, vstd::seq::group_seq_axioms;

/// A capability: a named bundle of global bindings the factory installs
/// into a fresh context before first use. Installation order is the
/// caller's order, since later capabilities may rely on earlier bindings.
#[derive(Debug, PartialEq, Eq)]
pub struct Capability {
    pub name: String,
    pub bindings: Vec<(String, DynValue)>,
}

/// The ordered set of capabilities a context is built with.
#[derive(Debug, PartialEq, Eq)]
pub struct CapabilityRegistry {
    pub capabilities: Vec<Capability>,
}

/// A fatal failure to build a context: a capability tried to install a
/// global binding under a name that was already installed.
#[derive(Debug, PartialEq, Eq)]
pub struct EngineInitError {
    pub binding: String,
}

/// One isolated execution environment. Every script and module run against
/// it reads and mutates the same global namespace; its module table and
/// pending-work queue are owned by it exclusively. At most one executor
/// call is active against it at any instant.
#[derive(Debug, PartialEq, Eq)]
pub struct ExecutionContext {
    pub globals: Vec<(String, DynValue)>,
    pub modules: Vec<Module>,
    pub queue: Vec<Task>,
    pub settled: Vec<(u64, Settlement)>,
    pub busy: bool,
}

/// Spec-level picture of an execution context.
pub struct ContextView {
    pub globals: Seq<(Seq<char>, DynValueView)>,
    pub modules: Seq<ModuleView>,
    pub queue: Seq<TaskView>,
    pub settled: Seq<(u64, SettlementView)>,
    pub busy: bool,
}

impl View for ExecutionContext {
    type V = ContextView;

    open spec fn view(&self) -> ContextView {
        ContextView {
            globals: field_views(self.globals@),
            modules: module_views(self.modules@),
            queue: task_views(self.queue@),
            settled: settlement_views(self.settled@),
            busy: self.busy,
        }
    }
}

/// All bindings the registry's capabilities contribute, in installation
/// order.
pub open spec fn spec_flat_bindings(caps: Seq<Capability>) -> Seq<(Seq<char>, DynValueView)>
    decreases caps.len(),
{
    if caps.len() == 0 {
        Seq::empty()
    } else {
        field_views(caps[0].bindings@) + spec_flat_bindings(caps.drop_first())
    }
}

/// Whether the binding at `k` repeats a name installed before it.
pub open spec fn dup_at(bs: Seq<(Seq<char>, DynValueView)>, k: int) -> bool {
    exists|j: int| 0 <= j < k && bs[j].0 == bs[k].0
}

/// Whether every binding name occurs only once.
pub open spec fn no_dups(bs: Seq<(Seq<char>, DynValueView)>) -> bool {
    forall|k: int| 0 <= k < bs.len() ==> !dup_at(bs, k)
}

/// Whether `name` is bound twice in the flat binding list.
pub open spec fn duplicate_binding(bs: Seq<(Seq<char>, DynValueView)>, name: Seq<char>) -> bool {
    exists|j: int, k: int|
        0 <= j < k < bs.len() && (#[trigger] bs[j]).0 == (#[trigger] bs[k]).0 && bs[k].0 == name
}

/// Position of the first binding of `name` at or after `i`, if any.
pub open spec fn spec_position_from(
    fields: Seq<(Seq<char>, DynValueView)>,
    name: Seq<char>,
    i: int,
) -> Option<int>
    decreases fields.len() - i,
{
    if i < 0 || i >= fields.len() {
        None
    } else if fields[i].0 == name {
        Some(i)
    } else {
        spec_position_from(fields, name, i + 1)
    }
}

/// A `None` position means no binding at or after `i` carries the name;
/// a `Some` points at a binding of the name.
pub proof fn lemma_position_characterises(
    fields: Seq<(Seq<char>, DynValueView)>,
    name: Seq<char>,
    i: int,
)
    requires
        0 <= i <= fields.len(),
    ensures
        spec_position_from(fields, name, i) is None ==> forall|j: int|
            i <= j < fields.len() ==> (#[trigger] fields[j]).0 != name,
        spec_position_from(fields, name, i) matches Some(p) ==> i <= p < fields.len()
            && fields[p].0 == name,
    decreases fields.len() - i,
{
    if i < fields.len() {
        lemma_position_characterises(fields, name, i + 1);
    }
}

/// The shared global namespace after one write: an existing binding of the
/// name is replaced, a new name is appended.
pub open spec fn spec_apply_write(
    globals: Seq<(Seq<char>, DynValueView)>,
    name: Seq<char>,
    v: DynValueView,
) -> Seq<(Seq<char>, DynValueView)> {
    match spec_position_from(globals, name, 0) {
        Some(j) => globals.update(j, (name, v)),
        None => globals.push((name, v)),
    }
}

/// The shared global namespace after a sequence of writes, applied in
/// order.
pub open spec fn spec_apply_writes(
    globals: Seq<(Seq<char>, DynValueView)>,
    writes: Seq<(Seq<char>, DynValueView)>,
) -> Seq<(Seq<char>, DynValueView)>
    decreases writes.len(),
{
    if writes.len() == 0 {
        globals
    } else {
        spec_apply_writes(spec_apply_write(globals, writes[0].0, writes[0].1), writes.drop_first())
    }
}

/// A context after one unit of guest execution: its writes land in the
/// shared global namespace in order, its newly scheduled work joins the
/// back of the pending-work queue, and its settlements are recorded.
pub open spec fn spec_apply_effects(c: ContextView, e: EffectsView) -> ContextView {
    ContextView {
        globals: spec_apply_writes(c.globals, e.writes),
        modules: c.modules,
        queue: c.queue + e.scheduled,
        settled: c.settled + e.settled,
        busy: c.busy,
    }
}

/// A context driven to quiescence: pending work runs from the front of the
/// queue, each task's effects applied in full (possibly scheduling more
/// work), until no task remains. This terminates because a task carries
/// only finitely much transitive work.
pub open spec fn spec_drain(c: ContextView) -> ContextView
    decreases tasks_weight(c.queue),
    via spec_drain_decreases
{
    if c.queue.len() == 0 {
        c
    } else {
        spec_drain(
            spec_apply_effects(ContextView { queue: c.queue.drop_first(), ..c }, c.queue[0].effects),
        )
    }
}

#[via_fn]
proof fn spec_drain_decreases(c: ContextView) {
    if c.queue.len() > 0 {
        let rest = c.queue.drop_first();
        let sched = c.queue[0].effects.scheduled;
        lemma_tasks_weight_concat(rest, sched);
        lemma_tasks_weight_concat(seq![c.queue[0]], rest);
        assert(c.queue =~= seq![c.queue[0]] + rest);
        assert(seq![c.queue[0]].drop_first() =~= Seq::<TaskView>::empty());
        assert(tasks_weight(seq![c.queue[0]]) == task_weight(c.queue[0]));
        assert(task_weight(c.queue[0]) == 1 + tasks_weight(sched));
    }
}

impl ExecutionContext {
    /// Position of the first global binding of `name` at or after `i`.
    pub(crate) fn position_of(globals: &Vec<(String, DynValue)>, name: &String, i: usize) -> (r:
        Option<usize>)
        requires
            i <= globals@.len(),
        ensures
            match r {
                Some(p) => i <= p < globals@.len() && spec_position_from(
                    field_views(globals@),
                    name@,
                    i as int,
                ) == Some(p as int),
                None => spec_position_from(field_views(globals@), name@, i as int) is None,
            },
        decreases globals@.len() - i,
    {
        proof {
            lemma_field_views_index(globals@);
        }
        if i == globals.len() {
            None
        } else if globals[i].0 == *name {
            Some(i)
        } else {
            Self::position_of(globals, name, i + 1)
        }
    }

    /// The current value of a global binding, if the name is bound.
    pub fn global(&self, name: &String) -> (r: Option<&DynValue>)
        ensures
            match r {
                Some(v) => spec_position_from(self@.globals, name@, 0) matches Some(p)
                    && self@.globals[p].1 == dyn_view(*v),
                None => spec_position_from(self@.globals, name@, 0) is None,
            },
    {
        proof {
            lemma_field_views_index(self.globals@);
        }
        match Self::position_of(&self.globals, name, 0) {
            Some(p) => Some(&self.globals[p].1),
            None => None,
        }
    }

    /// Whether an executor call is currently active against this context.
    pub fn is_busy(&self) -> (r: bool)
        ensures
            r == self@.busy,
    {
        self.busy
    }

    /// Applies one unit of guest execution's effects to this context.
    pub(crate) fn apply_effects(&mut self, e: GuestEffects)
        ensures
            final(self)@ == spec_apply_effects(old(self)@, e@),
    {
        let ghost c0 = self@;
        let ghost ev = e@;
        let GuestEffects { writes: mut writes, scheduled: mut scheduled, settled: mut settled } = e;
        let ghost w0 = field_views(writes@);
        let ghost s0 = scheduled@;
        let ghost t0 = settled@;
        while writes.len() > 0
            invariant
                spec_apply_writes(field_views(self.globals@), field_views(writes@))
                    == spec_apply_writes(c0.globals, w0),
                self.modules@ == old(self).modules@,
                self.queue@ == old(self).queue@,
                self.settled@ == old(self).settled@,
                self.busy == old(self).busy,
            decreases writes@.len(),
        {
            let ghost wall = field_views(writes@);
            proof {
                lemma_field_views_index(writes@);
            }
            let w = writes.remove(0);
            let ghost g0 = field_views(self.globals@);
            proof {
                assert(field_views(writes@) =~= wall.drop_first());
                assert(wall[0] == (w.0@, dyn_view(w.1)));
            }
            match Self::position_of(&self.globals, &w.0, 0) {
                Some(p) => {
                    let ghost gv = self.globals@;
                    self.globals[p] = w;
                    proof {
                        lemma_field_views_index(gv);
                        lemma_field_views_index(self.globals@);
                        assert(field_views(self.globals@) =~= spec_apply_write(
                            g0,
                            w.0@,
                            dyn_view(w.1),
                        ));
                    }
                },
                None => {
                    let ghost gv = self.globals@;
                    self.globals.push(w);
                    proof {
                        lemma_field_views_index(gv);
                        lemma_field_views_index(self.globals@);
                        assert(field_views(self.globals@) =~= spec_apply_write(
                            g0,
                            w.0@,
                            dyn_view(w.1),
                        ));
                    }
                },
            }
        }
        let ghost q0 = self.queue@;
        self.queue.append(&mut scheduled);
        let ghost d0 = self.settled@;
        self.settled.append(&mut settled);
        proof {
            lemma_task_views_concat(q0, s0);
            lemma_settlement_views_concat(d0, t0);
            assert(self.queue@ == q0 + s0);
            assert(self.settled@ == d0 + t0);
            assert(self@ == spec_apply_effects(c0, ev));
        }
    }

    /// Drives this context's pending-work queue to quiescence: runs queued
    /// tasks from the front, applying each one's effects in full, until no
    /// pending work remains.
    pub fn drain(&mut self)
        ensures
            final(self)@ == spec_drain(old(self)@),
            final(self)@.queue.len() == 0,
    {
        while self.queue.len() > 0
            invariant
                spec_drain(self@) == spec_drain(old(self)@),
            decreases tasks_weight(self@.queue),
        {
            let ghost c = self@;
            let ghost q0 = self.queue@;
            proof {
                lemma_task_views_index(q0);
            }
            let t = self.queue.remove(0);
            proof {
                assert(self.queue@ =~= q0.drop_first());
                assert(task_views(self.queue@) =~= c.queue.drop_first());
            }
            self.apply_effects(t.effects);
            proof {
                assert(c.queue[0] == task_view(t));
                assert(self@ == spec_apply_effects(
                    ContextView { queue: c.queue.drop_first(), ..c },
                    c.queue[0].effects,
                ));
                let rest = c.queue.drop_first();
                let sched = c.queue[0].effects.scheduled;
                lemma_tasks_weight_concat(rest, sched);
                lemma_tasks_weight_concat(seq![c.queue[0]], rest);
                assert(c.queue =~= seq![c.queue[0]] + rest);
                assert(seq![c.queue[0]].drop_first() =~= Seq::<TaskView>::empty());
                assert(tasks_weight(seq![c.queue[0]]) == task_weight(c.queue[0]));
                assert(task_weight(c.queue[0]) == 1 + tasks_weight(sched));
            }
        }
    }
}

/// Builds a fresh, isolated execution context from an ordered capability
/// registry: every capability's bindings are installed into the global
/// namespace in registration order. Building fails, fatally and without a
/// context, when a binding name would be installed twice; the error names
/// the repeated binding.
pub fn build(registry: CapabilityRegistry) -> (r: Result<ExecutionContext, EngineInitError>)
    ensures
        ({
            let bs = spec_flat_bindings(registry.capabilities@);
            match r {
                Ok(ctx) => no_dups(bs) && ctx@ == (ContextView {
                    globals: bs,
                    modules: Seq::<ModuleView>::empty(),
                    queue: Seq::<TaskView>::empty(),
                    settled: Seq::<(u64, SettlementView)>::empty(),
                    busy: false,
                }),
                Err(e) => duplicate_binding(bs, e.binding@),
            }
        }),
{
    let ghost bs0 = spec_flat_bindings(registry.capabilities@);
    let CapabilityRegistry { capabilities: mut caps } = registry;
    proof {
        assert(caps@ == registry.capabilities@);
    }
    let mut flat: Vec<(String, DynValue)> = Vec::new();
    while caps.len() > 0
        invariant
            field_views(flat@) + spec_flat_bindings(caps@) == bs0,
        decreases caps@.len(),
    {
        let ghost fv = field_views(flat@);
        let ghost cv = caps@;
        let mut c = caps.remove(0);
        let ghost f0 = flat@;
        let ghost b0 = c.bindings@;
        flat.append(&mut c.bindings);
        proof {
            assert(caps@ =~= cv.drop_first());
            assert(flat@ == f0 + b0);
            lemma_field_views_concat(f0, b0);
            assert(b0 == cv[0].bindings@);
            assert((fv + field_views(b0)) + spec_flat_bindings(caps@) =~= fv + (field_views(b0)
                + spec_flat_bindings(caps@)));
        }
    }
    proof {
        assert(field_views(flat@) + spec_flat_bindings(caps@) =~= field_views(flat@));
    }
    let mut globals: Vec<(String, DynValue)> = Vec::new();
    let ghost mut k: int = 0;
    proof {
        assert(field_views(globals@) =~= bs0.take(0));
        assert(field_views(flat@) =~= bs0.skip(0));
    }
    while flat.len() > 0
        invariant
            bs0 == spec_flat_bindings(registry.capabilities@),
            0 <= k <= bs0.len(),
            field_views(globals@) =~= bs0.take(k),
            field_views(flat@) =~= bs0.skip(k),
            forall|j: int| 0 <= j < k ==> !dup_at(bs0, j),
        decreases flat@.len(),
    {
        let ghost fv = field_views(flat@);
        proof {
            lemma_field_views_index(flat@);
            assert(fv.len() > 0);
            assert(k < bs0.len());
        }
        let w = flat.remove(0);
        proof {
            assert(fv[0] == (w.0@, dyn_view(w.1)));
            assert(field_views(flat@) =~= fv.drop_first());
            assert(bs0.skip(k)[0] == bs0[k]);
            assert(bs0[k] == (w.0@, dyn_view(w.1)));
        }
        match ExecutionContext::position_of(&globals, &w.0, 0) {
            Some(p) => {
                proof {
                    lemma_position_characterises(field_views(globals@), w.0@, 0);
                    assert(field_views(globals@)[p as int].0 == w.0@);
                    assert(bs0.take(k)[p as int] == bs0[p as int]);
                    assert(bs0[p as int].0 == bs0[k].0);
                    assert(0 <= p < k < bs0.len() && bs0[p as int].0 == bs0[k].0);
                }
                let err = EngineInitError { binding: w.0 };
                proof {
                    assert(bs0[k].0 == err.binding@);
                    assert(duplicate_binding(bs0, err.binding@));
                }
                return Err(err);
            },
            None => {
                proof {
                    lemma_position_characterises(field_views(globals@), w.0@, 0);
                    assert forall|j: int| 0 <= j < k implies (#[trigger] bs0[j]).0 != bs0[k].0 by {
                        assert(bs0.take(k)[j] == bs0[j]);
                        assert(field_views(globals@)[j] == bs0.take(k)[j]);
                    }
                    assert(!dup_at(bs0, k));
                }
                let ghost gv = globals@;
                globals.push(w);
                proof {
                    lemma_field_views_index(gv);
                    lemma_field_views_index(globals@);
                    assert(field_views(globals@) =~= bs0.take(k + 1));
                    assert(field_views(flat@) =~= bs0.skip(k + 1));
                    k = k + 1;
                }
            },
        }
    }
    proof {
        assert(bs0.skip(k).len() == 0);
        assert(k == bs0.len());
        assert(field_views(globals@) =~= bs0);
    }
    let ctx = ExecutionContext {
        globals,
        modules: Vec::new(),
        queue: Vec::new(),
        settled: Vec::new(),
        busy: false,
    };
    proof {
        assert(module_views(ctx.modules@) =~= Seq::<ModuleView>::empty());
        assert(task_views(ctx.queue@) =~= Seq::<TaskView>::empty());
        assert(settlement_views(ctx.settled@) =~= Seq::<(u64, SettlementView)>::empty());
    }
    Ok(ctx)
}

} // verus!
