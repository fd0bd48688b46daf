//! The script and module executors and the export extractor.
//!
//! The guest engine itself is an external collaborator: the host runs a
//! unit of source through it and hands the engine's account of that run
//! (its effects and its completion) to the executor, which owns every
//! decision — the shared-namespace writes, the module lifecycle, driving
//! the pending-work queue to quiescence, settling pending values, and
//! marshalling the final value across the type boundary.

use vstd::prelude::*;

use crate::context::{
    spec_apply_effects, spec_drain, ContextView, ExecutionContext,
};
use crate::effects::{
    lemma_settlement_views_index, settlement_view, settlement_views, GuestEffects, Settlement,
    SettlementView,
};
use crate::marshal::{
    spec_from_dynamic, spec_lookup_from, ConversionError, ConversionErrorView,
};
use crate::module::{
    lemma_module_views_index, module_view, Module, ModuleState, ModuleView,
};
use crate::shape::Shape;
use crate::value::{dyn_view, field_views, DynValue, DynValueView, HostValue, HostValueView};

verus! {

broadcast use vstd::std_specs::vec::group_vec_axioms, vstd::seq::group_seq_axioms;

/// A failure of an executor call. Failures are call-scoped: apart from
/// building the context, no failure makes the context unusable.
#[derive(Debug, PartialEq, Eq)]
pub enum HarnessError {
    /// The guest raised an exception during a script run; the thrown
    /// value's description is carried, never swallowed.
    ScriptExecution { message: String },
    /// The module, or one of its dependencies, failed during linking or
    /// evaluation; terminal for that module identifier.
    ModuleEvaluation { message: String },
    /// The value at the boundary did not fit the requested shape.
    Conversion(ConversionError),
    /// The evaluated module exports nothing under the requested name.
    ExportNotFound { name: String },
    /// The module handle is not in the lifecycle state the call needs.
    InvalidState { state: ModuleState },
    /// A second executor call was made against a context while another
    /// call is still active; it is rejected, deterministically.
    ContextBusy,
    /// The module identifier is already taken in this context's table.
    DuplicateModule { id: String },
}

/// Spec-level picture of an executor failure.
pub enum HarnessErrorView {
    ScriptExecution { message: Seq<char> },
    ModuleEvaluation { message: Seq<char> },
    Conversion(ConversionErrorView),
    ExportNotFound { name: Seq<char> },
    InvalidState { state: ModuleState },
    ContextBusy,
    DuplicateModule { id: Seq<char> },
}

impl View for HarnessError {
    type V = HarnessErrorView;

    open spec fn view(&self) -> HarnessErrorView {
        match self {
            HarnessError::ScriptExecution { message } => HarnessErrorView::ScriptExecution {
                message: message@,
            },
            HarnessError::ModuleEvaluation { message } => HarnessErrorView::ModuleEvaluation {
                message: message@,
            },
            HarnessError::Conversion(e) => HarnessErrorView::Conversion(e@),
            HarnessError::ExportNotFound { name } => HarnessErrorView::ExportNotFound {
                name: name@,
            },
            HarnessError::InvalidState { state } => HarnessErrorView::InvalidState {
                state: *state,
            },
            HarnessError::ContextBusy => HarnessErrorView::ContextBusy,
            HarnessError::DuplicateModule { id } => HarnessErrorView::DuplicateModule { id: id@ },
        }
    }
}

/// How a unit of guest source completed: with a value, or by raising.
#[derive(Debug, PartialEq, Eq)]
pub enum Completion {
    Value(DynValue),
    Threw(String),
}

/// Spec-level picture of a completion.
pub enum CompletionView {
    Value(DynValueView),
    Threw(Seq<char>),
}

impl View for Completion {
    type V = CompletionView;

    open spec fn view(&self) -> CompletionView {
        match self {
            Completion::Value(v) => CompletionView::Value(dyn_view(*v)),
            Completion::Threw(m) => CompletionView::Threw(m@),
        }
    }
}

/// The engine's account of evaluating one unit of script source: what the
/// run did to the context, and how it completed.
#[derive(Debug, PartialEq, Eq)]
pub struct EvalReport {
    pub effects: GuestEffects,
    pub completion: Completion,
}

/// Spec-level picture of an evaluation report.
pub struct EvalReportView {
    pub effects: crate::effects::EffectsView,
    pub completion: CompletionView,
}

impl View for EvalReport {
    type V = EvalReportView;

    open spec fn view(&self) -> EvalReportView {
        EvalReportView { effects: self.effects@, completion: self.completion@ }
    }
}

/// The settlement recorded for pending handle `h` at or after `i`, if any.
pub open spec fn spec_settlement_from(
    s: Seq<(u64, SettlementView)>,
    h: u64,
    i: int,
) -> Option<SettlementView>
    decreases s.len() - i,
{
    if i < 0 || i >= s.len() {
        None
    } else if s[i].0 == h {
        Some(s[i].1)
    } else {
        spec_settlement_from(s, h, i + 1)
    }
}

/// The description a script run fails with when the queue goes quiescent
/// while its value is still pending.
pub open spec fn unsettled_message() -> Seq<char> {
    "pending value did not settle before quiescence"@
}

/// A marshalling step at the end of an executor call: the shape either
/// accepts the settled value or the conversion diagnostic is surfaced.
pub open spec fn marshal_outcome(d: DynValueView, s: Shape) -> Result<
    HostValueView,
    HarnessErrorView,
> {
    match spec_from_dynamic(d, s) {
        Ok(h) => Ok(h),
        Err(e) => Err(HarnessErrorView::Conversion(e)),
    }
}

/// What a script run returns and what it leaves behind. The run is
/// rejected while the context is busy. Otherwise the run's effects land on
/// the shared namespace and queue; a guest exception is surfaced as a
/// script failure; a completed value first has the queue driven to
/// quiescence, then, if it is a pending handle, is replaced by its
/// recorded settlement; the final value is marshalled against the shape.
pub open spec fn spec_run_script(c: ContextView, r: EvalReportView, s: Shape) -> (
    ContextView,
    Result<HostValueView, HarnessErrorView>,
) {
    if c.busy {
        (c, Err(HarnessErrorView::ContextBusy))
    } else {
        let c1 = spec_apply_effects(c, r.effects);
        match r.completion {
            CompletionView::Threw(m) => (c1, Err(HarnessErrorView::ScriptExecution { message: m })),
            CompletionView::Value(v) => {
                let c2 = spec_drain(c1);
                match v {
                    DynValueView::Pending(h) => match spec_settlement_from(c2.settled, h, 0) {
                        Some(SettlementView::Fulfilled(sv)) => (c2, marshal_outcome(sv, s)),
                        Some(SettlementView::Rejected(m)) => (
                            c2,
                            Err(HarnessErrorView::ScriptExecution { message: m }),
                        ),
                        None => (
                            c2,
                            Err(
                                HarnessErrorView::ScriptExecution {
                                    message: unsettled_message(),
                                },
                            ),
                        ),
                    },
                    _ => (c2, marshal_outcome(v, s)),
                }
            },
        }
    }
}

/// The spec-level picture of an executable executor result.
pub open spec fn host_result_view(r: Result<HostValue, HarnessError>) -> Result<
    HostValueView,
    HarnessErrorView,
> {
    match r {
        Ok(h) => Ok(crate::value::host_view(h)),
        Err(e) => Err(e@),
    }
}

impl ExecutionContext {
    /// The recorded settlement of pending handle `h` at or after `i`.
    fn find_settlement(s: &Vec<(u64, Settlement)>, h: u64, i: usize) -> (r: Option<&Settlement>)
        requires
            i <= s@.len(),
        ensures
            match r {
                Some(v) => spec_settlement_from(settlement_views(s@), h, i as int) == Some(
                    settlement_view(*v),
                ),
                None => spec_settlement_from(settlement_views(s@), h, i as int) is None,
            },
        decreases s@.len() - i,
    {
        proof {
            lemma_settlement_views_index(s@);
        }
        if i == s.len() {
            None
        } else if s[i].0 == h {
            Some(&s[i].1)
        } else {
            Self::find_settlement(s, h, i + 1)
        }
    }

    /// Marks this context as having an active execution. A host that lets
    /// the engine call back into it brackets that span with this and
    /// `end_execution`; any executor call made inside the bracket is
    /// rejected rather than interleaved.
    pub fn begin_execution(&mut self) -> (r: Result<(), HarnessError>)
        ensures
            match r {
                Ok(_) => !old(self)@.busy && final(self)@ == (ContextView {
                    busy: true,
                    ..old(self)@
                }),
                Err(e) => old(self)@.busy && e@ == HarnessErrorView::ContextBusy && final(self)@
                    == old(self)@,
            },
    {
        if self.busy {
            Err(HarnessError::ContextBusy)
        } else {
            self.busy = true;
            Ok(())
        }
    }

    /// Closes the span opened by `begin_execution`.
    pub fn end_execution(&mut self)
        ensures
            final(self)@ == (ContextView { busy: false, ..old(self)@ }),
    {
        self.busy = false;
    }

    /// Runs one unit of top-level script source against this context's
    /// current global namespace, given the engine's account of evaluating
    /// it. State left behind by earlier runs is visible to the script, and
    /// everything the script leaves behind — including all pending work it
    /// caused, driven to quiescence — is visible to the next call before
    /// this one returns.
    pub fn run_script(&mut self, report: EvalReport, shape: &Shape) -> (r: Result<
        HostValue,
        HarnessError,
    >)
        ensures
            final(self)@ == spec_run_script(old(self)@, report@, *shape).0,
            host_result_view(r) == spec_run_script(old(self)@, report@, *shape).1,
    {
        if self.busy {
            return Err(HarnessError::ContextBusy);
        }
        let EvalReport { effects, completion } = report;
        self.apply_effects(effects);
        match completion {
            Completion::Threw(m) => Err(HarnessError::ScriptExecution { message: m }),
            Completion::Value(v) => {
                self.drain();
                match v {
                    DynValue::Pending(h) => match Self::find_settlement(&self.settled, h, 0) {
                        Some(settlement) => match settlement {
                            Settlement::Fulfilled(sv) => {
                                match crate::marshal::from_dynamic(sv, shape) {
                                    Ok(out) => Ok(out),
                                    Err(e) => Err(HarnessError::Conversion(e)),
                                }
                            },
                            Settlement::Rejected(m) => Err(
                                HarnessError::ScriptExecution { message: m.clone() },
                            ),
                        },
                        None => Err(
                            HarnessError::ScriptExecution {
                                message: "pending value did not settle before quiescence".to_owned(),
                            },
                        ),
                    },
                    other => match crate::marshal::from_dynamic(&other, shape) {
                        Ok(out) => Ok(out),
                        Err(e) => Err(HarnessError::Conversion(e)),
                    },
                }
            },
        }
    }
}

/// How a module body's evaluation completed: with the module's public
/// namespace, or by raising.
#[derive(Debug, PartialEq, Eq)]
pub enum ModuleCompletion {
    Evaluated(Vec<(String, DynValue)>),
    Threw(String),
}

/// Spec-level picture of a module completion.
pub enum ModuleCompletionView {
    Evaluated(Seq<(Seq<char>, DynValueView)>),
    Threw(Seq<char>),
}

impl View for ModuleCompletion {
    type V = ModuleCompletionView;

    open spec fn view(&self) -> ModuleCompletionView {
        match self {
            ModuleCompletion::Evaluated(ex) => ModuleCompletionView::Evaluated(
                field_views(ex@),
            ),
            ModuleCompletion::Threw(m) => ModuleCompletionView::Threw(m@),
        }
    }
}

/// The engine's account of linking and evaluating one module: the
/// dependency identifiers its source declares (resolved through the
/// external module loader), the effects of evaluating its body, and how
/// evaluation completed.
#[derive(Debug, PartialEq, Eq)]
pub struct ModuleRun {
    pub deps: Vec<String>,
    pub effects: GuestEffects,
    pub completion: ModuleCompletion,
}

/// Spec-level picture of a module run.
pub struct ModuleRunView {
    pub deps: Seq<Seq<char>>,
    pub effects: crate::effects::EffectsView,
    pub completion: ModuleCompletionView,
}

impl View for ModuleRun {
    type V = ModuleRunView;

    open spec fn view(&self) -> ModuleRunView {
        ModuleRunView {
            deps: self.deps.deep_view(),
            effects: self.effects@,
            completion: self.completion@,
        }
    }
}

/// A handle to a registered module: its position in its context's module
/// table and the lifecycle state its run left it in.
#[derive(Debug, PartialEq, Eq, Structural, Clone, Copy)]
pub struct ModuleHandle {
    pub index: usize,
    pub state: ModuleState,
}

/// Position of the module registered under `id` at or after `i`, if any.
pub open spec fn spec_module_position(ms: Seq<ModuleView>, id: Seq<char>, i: int) -> Option<int>
    decreases ms.len() - i,
{
    if i < 0 || i >= ms.len() {
        None
    } else if ms[i].id == id {
        Some(i)
    } else {
        spec_module_position(ms, id, i + 1)
    }
}

/// The first declared dependency, at or after `i`, that is not present in
/// the module table in the `Evaluated` state, if any.
pub open spec fn spec_first_bad_dep(ms: Seq<ModuleView>, deps: Seq<Seq<char>>, i: int) -> Option<
    Seq<char>,
>
    decreases deps.len() - i,
{
    if i < 0 || i >= deps.len() {
        None
    } else {
        match spec_module_position(ms, deps[i], 0) {
            None => Some(deps[i]),
            Some(p) => if ms[p].state != ModuleState::Evaluated {
                Some(deps[i])
            } else {
                spec_first_bad_dep(ms, deps, i + 1)
            },
        }
    }
}

/// The table entry a failed module run leaves behind.
pub open spec fn failed_module_view(id: Seq<char>, src: Seq<char>, cause: Seq<char>) -> ModuleView {
    ModuleView {
        id,
        source: src,
        state: ModuleState::Failed,
        exports: Seq::empty(),
        failure: Some(cause),
    }
}

/// The table entry a successful module run leaves behind.
pub open spec fn evaluated_module_view(
    id: Seq<char>,
    src: Seq<char>,
    exports: Seq<(Seq<char>, DynValueView)>,
) -> ModuleView {
    ModuleView { id, source: src, state: ModuleState::Evaluated, exports, failure: None }
}

/// What a module run returns and what it leaves behind. The run is
/// rejected while the context is busy, and an already-taken identifier is
/// a caller error, never silently overwritten. A dependency that is not
/// registered and evaluated fails the module during linking. Otherwise
/// the body's effects land on the context, the queue is driven to
/// quiescence, and the module is recorded as `Evaluated` with its public
/// namespace, or as `Failed` with the guest-reported cause — terminally:
/// nothing ever retries or re-registers that identifier.
pub open spec fn spec_run_module(
    c: ContextView,
    id: Seq<char>,
    src: Seq<char>,
    run: ModuleRunView,
) -> (ContextView, Result<ModuleHandle, HarnessErrorView>) {
    if c.busy {
        (c, Err(HarnessErrorView::ContextBusy))
    } else if spec_module_position(c.modules, id, 0) is Some {
        (c, Err(HarnessErrorView::DuplicateModule { id }))
    } else {
        match spec_first_bad_dep(c.modules, run.deps, 0) {
            Some(d) => (
                ContextView { modules: c.modules.push(failed_module_view(id, src, d)), ..c },
                Err(HarnessErrorView::ModuleEvaluation { message: d }),
            ),
            None => {
                let c1 = spec_drain(spec_apply_effects(c, run.effects));
                match run.completion {
                    ModuleCompletionView::Threw(m) => (
                        ContextView {
                            modules: c1.modules.push(failed_module_view(id, src, m)),
                            ..c1
                        },
                        Err(HarnessErrorView::ModuleEvaluation { message: m }),
                    ),
                    ModuleCompletionView::Evaluated(ex) => (
                        ContextView {
                            modules: c1.modules.push(evaluated_module_view(id, src, ex)),
                            ..c1
                        },
                        Ok(
                            ModuleHandle {
                                index: c1.modules.len() as usize,
                                state: ModuleState::Evaluated,
                            },
                        ),
                    ),
                }
            },
        }
    }
}

/// The spec-level picture of an executable module-run result.
pub open spec fn module_result_view(r: Result<ModuleHandle, HarnessError>) -> Result<
    ModuleHandle,
    HarnessErrorView,
> {
    match r {
        Ok(h) => Ok(h),
        Err(e) => Err(e@),
    }
}

/// What reading a module export returns: rejected unless the handle names
/// a table entry in the `Evaluated` state; then the named binding of the
/// module's public namespace, marshalled against the shape, or a missing
/// export surfaced by name. The context is read, never changed, so equal
/// calls after evaluation return equal results.
pub open spec fn spec_get_export(
    c: ContextView,
    h: ModuleHandle,
    name: Seq<char>,
    s: Shape,
) -> Result<HostValueView, HarnessErrorView> {
    if h.index >= c.modules.len() {
        Err(HarnessErrorView::InvalidState { state: h.state })
    } else {
        let m = c.modules[h.index as int];
        if m.state != ModuleState::Evaluated {
            Err(HarnessErrorView::InvalidState { state: m.state })
        } else {
            match spec_lookup_from(m.exports, name, 0) {
                None => Err(HarnessErrorView::ExportNotFound { name }),
                Some(v) => marshal_outcome(v, s),
            }
        }
    }
}

impl ExecutionContext {
    /// Position of the module registered under `id` at or after `i`.
    fn module_position(ms: &Vec<Module>, id: &String, i: usize) -> (r: Option<usize>)
        requires
            i <= ms@.len(),
        ensures
            match r {
                Some(p) => i <= p < ms@.len() && spec_module_position(
                    crate::module::module_views(ms@),
                    id@,
                    i as int,
                ) == Some(p as int),
                None => spec_module_position(crate::module::module_views(ms@), id@, i as int)
                    is None,
            },
        decreases ms@.len() - i,
    {
        proof {
            lemma_module_views_index(ms@);
        }
        if i == ms.len() {
            None
        } else if ms[i].id == *id {
            Some(i)
        } else {
            Self::module_position(ms, id, i + 1)
        }
    }

    /// The first declared dependency at or after `i` that is not present
    /// and evaluated.
    fn first_bad_dep<'a>(ms: &Vec<Module>, deps: &'a Vec<String>, i: usize) -> (r: Option<
        &'a String,
    >)
        requires
            i <= deps@.len(),
        ensures
            match r {
                Some(d) => spec_first_bad_dep(
                    crate::module::module_views(ms@),
                    deps.deep_view(),
                    i as int,
                ) == Some(d@),
                None => spec_first_bad_dep(
                    crate::module::module_views(ms@),
                    deps.deep_view(),
                    i as int,
                ) is None,
            },
        decreases deps@.len() - i,
    {
        proof {
            lemma_module_views_index(ms@);
            assert(deps.deep_view().len() == deps@.len());
        }
        if i == deps.len() {
            None
        } else {
            proof {
                assert(deps.deep_view()[i as int] == deps@[i as int]@);
            }
            match Self::module_position(ms, &deps[i], 0) {
                None => Some(&deps[i]),
                Some(p) => {
                    if ms[p].state == ModuleState::Evaluated {
                        Self::first_bad_dep(ms, deps, i + 1)
                    } else {
                        Some(&deps[i])
                    }
                },
            }
        }
    }

    /// Registers `source` under `identifier` in this context's module
    /// table, drives the module through linking and evaluation as the
    /// engine's account reports it, drains all pending work to quiescence,
    /// and records the terminal state.
    pub fn run_module(&mut self, identifier: String, source: String, run: ModuleRun) -> (r: Result<
        ModuleHandle,
        HarnessError,
    >)
        ensures
            final(self)@ == spec_run_module(old(self)@, identifier@, source@, run@).0,
            module_result_view(r) == spec_run_module(old(self)@, identifier@, source@, run@).1,
    {
        if self.busy {
            return Err(HarnessError::ContextBusy);
        }
        if Self::module_position(&self.modules, &identifier, 0).is_some() {
            return Err(HarnessError::DuplicateModule { id: identifier });
        }
        let mut entry = Module {
            id: identifier,
            source,
            state: ModuleState::Registered,
            exports: Vec::new(),
            failure: None,
        };
        entry.state = ModuleState::Linking;
        let ModuleRun { deps, effects, completion } = run;
        match Self::first_bad_dep(&self.modules, &deps, 0) {
            Some(dep) => {
                let cause = dep.clone();
                entry.state = ModuleState::Failed;
                entry.failure = Some(cause.clone());
                let ghost ms0 = self.modules@;
                self.modules.push(entry);
                proof {
                    lemma_module_views_index(ms0);
                    lemma_module_views_index(self.modules@);
                    assert(crate::module::module_views(self.modules@)
                        =~= crate::module::module_views(ms0).push(
                        module_view(self.modules@[ms0.len() as int]),
                    ));
                    assert(field_views(self.modules@[ms0.len() as int].exports@)
                        =~= Seq::<(Seq<char>, DynValueView)>::empty());
                }
                Err(HarnessError::ModuleEvaluation { message: cause })
            },
            None => {
                entry.state = ModuleState::Evaluating;
                self.apply_effects(effects);
                self.drain();
                match completion {
                    ModuleCompletion::Threw(message) => {
                        entry.state = ModuleState::Failed;
                        entry.failure = Some(message.clone());
                        let ghost ms1 = self.modules@;
                        self.modules.push(entry);
                        proof {
                            lemma_module_views_index(ms1);
                            lemma_module_views_index(self.modules@);
                            assert(crate::module::module_views(self.modules@)
                                =~= crate::module::module_views(ms1).push(
                                module_view(self.modules@[ms1.len() as int]),
                            ));
                            assert(field_views(self.modules@[ms1.len() as int].exports@)
                                =~= Seq::<(Seq<char>, DynValueView)>::empty());
                        }
                        Err(HarnessError::ModuleEvaluation { message })
                    },
                    ModuleCompletion::Evaluated(exports) => {
                        entry.state = ModuleState::Evaluated;
                        entry.exports = exports;
                        let index = self.modules.len();
                        let ghost ms1 = self.modules@;
                        self.modules.push(entry);
                        proof {
                            lemma_module_views_index(ms1);
                            lemma_module_views_index(self.modules@);
                            assert(crate::module::module_views(self.modules@)
                                =~= crate::module::module_views(ms1).push(
                                module_view(self.modules@[ms1.len() as int]),
                            ));
                        }
                        Ok(ModuleHandle { index, state: ModuleState::Evaluated })
                    },
                }
            },
        }
    }

    /// Reads the named binding out of an evaluated module's public
    /// namespace and marshals it against the shape. The context is not
    /// changed; repeated calls after evaluation return the same result.
    pub fn get_export(&self, handle: ModuleHandle, name: &String, shape: &Shape) -> (r: Result<
        HostValue,
        HarnessError,
    >)
        ensures
            host_result_view(r) == spec_get_export(self@, handle, name@, *shape),
    {
        proof {
            lemma_module_views_index(self.modules@);
        }
        if handle.index >= self.modules.len() {
            return Err(HarnessError::InvalidState { state: handle.state });
        }
        let m = &self.modules[handle.index];
        match m.state {
            ModuleState::Evaluated => match crate::marshal::lookup_field(&m.exports, name, 0) {
                None => Err(HarnessError::ExportNotFound { name: name.clone() }),
                Some(v) => match crate::marshal::from_dynamic(v, shape) {
                    Ok(out) => Ok(out),
                    Err(e) => Err(HarnessError::Conversion(e)),
                },
            },
            other => Err(HarnessError::InvalidState { state: other }),
        }
    }
}

} // verus!
