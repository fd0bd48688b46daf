//! Modules: registered units of guest source with a monotonic
//! evaluation-state lifecycle.

use vstd::prelude::*;

use crate::value::{field_views, DynValue, DynValueView};

verus! {

/// The lifecycle state of a registered module. Transitions only ever move
/// forward: `Registered -> Linking -> Evaluating -> Evaluated | Failed`.
#[derive(Debug, PartialEq, Eq, Structural, Clone, Copy)]
pub enum ModuleState {
    Registered,
    Linking,
    Evaluating,
    Evaluated,
    Failed,
}

/// How far along the lifecycle a state is; both terminal states rank last.
pub open spec fn state_rank(s: ModuleState) -> nat {
    match s {
        ModuleState::Registered => 0,
        ModuleState::Linking => 1,
        ModuleState::Evaluating => 2,
        ModuleState::Evaluated => 3,
        ModuleState::Failed => 3,
    }
}

/// A registered unit of guest module source, owned by its context's module
/// table. On success its public namespace is recorded in `exports`; on
/// failure the guest-reported cause is kept in `failure`.
#[derive(Debug, PartialEq, Eq)]
pub struct Module {
    pub id: String,
    pub source: String,
    pub state: ModuleState,
    pub exports: Vec<(String, DynValue)>,
    pub failure: Option<String>,
}

/// Spec-level picture of a module.
pub struct ModuleView {
    pub id: Seq<char>,
    pub source: Seq<char>,
    pub state: ModuleState,
    pub exports: Seq<(Seq<char>, DynValueView)>,
    pub failure: Option<Seq<char>>,
}

pub open spec fn module_view(m: Module) -> ModuleView {
    ModuleView {
        id: m.id@,
        source: m.source@,
        state: m.state,
        exports: field_views(m.exports@),
        failure: match m.failure {
            Some(s) => Some(s@),
            None => None,
        },
    }
}

pub open spec fn module_views(s: Seq<Module>) -> Seq<ModuleView>
    decreases s.len(),
{
    if s.len() == 0 {
        Seq::empty()
    } else {
        seq![module_view(s[0])] + module_views(s.drop_first())
    }
}

impl View for Module {
    type V = ModuleView;

    open spec fn view(&self) -> ModuleView {
        module_view(*self)
    }
}

pub proof fn lemma_module_views_index(s: Seq<Module>)
    ensures
        module_views(s).len() == s.len(),
        forall|i: int| 0 <= i < s.len() ==> #[trigger] module_views(s)[i] == module_view(s[i]),
    decreases s.len(),
{
    if s.len() > 0 {
        lemma_module_views_index(s.drop_first());
    }
}

} // verus!
