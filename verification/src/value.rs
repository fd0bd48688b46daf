//! Dynamic guest values and their statically-typed host counterparts.

use vstd::prelude::*;

verus! {

broadcast use vstd::std_specs::vec::group_vec_axioms, vstd::seq::group_seq_axioms;

/// Spec-level picture of a dynamic guest value.
pub enum DynValueView {
    Null,
    Bool(bool),
    Int(i64),
    Str(Seq<char>),
    Array(Seq<DynValueView>),
    Object(Seq<(Seq<char>, DynValueView)>),
    Function(u64),
    Pending(u64),
}

/// A value in a context's dynamic value graph: a tagged variant covering
/// primitives, objects, arrays, functions and pending (promise-like) handles.
///
/// `Function` and `Pending` carry opaque handles into the guest engine;
/// a `Pending` handle settles only as the context's pending-work queue runs.
#[derive(Debug, PartialEq, Eq)]
pub enum DynValue {
    Null,
    Bool(bool),
    Int(i64),
    Str(String),
    Array(Vec<DynValue>),
    Object(Vec<(String, DynValue)>),
    Function(u64),
    Pending(u64),
}

/// The spec-level picture of a dynamic value: strings become character
/// sequences, arrays and objects become sequences of pictured elements.
pub open spec fn dyn_view(v: DynValue) -> DynValueView
    decreases v,
{
    match v {
        DynValue::Null => DynValueView::Null,
        DynValue::Bool(b) => DynValueView::Bool(b),
        DynValue::Int(n) => DynValueView::Int(n),
        DynValue::Str(s) => DynValueView::Str(s@),
        DynValue::Array(es) => DynValueView::Array(dyn_views(es@)),
        DynValue::Object(fs) => DynValueView::Object(field_views(fs@)),
        DynValue::Function(h) => DynValueView::Function(h),
        DynValue::Pending(h) => DynValueView::Pending(h),
    }
}

/// Element-wise picture of a sequence of dynamic values.
pub open spec fn dyn_views(s: Seq<DynValue>) -> Seq<DynValueView>
    decreases s,
{
    if s.len() == 0 {
        Seq::empty()
    } else {
        seq![dyn_view(s[0])] + dyn_views(s.drop_first())
    }
}

/// Element-wise picture of an object's field list.
pub open spec fn field_views(s: Seq<(String, DynValue)>) -> Seq<(Seq<char>, DynValueView)>
    decreases s,
{
    if s.len() == 0 {
        Seq::empty()
    } else {
        seq![(s[0].0@, dyn_view(s[0].1))] + field_views(s.drop_first())
    }
}

impl View for DynValue {
    type V = DynValueView;

    open spec fn view(&self) -> DynValueView {
        dyn_view(*self)
    }
}

pub proof fn lemma_dyn_views_index(s: Seq<DynValue>)
    ensures
        dyn_views(s).len() == s.len(),
        forall|i: int| 0 <= i < s.len() ==> #[trigger] dyn_views(s)[i] == dyn_view(s[i]),
    decreases s.len(),
{
    if s.len() > 0 {
        lemma_dyn_views_index(s.drop_first());
    }
}

pub proof fn lemma_field_views_index(s: Seq<(String, DynValue)>)
    ensures
        field_views(s).len() == s.len(),
        forall|i: int|
            0 <= i < s.len() ==> #[trigger] field_views(s)[i] == (s[i].0@, dyn_view(s[i].1)),
    decreases s.len(),
{
    if s.len() > 0 {
        lemma_field_views_index(s.drop_first());
    }
}

pub proof fn lemma_field_views_concat(a: Seq<(String, DynValue)>, b: Seq<(String, DynValue)>)
    ensures
        field_views(a + b) == field_views(a) + field_views(b),
    decreases a.len(),
{
    if a.len() == 0 {
        assert(a + b =~= b);
        assert(field_views(a) + field_views(b) =~= field_views(b));
    } else {
        assert((a + b).drop_first() =~= a.drop_first() + b);
        lemma_field_views_concat(a.drop_first(), b);
        assert((a + b)[0] == a[0]);
        assert(field_views(a + b) =~= field_views(a) + field_views(b));
    }
}

/// Spec-level picture of a marshalled host value.
pub enum HostValueView {
    Null,
    Bool(bool),
    Int(i64),
    Str(Seq<char>),
    Array(Seq<HostValueView>),
    Object(Seq<(Seq<char>, HostValueView)>),
}

/// A host-owned, statically-typed value produced by marshalling a dynamic
/// value against a shape, or handed to the context after the reverse
/// conversion. Unlike a dynamic value it can hold no function and no
/// pending handle: it is plain data the host fully owns.
#[derive(Debug, PartialEq, Eq)]
pub enum HostValue {
    Null,
    Bool(bool),
    Int(i64),
    Str(String),
    Array(Vec<HostValue>),
    Object(Vec<(String, HostValue)>),
}

/// The spec-level picture of a host value.
pub open spec fn host_view(h: HostValue) -> HostValueView
    decreases h,
{
    match h {
        HostValue::Null => HostValueView::Null,
        HostValue::Bool(b) => HostValueView::Bool(b),
        HostValue::Int(n) => HostValueView::Int(n),
        HostValue::Str(s) => HostValueView::Str(s@),
        HostValue::Array(es) => HostValueView::Array(host_views(es@)),
        HostValue::Object(fs) => HostValueView::Object(host_field_views(fs@)),
    }
}

/// Element-wise picture of a sequence of host values.
pub open spec fn host_views(s: Seq<HostValue>) -> Seq<HostValueView>
    decreases s,
{
    if s.len() == 0 {
        Seq::empty()
    } else {
        seq![host_view(s[0])] + host_views(s.drop_first())
    }
}

/// Element-wise picture of a host object's field list.
pub open spec fn host_field_views(s: Seq<(String, HostValue)>) -> Seq<(Seq<char>, HostValueView)>
    decreases s,
{
    if s.len() == 0 {
        Seq::empty()
    } else {
        seq![(s[0].0@, host_view(s[0].1))] + host_field_views(s.drop_first())
    }
}

impl View for HostValue {
    type V = HostValueView;

    open spec fn view(&self) -> HostValueView {
        host_view(*self)
    }
}

pub proof fn lemma_host_views_index(s: Seq<HostValue>)
    ensures
        host_views(s).len() == s.len(),
        forall|i: int| 0 <= i < s.len() ==> #[trigger] host_views(s)[i] == host_view(s[i]),
    decreases s.len(),
{
    if s.len() > 0 {
        lemma_host_views_index(s.drop_first());
    }
}

pub proof fn lemma_host_field_views_index(s: Seq<(String, HostValue)>)
    ensures
        host_field_views(s).len() == s.len(),
        forall|i: int|
            0 <= i < s.len() ==> #[trigger] host_field_views(s)[i] == (
                s[i].0@,
                host_view(s[i].1),
            ),
    decreases s.len(),
{
    if s.len() > 0 {
        lemma_host_field_views_index(s.drop_first());
    }
}

} // verus!
