//! The value marshaller: schema-driven conversion between dynamic guest
//! values and statically-typed host values, in both directions.
//!
//! Guest-to-host conversion validates a dynamic value against a shape and
//! reports, on failure, the exact path to the offending element. Integers
//! cross the boundary only when they are exactly representable on both
//! sides; anything outside that range is rejected, never truncated.

use vstd::prelude::*;

use crate::shape::{kind_of_dyn, kind_of_shape, Kind, Shape};
use crate::value::{
    dyn_view, dyn_views, field_views, host_field_views, host_view, host_views, DynValue,
    DynValueView, HostValue, HostValueView,
};

verus! {

broadcast use vstd::std_specs::vec::group_vec_axioms, vstd::seq::group_seq_axioms;

/// The largest guest integer exactly representable on both sides of the
/// boundary (the guest counts in double-precision floating point).
pub const MAX_SAFE_INT: i64 = 9007199254740991;

/// The smallest such integer.
pub const MIN_SAFE_INT: i64 = -9007199254740991;

/// Whether an integer is exactly representable on both sides.
pub open spec fn safe_int(n: i64) -> bool {
    MIN_SAFE_INT <= n <= MAX_SAFE_INT
}

/// One step on the path from the root of a value to the element a
/// conversion diagnostic is about: an object field or an array index.
#[derive(Debug, PartialEq, Eq)]
pub enum PathSeg {
    Field(String),
    Index(usize),
}

/// Spec-level picture of a path step.
pub enum PathSegView {
    Field(Seq<char>),
    Index(int),
}

impl View for PathSeg {
    type V = PathSegView;

    open spec fn view(&self) -> PathSegView {
        match self {
            PathSeg::Field(name) => PathSegView::Field(name@),
            PathSeg::Index(i) => PathSegView::Index(*i as int),
        }
    }
}

impl DeepView for PathSeg {
    type V = PathSegView;

    open spec fn deep_view(&self) -> PathSegView {
        self.view()
    }
}

/// Why a dynamic value failed to match a shape at some path.
#[derive(Debug, PartialEq, Eq, Structural, Clone, Copy)]
pub enum Mismatch {
    /// The value at the path has a different kind than the shape expects.
    WrongKind { expected: Kind, actual: Kind },
    /// The object at the path lacks the required field the path ends with.
    MissingField,
    /// The integer at the path is outside the exactly-representable range.
    UnsafeInt,
}

/// A conversion failure: the path from the root of the value to the
/// offending element, and what was wrong there.
#[derive(Debug, PartialEq, Eq)]
pub struct ConversionError {
    pub path: Vec<PathSeg>,
    pub mismatch: Mismatch,
}

/// Spec-level picture of a conversion failure.
pub struct ConversionErrorView {
    pub path: Seq<PathSegView>,
    pub mismatch: Mismatch,
}

impl View for ConversionError {
    type V = ConversionErrorView;

    open spec fn view(&self) -> ConversionErrorView {
        ConversionErrorView { path: self.path.deep_view(), mismatch: self.mismatch }
    }
}

/// A failure of a child value, reported one path step further from the root.
pub open spec fn err_under(seg: PathSegView, e: ConversionErrorView) -> ConversionErrorView {
    ConversionErrorView { path: seq![seg] + e.path, mismatch: e.mismatch }
}

/// A kind mismatch at the root of the value under conversion.
pub open spec fn wrong_kind(s: Shape, d: DynValueView) -> ConversionErrorView {
    ConversionErrorView {
        path: Seq::empty(),
        mismatch: Mismatch::WrongKind { expected: kind_of_shape(s), actual: kind_of_dyn(d) },
    }
}

/// An unsafe integer at the root of the value under conversion.
pub open spec fn unsafe_int_err() -> ConversionErrorView {
    ConversionErrorView { path: Seq::empty(), mismatch: Mismatch::UnsafeInt }
}

/// First binding of `name` at or after position `i` in an object's field
/// list, if any.
pub open spec fn spec_lookup_from(
    fields: Seq<(Seq<char>, DynValueView)>,
    name: Seq<char>,
    i: int,
) -> Option<DynValueView>
    decreases fields.len() - i,
{
    if i < 0 || i >= fields.len() {
        None
    } else if fields[i].0 == name {
        Some(fields[i].1)
    } else {
        spec_lookup_from(fields, name, i + 1)
    }
}

/// First binding of `name` in an object's field list, if any.
pub open spec fn spec_lookup(fields: Seq<(Seq<char>, DynValueView)>, name: Seq<char>) -> Option<
    DynValueView,
> {
    spec_lookup_from(fields, name, 0)
}

/// What guest-to-host conversion returns: the host value of shape `s`
/// mirroring `d`, or the first failure in a left-to-right walk.
pub open spec fn spec_from_dynamic(d: DynValueView, s: Shape) -> Result<
    HostValueView,
    ConversionErrorView,
>
    decreases s, 0int,
{
    match s {
        Shape::Null => match d {
            DynValueView::Null => Ok(HostValueView::Null),
            _ => Err(wrong_kind(s, d)),
        },
        Shape::Bool => match d {
            DynValueView::Bool(b) => Ok(HostValueView::Bool(b)),
            _ => Err(wrong_kind(s, d)),
        },
        Shape::Int => match d {
            DynValueView::Int(n) => if safe_int(n) {
                Ok(HostValueView::Int(n))
            } else {
                Err(unsafe_int_err())
            },
            _ => Err(wrong_kind(s, d)),
        },
        Shape::Str => match d {
            DynValueView::Str(cs) => Ok(HostValueView::Str(cs)),
            _ => Err(wrong_kind(s, d)),
        },
        Shape::Array(es) => match d {
            DynValueView::Array(ds) => match spec_from_elems(ds, *es, 0) {
                Ok(hs) => Ok(HostValueView::Array(hs)),
                Err(e) => Err(e),
            },
            _ => Err(wrong_kind(s, d)),
        },
        Shape::Object(sf) => match d {
            DynValueView::Object(df) => match spec_from_fields(df, sf@, 0) {
                Ok(hf) => Ok(HostValueView::Object(hf)),
                Err(e) => Err(e),
            },
            _ => Err(wrong_kind(s, d)),
        },
    }
}

/// Converts the elements of a dynamic array from index `i` on, each against
/// the element shape `es`; a failure at element `j` carries path step `[j]`.
pub open spec fn spec_from_elems(ds: Seq<DynValueView>, es: Shape, i: int) -> Result<
    Seq<HostValueView>,
    ConversionErrorView,
>
    decreases es, ds.len() - i,
{
    if i < 0 || i >= ds.len() {
        Ok(Seq::empty())
    } else {
        match spec_from_dynamic(ds[i], es) {
            Err(e) => Err(err_under(PathSegView::Index(i), e)),
            Ok(h) => match spec_from_elems(ds, es, i + 1) {
                Err(e) => Err(e),
                Ok(rest) => Ok(seq![h] + rest),
            },
        }
    }
}

/// Converts the fields an object shape requires, from field `i` of the
/// shape on, looking each name up in the dynamic object's field list.
/// A missing binding fails with path step `.name`; so does a failure
/// inside the bound value.
pub open spec fn spec_from_fields(
    df: Seq<(Seq<char>, DynValueView)>,
    sf: Seq<(String, Shape)>,
    i: int,
) -> Result<Seq<(Seq<char>, HostValueView)>, ConversionErrorView>
    decreases sf, sf.len() - i,
{
    if i < 0 || i >= sf.len() {
        Ok(Seq::empty())
    } else {
        let name = sf[i].0@;
        match spec_lookup(df, name) {
            None => Err(
                ConversionErrorView {
                    path: seq![PathSegView::Field(name)],
                    mismatch: Mismatch::MissingField,
                },
            ),
            Some(dv) => match spec_from_dynamic(dv, sf[i].1) {
                Err(e) => Err(err_under(PathSegView::Field(name), e)),
                Ok(hv) => match spec_from_fields(df, sf, i + 1) {
                    Err(e) => Err(e),
                    Ok(rest) => Ok(seq![(name, hv)] + rest),
                },
            },
        }
    }
}

/// What host-to-guest conversion returns: the structural mirror of `h` in
/// the guest's representation, or a rejection of an unsafe integer.
pub open spec fn spec_to_dynamic(h: HostValueView) -> Result<DynValueView, ConversionErrorView>
    decreases h, 0int,
{
    match h {
        HostValueView::Null => Ok(DynValueView::Null),
        HostValueView::Bool(b) => Ok(DynValueView::Bool(b)),
        HostValueView::Int(n) => if safe_int(n) {
            Ok(DynValueView::Int(n))
        } else {
            Err(unsafe_int_err())
        },
        HostValueView::Str(cs) => Ok(DynValueView::Str(cs)),
        HostValueView::Array(hs) => match spec_to_elems(hs, 0) {
            Ok(ds) => Ok(DynValueView::Array(ds)),
            Err(e) => Err(e),
        },
        HostValueView::Object(hf) => match spec_to_fields(hf, 0) {
            Ok(df) => Ok(DynValueView::Object(df)),
            Err(e) => Err(e),
        },
    }
}

/// Converts host array elements from index `i` on.
pub open spec fn spec_to_elems(hs: Seq<HostValueView>, i: int) -> Result<
    Seq<DynValueView>,
    ConversionErrorView,
>
    decreases hs, hs.len() - i,
{
    if i < 0 || i >= hs.len() {
        Ok(Seq::empty())
    } else {
        match spec_to_dynamic(hs[i]) {
            Err(e) => Err(err_under(PathSegView::Index(i), e)),
            Ok(d) => match spec_to_elems(hs, i + 1) {
                Err(e) => Err(e),
                Ok(rest) => Ok(seq![d] + rest),
            },
        }
    }
}

/// Converts host object fields from field `i` on.
pub open spec fn spec_to_fields(hf: Seq<(Seq<char>, HostValueView)>, i: int) -> Result<
    Seq<(Seq<char>, DynValueView)>,
    ConversionErrorView,
>
    decreases hf, hf.len() - i,
{
    if i < 0 || i >= hf.len() {
        Ok(Seq::empty())
    } else {
        match spec_to_dynamic(hf[i].1) {
            Err(e) => Err(err_under(PathSegView::Field(hf[i].0), e)),
            Ok(d) => match spec_to_fields(hf, i + 1) {
                Err(e) => Err(e),
                Ok(rest) => Ok(seq![(hf[i].0, d)] + rest),
            },
        }
    }
}

/// Whether a host value has the given shape: kinds agree throughout, every
/// integer is exactly representable, and an object lists exactly the
/// shape's fields, in the shape's order, under distinct names.
pub open spec fn matches_shape(h: HostValueView, s: Shape) -> bool
    decreases s, 0int,
{
    match s {
        Shape::Null => h is Null,
        Shape::Bool => h is Bool,
        Shape::Int => h matches HostValueView::Int(n) && safe_int(n),
        Shape::Str => h is Str,
        Shape::Array(es) => h matches HostValueView::Array(hs) && matches_elems(hs, *es, 0),
        Shape::Object(sf) => h matches HostValueView::Object(hf) && hf.len() == sf@.len()
            && distinct_names(sf@) && matches_fields(hf, sf@, 0),
    }
}

/// Whether the elements from index `i` on all have shape `es`.
pub open spec fn matches_elems(hs: Seq<HostValueView>, es: Shape, i: int) -> bool
    decreases es, hs.len() - i,
{
    if i < 0 || i >= hs.len() {
        true
    } else {
        matches_shape(hs[i], es) && matches_elems(hs, es, i + 1)
    }
}

/// Whether the host object's fields from index `i` on carry the shape's
/// names in the shape's order and match the shape's field shapes.
pub open spec fn matches_fields(
    hf: Seq<(Seq<char>, HostValueView)>,
    sf: Seq<(String, Shape)>,
    i: int,
) -> bool
    decreases sf, sf.len() - i,
{
    if i < 0 || i >= sf.len() {
        true
    } else {
        i < hf.len() && hf[i].0 == sf[i].0@ && matches_shape(hf[i].1, sf[i].1) && matches_fields(
            hf,
            sf,
            i + 1,
        )
    }
}

/// Whether an object shape's field names are pairwise distinct.
pub open spec fn distinct_names(sf: Seq<(String, Shape)>) -> bool {
    forall|j: int, k: int| 0 <= j < k < sf.len() ==> sf[j].0@ != sf[k].0@
}

/// A conversion failure at the root of the value, with an empty path.
fn root_error(m: Mismatch) -> (r: ConversionError)
    ensures
        r@ == (ConversionErrorView { path: Seq::<PathSegView>::empty(), mismatch: m }),
{
    let e = ConversionError { path: Vec::new(), mismatch: m };
    proof {
        assert(e@.path =~= Seq::<PathSegView>::empty());
    }
    e
}

/// Reports a child's conversion failure one path step further from the root.
fn error_under(seg: PathSeg, e: ConversionError) -> (r: ConversionError)
    ensures
        r@ == err_under(seg@, e@),
{
    let ghost old_path = e.path@;
    let ghost old_deep = e.path.deep_view();
    let mut e2 = e;
    e2.path.insert(0, seg);
    proof {
        old_path.insert_ensures(0, seg);
        assert(e2.path.deep_view() =~= seq![seg@] + old_deep);
    }
    e2
}

/// The spec-level picture of an executable guest-to-host conversion result.
pub open spec fn from_result_view(r: Result<HostValue, ConversionError>) -> Result<
    HostValueView,
    ConversionErrorView,
> {
    match r {
        Ok(h) => Ok(host_view(h)),
        Err(e) => Err(e@),
    }
}

pub open spec fn elems_result_view(r: Result<Vec<HostValue>, ConversionError>) -> Result<
    Seq<HostValueView>,
    ConversionErrorView,
> {
    match r {
        Ok(v) => Ok(host_views(v@)),
        Err(e) => Err(e@),
    }
}

pub open spec fn fields_result_view(r: Result<Vec<(String, HostValue)>, ConversionError>) -> Result<
    Seq<(Seq<char>, HostValueView)>,
    ConversionErrorView,
> {
    match r {
        Ok(v) => Ok(host_field_views(v@)),
        Err(e) => Err(e@),
    }
}

/// Guest-to-host marshalling: walks the dynamic value and validates it
/// against the shape, producing either the mirroring host value or a
/// diagnostic naming the path to the first offending element.
pub fn from_dynamic(v: &DynValue, s: &Shape) -> (r: Result<HostValue, ConversionError>)
    ensures
        from_result_view(r) == spec_from_dynamic(dyn_view(*v), *s),
    decreases *s, 0int,
{
    match (s, v) {
        (Shape::Null, DynValue::Null) => Ok(HostValue::Null),
        (Shape::Bool, DynValue::Bool(b)) => Ok(HostValue::Bool(*b)),
        (Shape::Int, DynValue::Int(n)) => {
            if MIN_SAFE_INT <= *n && *n <= MAX_SAFE_INT {
                Ok(HostValue::Int(*n))
            } else {
                Err(root_error(Mismatch::UnsafeInt))
            }
        },
        (Shape::Str, DynValue::Str(cs)) => Ok(HostValue::Str(cs.clone())),
        (Shape::Array(es), DynValue::Array(ds)) => match from_elems(ds, es, 0) {
            Ok(hs) => Ok(HostValue::Array(hs)),
            Err(e) => Err(e),
        },
        (Shape::Object(sf), DynValue::Object(df)) => match from_fields(df, sf, 0) {
            Ok(hf) => Ok(HostValue::Object(hf)),
            Err(e) => Err(e),
        },
        _ => Err(
            root_error(Mismatch::WrongKind { expected: s.kind(), actual: v.kind() }),
        ),
    }
}

/// Converts the elements of a dynamic array from index `i` on.
fn from_elems(ds: &Vec<DynValue>, es: &Shape, i: usize) -> (r: Result<
    Vec<HostValue>,
    ConversionError,
>)
    requires
        i <= ds@.len(),
    ensures
        elems_result_view(r) == spec_from_elems(dyn_views(ds@), *es, i as int),
    decreases *es, ds@.len() - i,
{
    proof {
        crate::value::lemma_dyn_views_index(ds@);
    }
    if i == ds.len() {
        Ok(Vec::new())
    } else {
        match from_dynamic(&ds[i], es) {
            Err(e) => Err(error_under(PathSeg::Index(i), e)),
            Ok(h) => match from_elems(ds, es, i + 1) {
                Err(e) => Err(e),
                Ok(rest) => {
                    let ghost old_rest = rest@;
                    let mut out = rest;
                    out.insert(0, h);
                    proof {
                        assert(out@.drop_first() =~= old_rest);
                        assert(host_views(out@) == seq![host_view(h)] + host_views(old_rest));
                    }
                    Ok(out)
                },
            },
        }
    }
}

/// Converts the fields an object shape requires, from field `i` of the
/// shape on.
fn from_fields(df: &Vec<(String, DynValue)>, sf: &Vec<(String, Shape)>, i: usize) -> (r: Result<
    Vec<(String, HostValue)>,
    ConversionError,
>)
    requires
        i <= sf@.len(),
    ensures
        fields_result_view(r) == spec_from_fields(field_views(df@), sf@, i as int),
    decreases sf@, sf@.len() - i,
{
    if i == sf.len() {
        Ok(Vec::new())
    } else {
        let name = &sf[i].0;
        match lookup_field(df, name, 0) {
            None => {
                let e = root_error(Mismatch::MissingField);
                Err(error_under(PathSeg::Field(name.clone()), e))
            },
            Some(dv) => match from_dynamic(dv, &sf[i].1) {
                Err(e) => Err(error_under(PathSeg::Field(name.clone()), e)),
                Ok(hv) => match from_fields(df, sf, i + 1) {
                    Err(e) => Err(e),
                    Ok(rest) => {
                        let ghost old_rest = rest@;
                        let mut out = rest;
                        out.insert(0, (name.clone(), hv));
                        proof {
                            assert(out@.drop_first() =~= old_rest);
                            assert(host_field_views(out@) == seq![(name@, host_view(hv))]
                                + host_field_views(old_rest));
                        }
                        Ok(out)
                    },
                },
            },
        }
    }
}

/// First binding of `name` at or after position `i` in a dynamic object's
/// field list.
pub(crate) fn lookup_field<'a>(df: &'a Vec<(String, DynValue)>, name: &String, i: usize) -> (r: Option<
    &'a DynValue,
>)
    requires
        i <= df@.len(),
    ensures
        match r {
            Some(v) => spec_lookup_from(field_views(df@), name@, i as int) == Some(dyn_view(*v)),
            None => spec_lookup_from(field_views(df@), name@, i as int) is None,
        },
    decreases df@.len() - i,
{
    proof {
        crate::value::lemma_field_views_index(df@);
    }
    if i == df.len() {
        None
    } else if df[i].0 == *name {
        Some(&df[i].1)
    } else {
        lookup_field(df, name, i + 1)
    }
}

/// The spec-level picture of an executable host-to-guest conversion result.
pub open spec fn to_result_view(r: Result<DynValue, ConversionError>) -> Result<
    DynValueView,
    ConversionErrorView,
> {
    match r {
        Ok(d) => Ok(dyn_view(d)),
        Err(e) => Err(e@),
    }
}

pub open spec fn to_elems_result_view(r: Result<Vec<DynValue>, ConversionError>) -> Result<
    Seq<DynValueView>,
    ConversionErrorView,
> {
    match r {
        Ok(v) => Ok(dyn_views(v@)),
        Err(e) => Err(e@),
    }
}

pub open spec fn to_fields_result_view(r: Result<Vec<(String, DynValue)>, ConversionError>) -> Result<
    Seq<(Seq<char>, DynValueView)>,
    ConversionErrorView,
> {
    match r {
        Ok(v) => Ok(field_views(v@)),
        Err(e) => Err(e@),
    }
}

/// Host-to-guest marshalling: the structural mirror of the host value in
/// the guest's representation. Integers outside the exactly-representable
/// range are rejected, never truncated; a host value is a finite tree, so
/// no cycle can reach this boundary.
pub fn to_dynamic(h: &HostValue) -> (r: Result<DynValue, ConversionError>)
    ensures
        to_result_view(r) == spec_to_dynamic(host_view(*h)),
    decreases *h, 0int,
{
    match h {
        HostValue::Null => Ok(DynValue::Null),
        HostValue::Bool(b) => Ok(DynValue::Bool(*b)),
        HostValue::Int(n) => {
            if MIN_SAFE_INT <= *n && *n <= MAX_SAFE_INT {
                Ok(DynValue::Int(*n))
            } else {
                Err(root_error(Mismatch::UnsafeInt))
            }
        },
        HostValue::Str(cs) => Ok(DynValue::Str(cs.clone())),
        HostValue::Array(hs) => match to_elems(hs, 0) {
            Ok(ds) => Ok(DynValue::Array(ds)),
            Err(e) => Err(e),
        },
        HostValue::Object(hf) => match to_fields(hf, 0) {
            Ok(df) => Ok(DynValue::Object(df)),
            Err(e) => Err(e),
        },
    }
}

/// Converts host array elements from index `i` on.
fn to_elems(hs: &Vec<HostValue>, i: usize) -> (r: Result<Vec<DynValue>, ConversionError>)
    requires
        i <= hs@.len(),
    ensures
        to_elems_result_view(r) == spec_to_elems(host_views(hs@), i as int),
    decreases hs@, hs@.len() - i,
{
    proof {
        crate::value::lemma_host_views_index(hs@);
    }
    if i == hs.len() {
        Ok(Vec::new())
    } else {
        match to_dynamic(&hs[i]) {
            Err(e) => Err(error_under(PathSeg::Index(i), e)),
            Ok(d) => match to_elems(hs, i + 1) {
                Err(e) => Err(e),
                Ok(rest) => {
                    let ghost old_rest = rest@;
                    let mut out = rest;
                    out.insert(0, d);
                    proof {
                        assert(out@.drop_first() =~= old_rest);
                        assert(dyn_views(out@) == seq![dyn_view(out@[0])] + dyn_views(old_rest));
                    }
                    Ok(out)
                },
            },
        }
    }
}

/// Converts host object fields from field `i` on.
fn to_fields(hf: &Vec<(String, HostValue)>, i: usize) -> (r: Result<
    Vec<(String, DynValue)>,
    ConversionError,
>)
    requires
        i <= hf@.len(),
    ensures
        to_fields_result_view(r) == spec_to_fields(host_field_views(hf@), i as int),
    decreases hf@, hf@.len() - i,
{
    proof {
        crate::value::lemma_host_field_views_index(hf@);
    }
    if i == hf.len() {
        Ok(Vec::new())
    } else {
        match to_dynamic(&hf[i].1) {
            Err(e) => Err(error_under(PathSeg::Field(hf[i].0.clone()), e)),
            Ok(d) => match to_fields(hf, i + 1) {
                Err(e) => Err(e),
                Ok(rest) => {
                    let ghost old_rest = rest@;
                    let mut out = rest;
                    out.insert(0, (hf[i].0.clone(), d));
                    proof {
                        assert(out@.drop_first() =~= old_rest);
                        assert(field_views(out@) == seq![(out@[0].0@, dyn_view(out@[0].1))]
                            + field_views(old_rest));
                    }
                    Ok(out)
                },
            },
        }
    }
}

/// Round trip: a host value of a representable shape survives conversion
/// into the guest representation and back unchanged.
pub proof fn lemma_round_trip(h: HostValueView, s: Shape)
    requires
        matches_shape(h, s),
    ensures
        spec_to_dynamic(h) matches Ok(d) && spec_from_dynamic(d, s) == Ok::<
            HostValueView,
            ConversionErrorView,
        >(h),
    decreases s, 0int,
{
    match s {
        Shape::Array(es) => {
            let hs = h->Array_0;
            lemma_round_trip_elems(hs, *es, 0);
            assert(hs.skip(0) =~= hs);
        },
        Shape::Object(sf) => {
            let hf = h->Object_0;
            lemma_round_trip_fields(hf, sf@);
        },
        _ => {},
    }
}

proof fn lemma_round_trip_elems(hs: Seq<HostValueView>, es: Shape, i: int)
    requires
        0 <= i <= hs.len(),
        matches_elems(hs, es, i),
    ensures
        spec_to_elems(hs, i) matches Ok(ds) && spec_from_elems(ds, es, 0) == Ok::<
            Seq<HostValueView>,
            ConversionErrorView,
        >(hs.skip(i)),
    decreases es, hs.len() - i,
{
    if i == hs.len() {
        assert(hs.skip(i) =~= Seq::<HostValueView>::empty());
    } else {
        lemma_round_trip(hs[i], es);
        lemma_round_trip_elems(hs, es, i + 1);
        let d0 = spec_to_dynamic(hs[i])->Ok_0;
        let ds1 = spec_to_elems(hs, i + 1)->Ok_0;
        let ds = seq![d0] + ds1;
        assert(spec_to_elems(hs, i) == Ok::<Seq<DynValueView>, ConversionErrorView>(ds));
        lemma_from_elems_shift(d0, ds1, es, 0);
        assert(ds[0] == d0);
        assert(ds.len() == ds1.len() + 1);
        assert(spec_from_elems(ds, es, 1) == Ok::<Seq<HostValueView>, ConversionErrorView>(
            hs.skip(i + 1),
        ));
        assert(seq![hs[i]] + hs.skip(i + 1) =~= hs.skip(i));
    }
}

/// Prefixing one element shifts an element-wise conversion by one index
/// without changing a successful result.
proof fn lemma_from_elems_shift(d0: DynValueView, ds: Seq<DynValueView>, es: Shape, k: int)
    requires
        0 <= k <= ds.len(),
    ensures
        spec_from_elems(ds, es, k) matches Ok(r) ==> spec_from_elems(seq![d0] + ds, es, k + 1)
            == Ok::<Seq<HostValueView>, ConversionErrorView>(r),
    decreases ds.len() - k,
{
    let s2 = seq![d0] + ds;
    assert(s2.len() == ds.len() + 1);
    if k < ds.len() {
        assert(s2[k + 1] == ds[k]);
        lemma_from_elems_shift(d0, ds, es, k + 1);
    }
}

proof fn lemma_round_trip_fields(hf: Seq<(Seq<char>, HostValueView)>, sf: Seq<(String, Shape)>)
    requires
        hf.len() == sf.len(),
        distinct_names(sf),
        matches_fields(hf, sf, 0),
    ensures
        spec_to_fields(hf, 0) matches Ok(df) && spec_from_fields(df, sf, 0) == Ok::<
            Seq<(Seq<char>, HostValueView)>,
            ConversionErrorView,
        >(hf),
    decreases sf, sf.len() + 3,
{
    lemma_matches_fields_index(hf, sf, 0);
    assert forall|j: int| 0 <= j < hf.len() implies #[trigger] spec_to_dynamic(hf[j].1) is Ok by {
        lemma_round_trip(hf[j].1, sf[j].1);
    }
    lemma_to_fields_ok(hf, 0);
    let df = spec_to_fields(hf, 0)->Ok_0;
    assert forall|j: int| 0 <= j < df.len() implies spec_to_dynamic(hf[j].1) == Ok::<
        DynValueView,
        ConversionErrorView,
    >((#[trigger] df[j]).1) && df[j].0 == hf[j].0 by {}
    lemma_from_fields_rt(hf, df, sf, 0);
    assert(hf.skip(0) =~= hf);
}

/// Pointwise reading of a successful field-list match.
proof fn lemma_matches_fields_index(
    hf: Seq<(Seq<char>, HostValueView)>,
    sf: Seq<(String, Shape)>,
    i: int,
)
    requires
        0 <= i <= sf.len(),
        hf.len() == sf.len(),
        matches_fields(hf, sf, i),
    ensures
        forall|j: int|
            i <= j < sf.len() ==> (#[trigger] hf[j]).0 == sf[j].0@ && matches_shape(
                hf[j].1,
                sf[j].1,
            ),
    decreases sf.len() - i,
{
    if i < sf.len() {
        lemma_matches_fields_index(hf, sf, i + 1);
    }
}

/// Pointwise reading of a successful host-to-guest field conversion.
proof fn lemma_to_fields_ok(hf: Seq<(Seq<char>, HostValueView)>, i: int)
    requires
        0 <= i <= hf.len(),
        forall|j: int| i <= j < hf.len() ==> #[trigger] spec_to_dynamic(hf[j].1) is Ok,
    ensures
        spec_to_fields(hf, i) matches Ok(df) && df.len() == hf.len() - i && forall|j: int|
            0 <= j < df.len() ==> (#[trigger] df[j]).0 == hf[i + j].0 && spec_to_dynamic(
                hf[i + j].1,
            ) == Ok::<DynValueView, ConversionErrorView>(df[j].1),
    decreases hf.len() - i,
{
    if i < hf.len() {
        lemma_to_fields_ok(hf, i + 1);
        let d = spec_to_dynamic(hf[i].1)->Ok_0;
        let rest = spec_to_fields(hf, i + 1)->Ok_0;
        let df = seq![(hf[i].0, d)] + rest;
        assert(spec_to_fields(hf, i) == Ok::<Seq<(Seq<char>, DynValueView)>, ConversionErrorView>(
            df,
        ));
        assert forall|j: int|
            0 <= j < df.len() implies (#[trigger] df[j]).0 == hf[i + j].0 && spec_to_dynamic(
            hf[i + j].1,
        ) == Ok::<DynValueView, ConversionErrorView>(df[j].1) by {
            if j > 0 {
                assert(df[j] == rest[j - 1]);
            } else {
                assert(df[0] == (hf[i].0, d));
            }
        }
    }
}

/// A lookup that starts at `k` finds the binding at `i` when no name in
/// between matches.
proof fn lemma_lookup_at(df: Seq<(Seq<char>, DynValueView)>, name: Seq<char>, k: int, i: int)
    requires
        0 <= k <= i < df.len(),
        df[i].0 == name,
        forall|j: int| k <= j < i ==> (#[trigger] df[j]).0 != name,
    ensures
        spec_lookup_from(df, name, k) == Some(df[i].1),
    decreases i - k,
{
    if k < i {
        lemma_lookup_at(df, name, k + 1, i);
    }
}

proof fn lemma_from_fields_rt(
    hf: Seq<(Seq<char>, HostValueView)>,
    df: Seq<(Seq<char>, DynValueView)>,
    sf: Seq<(String, Shape)>,
    i: int,
)
    requires
        hf.len() == sf.len(),
        df.len() == hf.len(),
        distinct_names(sf),
        0 <= i <= sf.len(),
        forall|j: int| 0 <= j < sf.len() ==> (#[trigger] hf[j]).0 == sf[j].0@,
        forall|j: int| 0 <= j < sf.len() ==> (#[trigger] df[j]).0 == hf[j].0,
        forall|j: int| 0 <= j < sf.len() ==> matches_shape((#[trigger] hf[j]).1, sf[j].1),
        forall|j: int|
            0 <= j < sf.len() ==> spec_to_dynamic((#[trigger] hf[j]).1) == Ok::<
                DynValueView,
                ConversionErrorView,
            >(df[j].1),
    ensures
        spec_from_fields(df, sf, i) == Ok::<Seq<(Seq<char>, HostValueView)>, ConversionErrorView>(
            hf.skip(i),
        ),
    decreases sf, sf.len() - i,
{
    if i == sf.len() {
        assert(hf.skip(i) =~= Seq::<(Seq<char>, HostValueView)>::empty());
    } else {
        let name = sf[i].0@;
        assert forall|j: int| 0 <= j < i implies (#[trigger] df[j]).0 != name by {
            assert(df[j].0 == sf[j].0@);
        }
        lemma_lookup_at(df, name, 0, i);
        lemma_round_trip(hf[i].1, sf[i].1);
        assert(spec_from_dynamic(df[i].1, sf[i].1) == Ok::<HostValueView, ConversionErrorView>(
            hf[i].1,
        ));
        lemma_from_fields_rt(hf, df, sf, i + 1);
        assert(seq![(name, hf[i].1)] + hf.skip(i + 1) =~= hf.skip(i));
    }
}

/// Conversion diagnostics: marshalling a dynamic object that lacks a
/// required field, into an object shape whose earlier fields all convert,
/// fails with a diagnostic whose path names exactly the missing field.
pub proof fn lemma_missing_field_diagnostic(
    df: Seq<(Seq<char>, DynValueView)>,
    sf: Vec<(String, Shape)>,
    k: int,
)
    requires
        0 <= k < sf@.len(),
        spec_lookup(df, sf@[k].0@) is None,
        forall|j: int|
            0 <= j < k ==> (spec_lookup(df, (#[trigger] sf@[j]).0@) matches Some(v)
                && spec_from_dynamic(v, sf@[j].1) is Ok),
    ensures
        spec_from_dynamic(DynValueView::Object(df), Shape::Object(sf)) == Err::<
            HostValueView,
            ConversionErrorView,
        >(
            ConversionErrorView {
                path: seq![PathSegView::Field(sf@[k].0@)],
                mismatch: Mismatch::MissingField,
            },
        ),
{
    lemma_from_fields_missing(df, sf@, 0, k);
}

proof fn lemma_from_fields_missing(
    df: Seq<(Seq<char>, DynValueView)>,
    sf: Seq<(String, Shape)>,
    i: int,
    k: int,
)
    requires
        0 <= i <= k < sf.len(),
        spec_lookup(df, sf[k].0@) is None,
        forall|j: int|
            i <= j < k ==> (spec_lookup(df, (#[trigger] sf[j]).0@) matches Some(v)
                && spec_from_dynamic(v, sf[j].1) is Ok),
    ensures
        spec_from_fields(df, sf, i) == Err::<Seq<(Seq<char>, HostValueView)>, ConversionErrorView>(
            ConversionErrorView {
                path: seq![PathSegView::Field(sf[k].0@)],
                mismatch: Mismatch::MissingField,
            },
        ),
    decreases k - i,
{
    if i < k {
        lemma_from_fields_missing(df, sf, i + 1, k);
    }
}

} // verus!
