//! Target shapes for marshalling and the coarse kinds that diagnostics report.

use vstd::prelude::*;

use crate::value::{dyn_view, DynValue, DynValueView};

verus! {

/// The coarse type tag of a dynamic value or of a shape, as conversion
/// diagnostics report it.
#[derive(Debug, PartialEq, Eq, Structural, Clone, Copy)]
pub enum Kind {
    Null,
    Bool,
    Int,
    Str,
    Array,
    Object,
    Function,
    Pending,
}

/// A target shape for marshalling: the statically-known host-side type a
/// dynamic value is validated against. An object shape lists its required
/// fields in order; an array shape gives the shape of every element.
#[derive(Debug, PartialEq, Eq)]
pub enum Shape {
    Null,
    Bool,
    Int,
    Str,
    Array(Box<Shape>),
    Object(Vec<(String, Shape)>),
}

/// The kind a shape expects at its root.
pub open spec fn kind_of_shape(s: Shape) -> Kind {
    match s {
        Shape::Null => Kind::Null,
        Shape::Bool => Kind::Bool,
        Shape::Int => Kind::Int,
        Shape::Str => Kind::Str,
        Shape::Array(_) => Kind::Array,
        Shape::Object(_) => Kind::Object,
    }
}

/// The kind at the root of a dynamic value.
pub open spec fn kind_of_dyn(d: DynValueView) -> Kind {
    match d {
        DynValueView::Null => Kind::Null,
        DynValueView::Bool(_) => Kind::Bool,
        DynValueView::Int(_) => Kind::Int,
        DynValueView::Str(_) => Kind::Str,
        DynValueView::Array(_) => Kind::Array,
        DynValueView::Object(_) => Kind::Object,
        DynValueView::Function(_) => Kind::Function,
        DynValueView::Pending(_) => Kind::Pending,
    }
}

impl Shape {
    /// The kind this shape expects.
    pub fn kind(&self) -> (k: Kind)
        ensures
            k == kind_of_shape(*self),
    {
        match self {
            Shape::Null => Kind::Null,
            Shape::Bool => Kind::Bool,
            Shape::Int => Kind::Int,
            Shape::Str => Kind::Str,
            Shape::Array(_) => Kind::Array,
            Shape::Object(_) => Kind::Object,
        }
    }
}

impl DynValue {
    /// The kind at this value's root.
    pub fn kind(&self) -> (k: Kind)
        ensures
            k == kind_of_dyn(dyn_view(*self)),
    {
        match self {
            DynValue::Null => Kind::Null,
            DynValue::Bool(_) => Kind::Bool,
            DynValue::Int(_) => Kind::Int,
            DynValue::Str(_) => Kind::Str,
            DynValue::Array(_) => Kind::Array,
            DynValue::Object(_) => Kind::Object,
            DynValue::Function(_) => Kind::Function,
            DynValue::Pending(_) => Kind::Pending,
        }
    }
}

} // verus!
