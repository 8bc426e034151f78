//! The type classifier: from the shape of a declared type to the way its
//! argument takes values.

use crate::error::{CompileError, Place};
use crate::model::{views, PathSegment, PathSegmentView, TypeShape, TypeShapeView};
use crate::text::same_text;
use vstd::prelude::*;

verus! {

/// What the last segment of a type's path names.
#[derive(Clone, Copy, Debug, PartialEq, Eq, Structural)]
pub enum Ty {
    Bool,
    U64,
    Vec,
    Option,
    Other,
}

/// How many values an argument takes.
#[derive(Clone, Copy, Debug, PartialEq, Eq, Structural)]
pub enum Cardinality {
    /// Present or absent.
    Flag,
    /// Counted by occurrence.
    Counter,
    /// At most one value.
    Optional,
    /// Any number of values.
    List,
    /// Exactly one value.
    Required,
}

/// The outcome of a classification: the cardinality and the text of the type
/// that a value is converted to.
#[derive(Clone, Debug, PartialEq, Eq)]
pub struct Classified {
    pub cardinality: Cardinality,
    pub base: String,
}

pub struct ClassifiedView {
    pub cardinality: Cardinality,
    pub base: Seq<char>,
}

impl View for Classified {
    type V = ClassifiedView;

    open spec fn view(&self) -> ClassifiedView {
        ClassifiedView { cardinality: self.cardinality, base: self.base@ }
    }
}

/// The segment that decides: the last one of a path that is not qualified.
pub open spec fn last_segment(t: TypeShapeView) -> Option<PathSegmentView> {
    match t {
        TypeShapeView::Path { qualified, segments, .. } => if !qualified && segments.len() > 0 {
            Some(segments.last())
        } else {
            None
        },
        TypeShapeView::Other { .. } => None,
    }
}

/// What the type names: decided by the identifier of the last segment of
/// its path alone. A qualified path, and a type that is no path, name nothing.
pub open spec fn ty_of(t: TypeShapeView) -> Ty {
    match last_segment(t) {
        Some(segment) => if segment.ident == "bool"@ {
            Ty::Bool
        } else if segment.ident == "u64"@ {
            Ty::U64
        } else if segment.ident == "Option"@ {
            Ty::Option
        } else if segment.ident == "Vec"@ {
            Ty::Vec
        } else {
            Ty::Other
        },
        None => Ty::Other,
    }
}

/// The type parameters of the last path segment.
pub open spec fn params_of(t: TypeShapeView) -> Seq<Seq<char>> {
    match last_segment(t) {
        Some(segment) => segment.args,
        None => Seq::empty(),
    }
}

/// The first type parameter, if there is one.
pub open spec fn first_param(t: TypeShapeView) -> Option<Seq<char>> {
    if params_of(t).len() > 0 {
        Some(params_of(t)[0])
    } else {
        None
    }
}

/// The classification of a type, `None` where a wrapper does not have
/// exactly one parameter. With a custom parser `bool` and `u64` are ordinary
/// types.
pub open spec fn classification(t: TypeShapeView, custom_parser: bool) -> Option<ClassifiedView> {
    match ty_of(t) {
        Ty::Bool => Some(
            ClassifiedView {
                cardinality: if custom_parser {
                    Cardinality::Required
                } else {
                    Cardinality::Flag
                },
                base: t.text(),
            },
        ),
        Ty::U64 => Some(
            ClassifiedView {
                cardinality: if custom_parser {
                    Cardinality::Required
                } else {
                    Cardinality::Counter
                },
                base: t.text(),
            },
        ),
        Ty::Option => if params_of(t).len() == 1 {
            Some(ClassifiedView { cardinality: Cardinality::Optional, base: params_of(t)[0] })
        } else {
            None
        },
        Ty::Vec => if params_of(t).len() == 1 {
            Some(ClassifiedView { cardinality: Cardinality::List, base: params_of(t)[0] })
        } else {
            None
        },
        Ty::Other => Some(ClassifiedView { cardinality: Cardinality::Required, base: t.text() }),
    }
}

/// Finds the segment that decides.
pub fn last_segment_of(t: &TypeShape) -> (r: Option<&PathSegment>)
    ensures
        match r {
            Some(segment) => last_segment(t@) == Some(segment@),
            None => last_segment(t@) is None,
        },
{
    match t {
        TypeShape::Path { qualified, segments, .. } => {
            if !*qualified && segments.len() > 0 {
                assert(views(segments@).last() == segments@[segments.len() - 1]@);
                Some(&segments[segments.len() - 1])
            } else {
                None
            }
        },
        TypeShape::Other { .. } => None,
    }
}

/// Names the kind of a type by the last segment of its path.
pub fn ty(t: &TypeShape) -> (r: Ty)
    ensures
        r == ty_of(t@),
{
    match last_segment_of(t) {
        Some(segment) => {
            let name = segment.ident.as_str();
            if same_text(name, "bool") {
                Ty::Bool
            } else if same_text(name, "u64") {
                Ty::U64
            } else if same_text(name, "Option") {
                Ty::Option
            } else if same_text(name, "Vec") {
                Ty::Vec
            } else {
                Ty::Other
            }
        },
        None => Ty::Other,
    }
}

/// The first type parameter of the last path segment.
pub fn sub_type(t: &TypeShape) -> (r: Option<&String>)
    ensures
        match r {
            Some(inner) => first_param(t@) == Some(inner@),
            None => first_param(t@) is None,
        },
{
    match last_segment_of(t) {
        Some(segment) => if segment.args.len() > 0 {
            Some(&segment.args[0])
        } else {
            None
        },
        None => None,
    }
}

/// The type as it was written.
pub fn type_text(t: &TypeShape) -> (r: &String)
    ensures
        r@ == t@.text(),
{
    match t {
        TypeShape::Path { text, .. } => text,
        TypeShape::Other { text } => text,
    }
}

/// The number of type parameters of the last path segment.
fn param_count(t: &TypeShape) -> (r: usize)
    ensures
        r == params_of(t@).len(),
{
    match last_segment_of(t) {
        Some(segment) => segment.args.len(),
        None => 0,
    }
}

/// Classifies a declared type.
///
/// Without a custom parser `bool` is a flag and `u64` a counter. An `Option`
/// of one parameter is optional and a `Vec` of one parameter a list, both
/// with the parameter as base type; with another number of parameters either
/// is a fault at `at`. Every other type is required.
pub fn classify(t: &TypeShape, custom_parser: bool, at: Place) -> (r: Result<
    Classified,
    CompileError,
>)
    ensures
        match r {
            Ok(c) => classification(t@, custom_parser) == Some(c@),
            Err(e) => classification(t@, custom_parser) is None && e
                == CompileError::UnsupportedType(at),
        },
{
    match ty(t) {
        Ty::Bool => Ok(
            Classified {
                cardinality: if custom_parser {
                    Cardinality::Required
                } else {
                    Cardinality::Flag
                },
                base: type_text(t).clone(),
            },
        ),
        Ty::U64 => Ok(
            Classified {
                cardinality: if custom_parser {
                    Cardinality::Required
                } else {
                    Cardinality::Counter
                },
                base: type_text(t).clone(),
            },
        ),
        Ty::Option => match sub_type(t) {
            Some(inner) => if param_count(t) == 1 {
                Ok(Classified { cardinality: Cardinality::Optional, base: inner.clone() })
            } else {
                Err(CompileError::UnsupportedType(at))
            },
            None => Err(CompileError::UnsupportedType(at)),
        },
        Ty::Vec => match sub_type(t) {
            Some(inner) => if param_count(t) == 1 {
                Ok(Classified { cardinality: Cardinality::List, base: inner.clone() })
            } else {
                Err(CompileError::UnsupportedType(at))
            },
            None => Err(CompileError::UnsupportedType(at)),
        },
        Ty::Other => Ok(
            Classified { cardinality: Cardinality::Required, base: type_text(t).clone() },
        ),
    }
}

} // verus!
