//! Where a fault lies in a schema, and the faults that stop a compilation.

use crate::model::views;
use vstd::prelude::*;

verus! {

/// The position of a fault: indices into the schema's item list and into the
/// member lists of that item.
#[derive(Clone, Copy, Debug, PartialEq, Eq, Structural)]
pub enum Place {
    /// The item itself.
    Item(usize),
    /// A field of an options bag or a variant of a command set: item, member.
    Member(usize, usize),
    /// A field of a variant of a command set: item, variant, field.
    Field(usize, usize, usize),
}

/// The first fault met while compiling a schema, with its position.
#[derive(Clone, Copy, Debug, PartialEq, Eq, Structural)]
pub enum CompileError {
    /// An attribute that cannot be read as settings.
    AttributeParse(Place),
    /// An optional or sequence wrapper without exactly one type parameter.
    UnsupportedType(Place),
    /// A parser kind that works on raw bytes, given without a function.
    MissingParserFunction(Place),
    /// A flattened argument whose name the parent's argument list already holds.
    DuplicateArgument(Place),
    /// A second subcommand carrier in one member list.
    MultipleSubcommands(Place),
    /// A subcommand carrier that leads back to a command set under expansion.
    CyclicSchema(Place),
}

/// The outcome of a stage, with the view of what it yields.
pub open spec fn lift<T: View>(r: Result<T, CompileError>) -> Result<T::V, CompileError> {
    match r {
        Ok(x) => Ok(x@),
        Err(e) => Err(e),
    }
}

/// The outcome of a stage that yields a list, with the views of its elements.
pub open spec fn lift_seq<T: View>(r: Result<Vec<T>, CompileError>) -> Result<
    Seq<T::V>,
    CompileError,
> {
    match r {
        Ok(v) => Ok(views(v@)),
        Err(e) => Err(e),
    }
}

} // verus!
