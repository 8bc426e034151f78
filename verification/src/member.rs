//! The resolution of one member into the node that the emitter walks: its
//! name, its cardinality, its conversion and its attributes.

use crate::attrs::{
    extract_attrs, last_value, lookup, resolve, AttrSource, AttributeEntry, AttributeEntryView,
};
use crate::error::{lift, CompileError, Place};
use crate::model::{views, Field, FieldView, Literal, LiteralView};
use crate::parser::{
    has_custom_parser, parse_args, resolve_parser, resolved_parser, ParserSpec, ParserSpecView,
};
use crate::types::{classification, classify, Cardinality};
use vstd::prelude::*;

verus! {

/// A resolved argument.
#[derive(Clone, Debug, PartialEq, Eq)]
pub struct ArgSpec {
    pub name: String,
    pub cardinality: Cardinality,
    /// The text of the type that a value is converted to.
    pub base: String,
    pub parser: ParserSpec,
    /// The resolved attributes, the `name` among them.
    pub entries: Vec<AttributeEntry>,
}

pub struct ArgSpecView {
    pub name: Seq<char>,
    pub cardinality: Cardinality,
    pub base: Seq<char>,
    pub parser: ParserSpecView,
    pub entries: Seq<AttributeEntryView>,
}

impl View for ArgSpec {
    type V = ArgSpecView;

    open spec fn view(&self) -> ArgSpecView {
        ArgSpecView {
            name: self.name@,
            cardinality: self.cardinality,
            base: self.base@,
            parser: self.parser@,
            entries: views(self.entries@),
        }
    }
}

/// The name of a member: the last `name` entry when it is a string, else
/// the identifier.
pub open spec fn member_name(entries: Seq<AttributeEntryView>, ident: Seq<char>) -> Seq<char> {
    match last_value(entries, "name"@) {
        Some(LiteralView::Str(s)) => s,
        _ => ident,
    }
}

/// The resolution of a field that is an argument. The attributes are
/// resolved first, then the type is classified, then the conversion is
/// resolved; the first fault ends it.
pub open spec fn arg_spec(f: FieldView, at: Place) -> Result<ArgSpecView, CompileError> {
    match resolve(f.attrs, AttrSource::MemberLevel) {
        None => Err(CompileError::AttributeParse(at)),
        Some(entries) => match classification(f.ty, parse_args(f.attrs) is Some) {
            None => Err(CompileError::UnsupportedType(at)),
            Some(c) => match resolved_parser(f.attrs, c.cardinality, at) {
                Err(e) => Err(e),
                Ok(parser) => Ok(
                    ArgSpecView {
                        name: member_name(entries, f.ident),
                        cardinality: c.cardinality,
                        base: c.base,
                        parser,
                        entries,
                    },
                ),
            },
        },
    }
}

/// Reads the name of a member from its resolved attributes.
pub fn name_of(entries: &Vec<AttributeEntry>, ident: &String) -> (r: String)
    ensures
        r@ == member_name(views(entries@), ident@),
{
    match lookup(entries, "name") {
        Some(Literal::Str(s)) => s.clone(),
        _ => ident.clone(),
    }
}

/// Resolves a field that is an argument.
pub fn resolve_arg(field: &Field, at: Place) -> (r: Result<ArgSpec, CompileError>)
    ensures
        lift(r) == arg_spec(field@, at),
{
    let entries = match extract_attrs(&field.attrs, AttrSource::MemberLevel, at) {
        Ok(entries) => entries,
        Err(e) => {
            return Err(e);
        },
    };
    let custom = has_custom_parser(&field.attrs);
    let classified = match classify(&field.ty, custom, at) {
        Ok(c) => c,
        Err(e) => {
            return Err(e);
        },
    };
    let parser = match resolve_parser(&field.attrs, classified.cardinality, at) {
        Ok(p) => p,
        Err(e) => {
            return Err(e);
        },
    };
    let name = name_of(&entries, &field.ident);
    Ok(
        ArgSpec {
            name,
            cardinality: classified.cardinality,
            base: classified.base,
            parser,
            entries,
        },
    )
}

} // verus!
