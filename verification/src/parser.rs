//! The parser-function resolver: which conversion governs the values of an
//! argument.

use crate::directives::{call_args, find_call};
use crate::error::{CompileError, Place};
use crate::model::{views, CallArg, CallArgView, Literal, LiteralView, RawAttribute, RawAttributeView};
use crate::text::same_text;
use crate::types::Cardinality;
use vstd::prelude::*;
use vstd::string::*;

verus! {

/// The four kinds of conversion function.
#[derive(Clone, Copy, Debug, PartialEq, Eq, Structural)]
pub enum Parser {
    /// From text to the value; never fails.
    FromStr,
    /// From text to the value or a failure, which is shown as text.
    TryFromStr,
    /// From raw bytes to the value; never fails.
    FromOsStr,
    /// From raw bytes to the value or a failure given as raw bytes.
    TryFromOsStr,
}

/// The conversion of an argument: none for a flag or a counter, else a kind
/// with the function that performs it.
#[derive(Clone, Debug, PartialEq, Eq)]
pub enum ParserSpec {
    Absent,
    Convert { kind: Parser, function: String },
}

pub enum ParserSpecView {
    Absent,
    Convert { kind: Parser, function: Seq<char> },
}

impl View for ParserSpec {
    type V = ParserSpecView;

    open spec fn view(&self) -> ParserSpecView {
        match self {
            ParserSpec::Absent => ParserSpecView::Absent,
            ParserSpec::Convert { kind, function } => ParserSpecView::Convert {
                kind: *kind,
                function: function@,
            },
        }
    }
}

/// The name of the call that gives a custom parser.
pub open spec fn parse_name() -> Seq<char> {
    "parse"@
}

/// The arguments of the parse directive of a member, if it has one.
pub open spec fn parse_args(attrs: Seq<RawAttributeView>) -> Option<Seq<CallArgView>> {
    call_args(attrs, parse_name())
}

/// The kind that a word names.
pub open spec fn parser_kind(name: Seq<char>) -> Option<Parser> {
    if name == "from_str"@ {
        Some(Parser::FromStr)
    } else if name == "try_from_str"@ {
        Some(Parser::TryFromStr)
    } else if name == "from_os_str"@ {
        Some(Parser::FromOsStr)
    } else if name == "try_from_os_str"@ {
        Some(Parser::TryFromOsStr)
    } else {
        None
    }
}

/// The function of a kind that is given without one: the text kinds have a
/// default, the kinds on raw bytes have none.
pub open spec fn default_function(kind: Parser) -> Option<Seq<char>> {
    match kind {
        Parser::FromStr => Some("::std::convert::From::from"@),
        Parser::TryFromStr => Some("::std::str::FromStr::from_str"@),
        Parser::FromOsStr => None,
        Parser::TryFromOsStr => None,
    }
}

/// Whether a conversion of this kind can fail, and so is validated before
/// it is used.
pub open spec fn is_try(kind: Parser) -> bool {
    kind == Parser::TryFromStr || kind == Parser::TryFromOsStr
}

/// The conversion that a parse directive selects. Its first argument
/// decides: `kind = "function"`, or the kind alone.
pub open spec fn parser_from_directive(args: Seq<CallArgView>, at: Place) -> Result<
    ParserSpecView,
    CompileError,
> {
    if args.len() == 0 {
        Err(CompileError::AttributeParse(at))
    } else {
        match args[0] {
            CallArgView::Assign(k, LiteralView::Str(f)) => match parser_kind(k) {
                Some(kind) => Ok(ParserSpecView::Convert { kind, function: f }),
                None => Err(CompileError::AttributeParse(at)),
            },
            CallArgView::Word(k) => match parser_kind(k) {
                Some(kind) => match default_function(kind) {
                    Some(f) => Ok(ParserSpecView::Convert { kind, function: f }),
                    None => Err(CompileError::MissingParserFunction(at)),
                },
                None => Err(CompileError::AttributeParse(at)),
            },
            _ => Err(CompileError::AttributeParse(at)),
        }
    }
}

/// The conversion of a member without a parse directive.
pub open spec fn default_parser(cardinality: Cardinality) -> ParserSpecView {
    match cardinality {
        Cardinality::Flag => ParserSpecView::Absent,
        Cardinality::Counter => ParserSpecView::Absent,
        _ => ParserSpecView::Convert {
            kind: Parser::TryFromStr,
            function: "::std::str::FromStr::from_str"@,
        },
    }
}

/// The conversion of a member.
pub open spec fn resolved_parser(
    attrs: Seq<RawAttributeView>,
    cardinality: Cardinality,
    at: Place,
) -> Result<ParserSpecView, CompileError> {
    match parse_args(attrs) {
        Some(args) => parser_from_directive(args, at),
        None => Ok(default_parser(cardinality)),
    }
}

/// Decides whether the member has a parse directive.
pub fn has_custom_parser(attrs: &Vec<RawAttribute>) -> (r: bool)
    ensures
        r == (parse_args(views(attrs@)) is Some),
{
    find_call(attrs, "parse").is_some()
}

/// Reads the kind that a word names.
pub fn read_parser_kind(name: &str) -> (r: Option<Parser>)
    ensures
        r == parser_kind(name@),
{
    if same_text(name, "from_str") {
        Some(Parser::FromStr)
    } else if same_text(name, "try_from_str") {
        Some(Parser::TryFromStr)
    } else if same_text(name, "from_os_str") {
        Some(Parser::FromOsStr)
    } else if same_text(name, "try_from_os_str") {
        Some(Parser::TryFromOsStr)
    } else {
        None
    }
}

/// Returns whether a conversion of this kind can fail.
pub fn parser_is_try(kind: Parser) -> (r: bool)
    ensures
        r == is_try(kind),
{
    match kind {
        Parser::TryFromStr => true,
        Parser::TryFromOsStr => true,
        _ => false,
    }
}

/// The conversion for a kind that is given without a function.
fn with_default_function(kind: Parser, at: Place) -> (r: Result<ParserSpec, CompileError>)
    ensures
        match r {
            Ok(p) => default_function(kind) == Some(p@->function) && p@ == (
            ParserSpecView::Convert { kind, function: p@->function }),
            Err(e) => default_function(kind) is None && e == CompileError::MissingParserFunction(
                at,
            ),
        },
{
    match kind {
        Parser::FromStr => Ok(
            ParserSpec::Convert { kind, function: String::from_str("::std::convert::From::from") },
        ),
        Parser::TryFromStr => Ok(
            ParserSpec::Convert {
                kind,
                function: String::from_str("::std::str::FromStr::from_str"),
            },
        ),
        Parser::FromOsStr => Err(CompileError::MissingParserFunction(at)),
        Parser::TryFromOsStr => Err(CompileError::MissingParserFunction(at)),
    }
}

/// Resolves the conversion of a member.
///
/// Without a parse directive a flag or a counter has none, and any other
/// member converts with the standard textual constructor of its base type,
/// as a conversion that can fail. A parse directive selects the kind and the
/// function; a text kind given alone takes its default function, a kind on
/// raw bytes given alone is a fault, and a directive that names no kind is
/// a fault, all at `at`.
pub fn resolve_parser(attrs: &Vec<RawAttribute>, cardinality: Cardinality, at: Place) -> (r:
    Result<ParserSpec, CompileError>)
    ensures
        match r {
            Ok(p) => resolved_parser(views(attrs@), cardinality, at) == Ok::<
                ParserSpecView,
                CompileError,
            >(p@),
            Err(e) => resolved_parser(views(attrs@), cardinality, at) == Err::<
                ParserSpecView,
                CompileError,
            >(e),
        },
{
    match find_call(attrs, "parse") {
        Some(args) => {
            if args.len() == 0 {
                return Err(CompileError::AttributeParse(at));
            }
            assert(views(args@)[0] == args@[0]@);
            match &args[0] {
                CallArg::Assign(k, Literal::Str(f)) => match read_parser_kind(k.as_str()) {
                    Some(kind) => Ok(ParserSpec::Convert { kind, function: f.clone() }),
                    None => Err(CompileError::AttributeParse(at)),
                },
                CallArg::Word(k) => match read_parser_kind(k.as_str()) {
                    Some(kind) => with_default_function(kind, at),
                    None => Err(CompileError::AttributeParse(at)),
                },
                _ => Err(CompileError::AttributeParse(at)),
            }
        },
        None => match cardinality {
            Cardinality::Flag => Ok(ParserSpec::Absent),
            Cardinality::Counter => Ok(ParserSpec::Absent),
            _ => Ok(
                ParserSpec::Convert {
                    kind: Parser::TryFromStr,
                    function: String::from_str("::std::str::FromStr::from_str"),
                },
            ),
        },
    }
}

} // verus!
