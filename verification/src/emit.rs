//! The emitter: the builder invocations of a resolved argument and of the
//! head of a command.

use crate::attrs::{
    attr_or_env, from_attr_or_env, last_value, lookup, AttributeEntry, AttributeEntryView,
    EnvVarView, Environment,
};
use crate::member::{ArgSpec, ArgSpecView};
use crate::model::{lemma_views_add, lemma_views_push, views, Literal, LiteralView};
use crate::parser::{is_try, parser_is_try, Parser, ParserSpec, ParserSpecView};
use crate::text::same_text;
use crate::types::Cardinality;
use vstd::prelude::*;
use vstd::string::*;

verus! {

/// One call on the parser builder. A command or an argument under
/// construction receives the calls that follow its opening call, up to the
/// call that closes it.
#[derive(Clone, Debug, PartialEq, Eq)]
pub enum Invocation {
    /// Opens the application, under the given name.
    App(Literal),
    /// A setter: the method and its argument.
    Setter(String, Literal),
    /// A setter whose argument is code, handed on as it was written.
    RawSetter(String, String),
    /// Opens an argument, under the given name.
    Arg(String),
    TakesValue(bool),
    Multiple(bool),
    Required(bool),
    /// Validates a value before it is converted: the kind of the conversion,
    /// the function, and the text of the type it yields.
    Validator(Parser, String, String),
    /// Closes the argument and registers it with the command.
    EndArg,
    /// Opens the subcommand group of the command set with the given type:
    /// the subcommands that follow belong to it. The flag says whether one of
    /// them must be given.
    SubcommandGroup(bool, String),
    /// Opens a subcommand, under the given name.
    Subcommand(String),
    /// Closes the subcommand and registers it with its parent.
    EndSubcommand,
}

pub enum InvocationView {
    App(LiteralView),
    Setter(Seq<char>, LiteralView),
    RawSetter(Seq<char>, Seq<char>),
    Arg(Seq<char>),
    TakesValue(bool),
    Multiple(bool),
    Required(bool),
    Validator(Parser, Seq<char>, Seq<char>),
    EndArg,
    SubcommandGroup(bool, Seq<char>),
    Subcommand(Seq<char>),
    EndSubcommand,
}

impl View for Invocation {
    type V = InvocationView;

    open spec fn view(&self) -> InvocationView {
        match self {
            Invocation::App(n) => InvocationView::App(n@),
            Invocation::Setter(m, v) => InvocationView::Setter(m@, v@),
            Invocation::RawSetter(m, c) => InvocationView::RawSetter(m@, c@),
            Invocation::Arg(n) => InvocationView::Arg(n@),
            Invocation::TakesValue(b) => InvocationView::TakesValue(*b),
            Invocation::Multiple(b) => InvocationView::Multiple(*b),
            Invocation::Required(b) => InvocationView::Required(*b),
            Invocation::Validator(k, f, t) => InvocationView::Validator(*k, f@, t@),
            Invocation::EndArg => InvocationView::EndArg,
            Invocation::SubcommandGroup(r, t) => InvocationView::SubcommandGroup(*r, t@),
            Invocation::Subcommand(n) => InvocationView::Subcommand(n@),
            Invocation::EndSubcommand => InvocationView::EndSubcommand,
        }
    }
}

/// The ending of a key whose value is code.
pub open spec fn raw_suffix() -> Seq<char> {
    seq!['_', 'r', 'a', 'w']
}

/// Whether a key ends in `_raw`.
pub open spec fn is_raw_key(key: Seq<char>) -> bool {
    key.len() >= 4 && key.skip(key.len() - 4) == raw_suffix()
}

/// The setter call of an entry. A key that ends in `_raw`, with a string as
/// value, calls the method named by the key without that ending, on the
/// string's content as code.
pub open spec fn setter(e: AttributeEntryView) -> InvocationView {
    match e.value {
        LiteralView::Str(code) => if is_raw_key(e.key) {
            InvocationView::RawSetter(e.key.take(e.key.len() - 4), code)
        } else {
            InvocationView::Setter(e.key, e.value)
        },
        _ => InvocationView::Setter(e.key, e.value),
    }
}

/// The keys that are no setters of their own: `name` everywhere, and for
/// the application the metadata, which its head sets.
pub open spec fn reserved(key: Seq<char>, metadata: bool) -> bool {
    key == "name"@ || (metadata && (key == "version"@ || key == "author"@ || key == "about"@))
}

/// The setter calls of the entries that are not reserved, in order.
pub open spec fn setters(entries: Seq<AttributeEntryView>, metadata: bool) -> Seq<InvocationView>
    decreases entries.len(),
{
    if entries.len() == 0 {
        Seq::empty()
    } else if reserved(entries.last().key, metadata) {
        setters(entries.drop_last(), metadata)
    } else {
        setters(entries.drop_last(), metadata).push(setter(entries.last()))
    }
}

/// Whether an argument of this cardinality takes values.
pub open spec fn takes_value(c: Cardinality) -> bool {
    !(c == Cardinality::Flag || c == Cardinality::Counter)
}

/// Whether an argument of this cardinality may occur more than once.
pub open spec fn multiple(c: Cardinality) -> bool {
    c == Cardinality::Counter || c == Cardinality::List
}

/// Whether the attributes give a default value.
pub open spec fn has_default(entries: Seq<AttributeEntryView>) -> bool {
    last_value(entries, "default_value"@) is Some
}

/// Whether an argument must be given: only a required one without a default
/// value.
pub open spec fn required(c: Cardinality, with_default: bool) -> bool {
    c == Cardinality::Required && !with_default
}

/// The validator of a conversion: one call for a conversion that can fail,
/// none otherwise.
pub open spec fn validators(parser: ParserSpecView, base: Seq<char>) -> Seq<InvocationView> {
    match parser {
        ParserSpecView::Convert { kind, function } => if is_try(kind) {
            seq![InvocationView::Validator(kind, function, base)]
        } else {
            Seq::empty()
        },
        ParserSpecView::Absent => Seq::empty(),
    }
}

/// The invocations of one argument: its opening, the three flags of its
/// cardinality, its validator, its setters, its closing.
pub open spec fn arg_invocations(a: ArgSpecView) -> Seq<InvocationView> {
    seq![
        InvocationView::Arg(a.name),
        InvocationView::TakesValue(takes_value(a.cardinality)),
        InvocationView::Multiple(multiple(a.cardinality)),
        InvocationView::Required(required(a.cardinality, has_default(a.entries))),
    ] + validators(a.parser, a.base) + setters(a.entries, false) + seq![InvocationView::EndArg]
}

/// The invocations of the arguments, in order.
pub open spec fn args_invocations(args: Seq<ArgSpecView>) -> Seq<InvocationView>
    decreases args.len(),
{
    if args.len() == 0 {
        Seq::empty()
    } else {
        args_invocations(args.drop_last()) + arg_invocations(args.last())
    }
}

/// The head of the application: its name, version, author and description,
/// each from its attribute or else from the environment, then the other
/// setters.
pub open spec fn app_head(entries: Seq<AttributeEntryView>, env: Seq<EnvVarView>) -> Seq<
    InvocationView,
> {
    seq![
        InvocationView::App(attr_or_env(entries, "name"@, "CARGO_PKG_NAME"@, env)),
        InvocationView::Setter(
            "version"@,
            attr_or_env(entries, "version"@, "CARGO_PKG_VERSION"@, env),
        ),
        InvocationView::Setter("author"@, attr_or_env(entries, "author"@, "CARGO_PKG_AUTHORS"@, env)),
        InvocationView::Setter(
            "about"@,
            attr_or_env(entries, "about"@, "CARGO_PKG_DESCRIPTION"@, env),
        ),
    ] + setters(entries, true)
}

/// Reads the method of a key that ends in `_raw`.
fn raw_method(key: &str) -> (r: Option<String>)
    ensures
        match r {
            Some(method) => is_raw_key(key@) && method@ == key@.take(key@.len() - 4),
            None => !is_raw_key(key@),
        },
{
    let n = key.unicode_len();
    if n < 4 {
        return None;
    }
    let ghost tail = key@.skip(n - 4);
    if key.get_char(n - 4) == '_' && key.get_char(n - 3) == 'r' && key.get_char(n - 2) == 'a'
        && key.get_char(n - 1) == 'w' {
        proof {
            assert(tail =~= raw_suffix());
            assert(key@.subrange(0, n - 4) =~= key@.take(n - 4));
        }
        Some(String::from_str(key.substring_char(0, n - 4)))
    } else {
        proof {
            if tail == raw_suffix() {
                assert(tail[0] == '_' && tail[1] == 'r' && tail[2] == 'a' && tail[3] == 'w');
            }
        }
        None
    }
}

/// Emits the setter call of one entry.
pub fn emit_setter(entry: &AttributeEntry) -> (r: Invocation)
    ensures
        r@ == setter(entry@),
{
    match &entry.value {
        Literal::Str(code) => match raw_method(entry.key.as_str()) {
            Some(method) => Invocation::RawSetter(method, code.clone()),
            None => Invocation::Setter(entry.key.clone(), entry.value.duplicate()),
        },
        _ => Invocation::Setter(entry.key.clone(), entry.value.duplicate()),
    }
}

/// Decides whether a key is reserved.
fn is_reserved(key: &str, metadata: bool) -> (r: bool)
    ensures
        r == reserved(key@, metadata),
{
    same_text(key, "name") || (metadata && (same_text(key, "version") || same_text(key, "author")
        || same_text(key, "about")))
}

/// Emits the setter calls of the entries that are not reserved.
pub fn emit_setters(entries: &Vec<AttributeEntry>, metadata: bool) -> (r: Vec<Invocation>)
    ensures
        views(r@) == setters(views(entries@), metadata),
{
    let mut out: Vec<Invocation> = Vec::new();
    let ghost ev = views(entries@);
    let mut i: usize = 0;
    while i < entries.len()
        invariant
            ev == views(entries@),
            i <= entries.len(),
            views(out@) == setters(ev.take(i as int), metadata),
        decreases entries.len() - i,
    {
        proof {
            assert(ev.take(i + 1).drop_last() =~= ev.take(i as int));
            assert(ev.take(i + 1).last() == ev[i as int]);
        }
        if !is_reserved(entries[i].key.as_str(), metadata) {
            let call = emit_setter(&entries[i]);
            proof {
                lemma_views_push(out@, call);
            }
            out.push(call);
        }
        i += 1;
    }
    assert(ev.take(entries.len() as int) =~= ev);
    out
}

/// Emits the invocations of one argument.
pub fn emit_arg(arg: &ArgSpec) -> (r: Vec<Invocation>)
    ensures
        views(r@) == arg_invocations(arg@),
{
    let flag = match arg.cardinality {
        Cardinality::Flag => true,
        Cardinality::Counter => true,
        _ => false,
    };
    let many = match arg.cardinality {
        Cardinality::Counter => true,
        Cardinality::List => true,
        _ => false,
    };
    let with_default = lookup(&arg.entries, "default_value").is_some();
    let needed = match arg.cardinality {
        Cardinality::Required => !with_default,
        _ => false,
    };
    let mut out: Vec<Invocation> = Vec::new();
    out.push(Invocation::Arg(arg.name.clone()));
    out.push(Invocation::TakesValue(!flag));
    out.push(Invocation::Multiple(many));
    out.push(Invocation::Required(needed));
    let ghost head = views(out@);
    assert(head =~= seq![
        InvocationView::Arg(arg@.name),
        InvocationView::TakesValue(takes_value(arg@.cardinality)),
        InvocationView::Multiple(multiple(arg@.cardinality)),
        InvocationView::Required(required(arg@.cardinality, has_default(arg@.entries))),
    ]);
    match &arg.parser {
        ParserSpec::Convert { kind, function } => {
            if parser_is_try(*kind) {
                let call = Invocation::Validator(*kind, function.clone(), arg.base.clone());
                proof {
                    lemma_views_push(out@, call);
                    assert(head.push(call@) =~= head + validators(arg@.parser, arg@.base));
                }
                out.push(call);
            } else {
                assert(head + validators(arg@.parser, arg@.base) =~= head);
            }
        },
        ParserSpec::Absent => {
            assert(head + validators(arg@.parser, arg@.base) =~= head);
        },
    }
    let mut calls = emit_setters(&arg.entries, false);
    proof {
        lemma_views_add(out@, calls@);
    }
    out.append(&mut calls);
    proof {
        lemma_views_push(out@, Invocation::EndArg);
        assert(views(out@).push(InvocationView::EndArg) =~= views(out@) + seq![
            InvocationView::EndArg,
        ]);
    }
    out.push(Invocation::EndArg);
    out
}

/// Emits the invocations of the arguments, in order.
pub fn emit_args(args: &Vec<ArgSpec>) -> (r: Vec<Invocation>)
    ensures
        views(r@) == args_invocations(views(args@)),
{
    let mut out: Vec<Invocation> = Vec::new();
    let ghost av = views(args@);
    let mut i: usize = 0;
    while i < args.len()
        invariant
            av == views(args@),
            i <= args.len(),
            views(out@) == args_invocations(av.take(i as int)),
        decreases args.len() - i,
    {
        proof {
            assert(av.take(i + 1).drop_last() =~= av.take(i as int));
            assert(av.take(i + 1).last() == av[i as int]);
        }
        let mut calls = emit_arg(&args[i]);
        proof {
            lemma_views_add(out@, calls@);
        }
        out.append(&mut calls);
        i += 1;
    }
    assert(av.take(args.len() as int) =~= av);
    out
}

/// Emits the head of the application.
pub fn emit_app_head(entries: &Vec<AttributeEntry>, env: &Environment) -> (r: Vec<Invocation>)
    ensures
        views(r@) == app_head(views(entries@), env@),
{
    let mut out: Vec<Invocation> = Vec::new();
    out.push(Invocation::App(from_attr_or_env(entries, "name", "CARGO_PKG_NAME", env)));
    out.push(
        Invocation::Setter(
            String::from_str("version"),
            from_attr_or_env(entries, "version", "CARGO_PKG_VERSION", env),
        ),
    );
    out.push(
        Invocation::Setter(
            String::from_str("author"),
            from_attr_or_env(entries, "author", "CARGO_PKG_AUTHORS", env),
        ),
    );
    out.push(
        Invocation::Setter(
            String::from_str("about"),
            from_attr_or_env(entries, "about", "CARGO_PKG_DESCRIPTION", env),
        ),
    );
    let ghost ev = views(entries@);
    assert(views(out@) =~= seq![
        InvocationView::App(attr_or_env(ev, "name"@, "CARGO_PKG_NAME"@, env@)),
        InvocationView::Setter("version"@, attr_or_env(ev, "version"@, "CARGO_PKG_VERSION"@, env@)),
        InvocationView::Setter("author"@, attr_or_env(ev, "author"@, "CARGO_PKG_AUTHORS"@, env@)),
        InvocationView::Setter("about"@, attr_or_env(ev, "about"@, "CARGO_PKG_DESCRIPTION"@, env@)),
    ]);
    let mut calls = emit_setters(entries, true);
    proof {
        lemma_views_add(out@, calls@);
    }
    out.append(&mut calls);
    out
}

} // verus!
