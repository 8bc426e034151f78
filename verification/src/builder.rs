//! The subcommand tree builder and the compilation of a schema: every
//! command is expanded into its invocations, and a subcommand carrier into
//! the commands of the command set that it hosts.

use crate::attrs::{
    extract_attrs, resolve, AttrSource, AttributeEntryView, EnvVarView, Environment,
};
use crate::directives::{has_word, marked};
use crate::emit::{
    app_head, args_invocations, emit_app_head, emit_args, emit_setters, setters, Invocation,
    InvocationView,
};
use crate::error::{lift, lift_seq, CompileError, Place};
use crate::member::{arg_spec, member_name, name_of, resolve_arg, ArgSpec, ArgSpecView};
use crate::model::{
    lemma_views_add, lemma_views_push, views, Body, BodyView, Field, FieldView, Schema,
    SchemaItemView, SchemaView, TypeShape, TypeShapeView, Variant, VariantView,
};
use crate::scope::{
    carriers, field_ok, field_place, fields_ok, find_carriers, is_carrier, item_ok, place_of,
    place_of_field, scope_attrs, scope_fields, scope_ident, scope_parts, scope_place, scope_valid,
    variants_of, Scope,
};
use crate::text::same_text;
use crate::types::{first_param, sub_type, ty, ty_of, type_text, Ty};
use vstd::prelude::*;

verus! {

/// The compiled schema: the builder invocations, in the order in which they
/// are made.
#[derive(Clone, Debug, PartialEq, Eq)]
pub struct GeneratedSpec {
    pub invocations: Vec<Invocation>,
}

impl View for GeneratedSpec {
    type V = Seq<InvocationView>;

    open spec fn view(&self) -> Seq<InvocationView> {
        views(self.invocations@)
    }
}

/// The arguments among the first `k` fields of a scope, resolved in order;
/// the first fault ends it. Subcommand carriers are no arguments.
pub open spec fn own_args(fields: Seq<FieldView>, scope: Scope, k: nat) -> Result<
    Seq<ArgSpecView>,
    CompileError,
>
    decreases k,
{
    if k == 0 {
        Ok(Seq::empty())
    } else {
        match own_args(fields, scope, (k - 1) as nat) {
            Err(e) => Err(e),
            Ok(before) => if is_carrier(fields[k - 1]) {
                Ok(before)
            } else {
                match arg_spec(fields[k - 1], field_place(scope, (k - 1) as usize)) {
                    Err(e) => Err(e),
                    Ok(a) => Ok(before.push(a)),
                }
            },
        }
    }
}

/// Whether the list holds an argument of this name.
pub open spec fn holds_name(args: Seq<ArgSpecView>, name: Seq<char>) -> bool {
    exists|i: int| 0 <= i < args.len() && (#[trigger] args[i]).name == name
}

/// The list after one more argument has been merged into it: a fault at
/// `at` where the list holds its name already.
pub open spec fn merged(args: Seq<ArgSpecView>, a: ArgSpecView, at: Place) -> Result<
    Seq<ArgSpecView>,
    CompileError,
> {
    if holds_name(args, a.name) {
        Err(CompileError::DuplicateArgument(at))
    } else {
        Ok(args.push(a))
    }
}

/// The list after the arguments among the first `k` fields of variant `v`
/// of the command set `t` have been merged into it.
pub open spec fn merged_fields(
    args: Seq<ArgSpecView>,
    fields: Seq<FieldView>,
    t: usize,
    v: usize,
    k: nat,
) -> Result<Seq<ArgSpecView>, CompileError>
    decreases k,
{
    if k == 0 {
        Ok(args)
    } else {
        match merged_fields(args, fields, t, v, (k - 1) as nat) {
            Err(e) => Err(e),
            Ok(before) => if is_carrier(fields[k - 1]) {
                Ok(before)
            } else {
                match arg_spec(fields[k - 1], Place::Field(t, v, (k - 1) as usize)) {
                    Err(e) => Err(e),
                    Ok(a) => merged(before, a, Place::Field(t, v, (k - 1) as usize)),
                }
            },
        }
    }
}

/// The list after the arguments of the first `k` variants of the command
/// set `t` have been merged into it.
pub open spec fn merged_variants(
    args: Seq<ArgSpecView>,
    variants: Seq<VariantView>,
    t: usize,
    k: nat,
) -> Result<Seq<ArgSpecView>, CompileError>
    decreases k,
{
    if k == 0 {
        Ok(args)
    } else {
        match merged_variants(args, variants, t, (k - 1) as nat) {
            Err(e) => Err(e),
            Ok(before) => merged_fields(
                before,
                variants[k - 1].fields,
                t,
                (k - 1) as usize,
                variants[k - 1].fields.len(),
            ),
        }
    }
}

/// The type of the command set that a carrier hosts: the parameter of an
/// `Option`, else the type itself.
pub open spec fn carrier_type(t: TypeShapeView) -> Seq<char> {
    if ty_of(t) == Ty::Option {
        match first_param(t) {
            Some(inner) => inner,
            None => t.text(),
        }
    } else {
        t.text()
    }
}

/// The opening of a command: the head of the application where the
/// environment is given, else the opening of a subcommand and its setters.
pub open spec fn head(
    entries: Seq<AttributeEntryView>,
    ident: Seq<char>,
    env: Option<Seq<EnvVarView>>,
) -> Seq<InvocationView> {
    match env {
        Some(vars) => app_head(entries, vars),
        None => seq![InvocationView::Subcommand(member_name(entries, ident))] + setters(
            entries,
            false,
        ),
    }
}

/// The closing of a command: none for the application.
pub open spec fn tail(env: Option<Seq<EnvVarView>>) -> Seq<InvocationView> {
    match env {
        Some(_) => Seq::empty(),
        None => seq![InvocationView::EndSubcommand],
    }
}

/// The invocations of the member list of a command, after its opening: the
/// arguments, and then what the subcommand carrier gives, if there is one.
///
/// A carrier that leads to a command set on `path`, the command sets under
/// expansion, is a fault; a path cannot be longer than the schema has items.
/// A carrier marked `flatten` has the arguments of the variants of its
/// command set merged into the arguments of this command. Any other carrier
/// opens a subcommand group, which must be used unless the carrier's type is
/// an `Option`, and expands the variants of its command set.
pub open spec fn group(
    items: Seq<SchemaItemView>,
    scope: Scope,
    path: Seq<usize>,
    args: Seq<ArgSpecView>,
) -> Result<Seq<InvocationView>, CompileError>
    decreases items.len() - path.len(), 0int, 0nat,
{
    let fields = scope_fields(items, scope);
    if carriers(fields).len() == 0 {
        Ok(args_invocations(args))
    } else {
        let c = carriers(fields)[0];
        let f = fields[c as int];
        let t = f.target->0;
        if path.contains(t) || path.len() >= items.len() {
            Err(CompileError::CyclicSchema(field_place(scope, c)))
        } else if marked(f.attrs, "flatten"@) {
            match merged_variants(
                args,
                variants_of(items[t as int]),
                t,
                variants_of(items[t as int]).len(),
            ) {
                Err(e) => Err(e),
                Ok(all) => Ok(args_invocations(all)),
            }
        } else {
            match variants_upto(items, t, path.push(t), variants_of(items[t as int]).len()) {
                Err(e) => Err(e),
                Ok(subcommands) => Ok(
                    args_invocations(args) + seq![
                        InvocationView::SubcommandGroup(
                            ty_of(f.ty) != Ty::Option,
                            carrier_type(f.ty),
                        ),
                    ] + subcommands,
                ),
            }
        }
    }
}

/// The invocations of one command: the application (with the environment)
/// or a subcommand (without).
///
/// A second subcommand carrier in the member list is the first fault looked
/// for; then the attributes of the command are resolved, then its arguments,
/// then its subcommand carrier is expanded.
pub open spec fn command(
    items: Seq<SchemaItemView>,
    scope: Scope,
    path: Seq<usize>,
    env: Option<Seq<EnvVarView>>,
) -> Result<Seq<InvocationView>, CompileError>
    decreases items.len() - path.len(), 1int, 0nat,
{
    let fields = scope_fields(items, scope);
    if carriers(fields).len() >= 2 {
        Err(CompileError::MultipleSubcommands(scope_place(scope)))
    } else {
        match resolve(scope_attrs(items, scope), AttrSource::ItemLevel) {
            None => Err(CompileError::AttributeParse(scope_place(scope))),
            Some(entries) => match own_args(fields, scope, fields.len()) {
                Err(e) => Err(e),
                Ok(args) => match group(items, scope, path, args) {
                    Err(e) => Err(e),
                    Ok(rest) => Ok(
                        head(entries, scope_ident(items, scope), env) + rest + tail(env),
                    ),
                },
            },
        }
    }
}

/// The invocations of the first `k` variants of the command set `t`, each a
/// subcommand, in order; the first fault ends it.
pub open spec fn variants_upto(
    items: Seq<SchemaItemView>,
    t: usize,
    path: Seq<usize>,
    k: nat,
) -> Result<Seq<InvocationView>, CompileError>
    decreases items.len() - path.len(), 2int, k,
{
    if k == 0 {
        Ok(Seq::empty())
    } else {
        match variants_upto(items, t, path, (k - 1) as nat) {
            Err(e) => Err(e),
            Ok(before) => match command(items, Scope::Variant(t, (k - 1) as usize), path, None) {
                Err(e) => Err(e),
                Ok(next) => Ok(before + next),
            },
        }
    }
}

/// The compilation of a schema.
///
/// An options bag as root is the application with its arguments. A command
/// set as root is the application with one subcommand group, which must be
/// used, of its variants.
pub open spec fn compiled(schema: SchemaView, env: Seq<EnvVarView>) -> Result<
    Seq<InvocationView>,
    CompileError,
> {
    let root = schema.root;
    let item = schema.items[root as int];
    match item.body {
        BodyView::Options(_) => command(schema.items, Scope::Bag(root), Seq::empty(), Some(env)),
        BodyView::Commands(variants) => match resolve(item.attrs, AttrSource::ItemLevel) {
            None => Err(CompileError::AttributeParse(Place::Item(root))),
            Some(entries) => match variants_upto(
                schema.items,
                root,
                seq![root],
                variants.len(),
            ) {
                Err(e) => Err(e),
                Ok(subcommands) => Ok(
                    app_head(entries, env) + seq![
                        InvocationView::SubcommandGroup(true, item.ident),
                    ] + subcommands,
                ),
            },
        },
    }
}

/// A fault among the first `k` fields is the fault of the whole list.
proof fn lemma_own_args_fault(fields: Seq<FieldView>, scope: Scope, k: nat, n: nat)
    requires
        k <= n,
        own_args(fields, scope, k) is Err,
    ensures
        own_args(fields, scope, n) == own_args(fields, scope, k),
    decreases n - k,
{
    if k < n {
        lemma_own_args_fault(fields, scope, k, (n - 1) as nat);
    }
}

/// A fault while merging the first `k` fields is the fault of the whole
/// merge.
pub proof fn lemma_merged_fields_fault(
    args: Seq<ArgSpecView>,
    fields: Seq<FieldView>,
    t: usize,
    v: usize,
    k: nat,
    n: nat,
)
    requires
        k <= n,
        merged_fields(args, fields, t, v, k) is Err,
    ensures
        merged_fields(args, fields, t, v, n) == merged_fields(args, fields, t, v, k),
    decreases n - k,
{
    if k < n {
        lemma_merged_fields_fault(args, fields, t, v, k, (n - 1) as nat);
    }
}

/// A fault while merging the first `k` variants is the fault of the whole
/// merge.
pub proof fn lemma_merged_variants_fault(
    args: Seq<ArgSpecView>,
    variants: Seq<VariantView>,
    t: usize,
    k: nat,
    n: nat,
)
    requires
        k <= n,
        merged_variants(args, variants, t, k) is Err,
    ensures
        merged_variants(args, variants, t, n) == merged_variants(args, variants, t, k),
    decreases n - k,
{
    if k < n {
        lemma_merged_variants_fault(args, variants, t, k, (n - 1) as nat);
    }
}

/// A fault among the first `k` variants is the fault of the whole command
/// set.
pub proof fn lemma_variants_fault(
    items: Seq<SchemaItemView>,
    t: usize,
    path: Seq<usize>,
    k: nat,
    n: nat,
)
    requires
        k <= n,
        variants_upto(items, t, path, k) is Err,
    ensures
        variants_upto(items, t, path, n) == variants_upto(items, t, path, k),
    decreases n - k,
{
    if k < n {
        lemma_variants_fault(items, t, path, k, (n - 1) as nat);
    }
}

/// Every index that `carriers` lists is the index of a subcommand carrier.
pub proof fn lemma_carriers(fields: Seq<FieldView>, j: int)
    requires
        fields.len() <= usize::MAX,
        0 <= j < carriers(fields).len(),
    ensures
        carriers(fields)[j] < fields.len(),
        is_carrier(fields[carriers(fields)[j] as int]),
    decreases fields.len(),
{
    if fields.len() > 0 {
        let before = fields.drop_last();
        if j < carriers(before).len() {
            lemma_carriers(before, j);
            assert(before[carriers(before)[j] as int] == fields[carriers(before)[j] as int]);
        }
    }
}

/// In a well-formed schema the fields of every scope are in order.
proof fn lemma_scope_fields_ok(s: SchemaView, scope: Scope)
    requires
        s.wf(),
        scope_valid(s.items, scope),
    ensures
        fields_ok(s.items, scope_fields(s.items, scope)),
{
    match scope {
        Scope::Bag(i) => {
            assert(item_ok(s.items, s.items[i as int]));
        },
        Scope::Variant(i, v) => {
            assert(item_ok(s.items, s.items[i as int]));
            let variants = variants_of(s.items[i as int]);
            assert(fields_ok(s.items, variants[v as int].fields));
        },
    }
}

/// Merges one argument into a list of arguments: a fault at `at` where the
/// list holds an argument of its name already, else the list with the
/// argument at its end.
pub fn merge_arg(args: Vec<ArgSpec>, arg: ArgSpec, at: Place) -> (r: Result<
    Vec<ArgSpec>,
    CompileError,
>)
    ensures
        lift_seq(r) == merged(views(args@), arg@, at),
{
    let ghost av = views(args@);
    let mut i: usize = 0;
    while i < args.len()
        invariant
            av == views(args@),
            i <= args.len(),
            forall|j: int| 0 <= j < i ==> (#[trigger] av[j]).name != arg@.name,
        decreases args.len() - i,
    {
        assert(av[i as int] == args@[i as int]@);
        if same_text(args[i].name.as_str(), arg.name.as_str()) {
            assert(holds_name(av, arg@.name));
            return Err(CompileError::DuplicateArgument(at));
        }
        i += 1;
    }
    let mut out = args;
    proof {
        lemma_views_push(out@, arg);
    }
    out.push(arg);
    Ok(out)
}

/// Resolves the arguments of a scope, in order.
pub fn own_arguments(fields: &Vec<Field>, scope: Scope) -> (r: Result<Vec<ArgSpec>, CompileError>)
    ensures
        lift_seq(r) == own_args(views(fields@), scope, fields.len() as nat),
{
    let mut out: Vec<ArgSpec> = Vec::new();
    let ghost fv = views(fields@);
    let mut k: usize = 0;
    assert(views(out@) =~= Seq::<ArgSpecView>::empty());
    while k < fields.len()
        invariant
            fv == views(fields@),
            k <= fields.len(),
            own_args(fv, scope, k as nat) == Ok::<Seq<ArgSpecView>, CompileError>(views(out@)),
        decreases fields.len() - k,
    {
        assert(fv[k as int] == fields@[k as int]@);
        if !has_word(&fields[k].attrs, "subcommand") {
            match resolve_arg(&fields[k], place_of_field(scope, k)) {
                Ok(arg) => {
                    proof {
                        lemma_views_push(out@, arg);
                    }
                    out.push(arg);
                },
                Err(e) => {
                    proof {
                        lemma_own_args_fault(fv, scope, (k + 1) as nat, fields.len() as nat);
                    }
                    return Err(e);
                },
            }
        }
        k += 1;
    }
    Ok(out)
}

/// Merges the arguments of one variant of the command set `t` into a list.
fn merge_fields(args: Vec<ArgSpec>, fields: &Vec<Field>, t: usize, v: usize) -> (r: Result<
    Vec<ArgSpec>,
    CompileError,
>)
    ensures
        lift_seq(r) == merged_fields(views(args@), views(fields@), t, v, fields.len() as nat),
{
    let ghost start = views(args@);
    let ghost fv = views(fields@);
    let mut out = args;
    let mut k: usize = 0;
    while k < fields.len()
        invariant
            start == views(args@),
            fv == views(fields@),
            k <= fields.len(),
            merged_fields(start, fv, t, v, k as nat) == Ok::<Seq<ArgSpecView>, CompileError>(
                views(out@),
            ),
        decreases fields.len() - k,
    {
        assert(fv[k as int] == fields@[k as int]@);
        if !has_word(&fields[k].attrs, "subcommand") {
            let at = Place::Field(t, v, k);
            let arg = match resolve_arg(&fields[k], at) {
                Ok(arg) => arg,
                Err(e) => {
                    proof {
                        lemma_merged_fields_fault(
                            start,
                            fv,
                            t,
                            v,
                            (k + 1) as nat,
                            fields.len() as nat,
                        );
                    }
                    return Err(e);
                },
            };
            out = match merge_arg(out, arg, at) {
                Ok(all) => all,
                Err(e) => {
                    proof {
                        lemma_merged_fields_fault(
                            start,
                            fv,
                            t,
                            v,
                            (k + 1) as nat,
                            fields.len() as nat,
                        );
                    }
                    return Err(e);
                },
            };
        }
        k += 1;
    }
    Ok(out)
}

/// Merges the arguments of the variants of the command set `t` into a list.
fn merge_variants(args: Vec<ArgSpec>, variants: &Vec<Variant>, t: usize) -> (r: Result<
    Vec<ArgSpec>,
    CompileError,
>)
    ensures
        lift_seq(r) == merged_variants(views(args@), views(variants@), t, variants.len() as nat),
{
    let ghost start = views(args@);
    let ghost vv = views(variants@);
    let mut out = args;
    let mut k: usize = 0;
    while k < variants.len()
        invariant
            start == views(args@),
            vv == views(variants@),
            k <= variants.len(),
            merged_variants(start, vv, t, k as nat) == Ok::<Seq<ArgSpecView>, CompileError>(
                views(out@),
            ),
        decreases variants.len() - k,
    {
        assert(vv[k as int] == variants@[k as int]@);
        out = match merge_fields(out, &variants[k].fields, t, k) {
            Ok(all) => all,
            Err(e) => {
                proof {
                    lemma_merged_variants_fault(
                        start,
                        vv,
                        t,
                        (k + 1) as nat,
                        variants.len() as nat,
                    );
                }
                return Err(e);
            },
        };
        k += 1;
    }
    Ok(out)
}

/// Decides whether the path holds the item.
fn on_path(path: &Vec<usize>, t: usize) -> (r: bool)
    ensures
        r == path@.contains(t),
{
    let mut i: usize = 0;
    while i < path.len()
        invariant
            i <= path.len(),
            forall|j: int| 0 <= j < i ==> path@[j] != t,
        decreases path.len() - i,
    {
        if path[i] == t {
            return true;
        }
        i += 1;
    }
    false
}

/// The path with one more item at its end.
fn extended(path: &Vec<usize>, t: usize) -> (r: Vec<usize>)
    ensures
        r@ == path@.push(t),
{
    let mut out: Vec<usize> = Vec::new();
    let mut i: usize = 0;
    while i < path.len()
        invariant
            i <= path.len(),
            out@ == path@.take(i as int),
        decreases path.len() - i,
    {
        out.push(path[i]);
        assert(path@.take(i as int).push(path@[i as int]) =~= path@.take(i + 1));
        i += 1;
    }
    assert(path@.take(path.len() as int) =~= path@);
    out.push(t);
    out
}

/// The type of the command set that a carrier hosts.
pub fn carrier_type_of(t: &TypeShape) -> (r: String)
    ensures
        r@ == carrier_type(t@),
{
    match ty(t) {
        Ty::Option => match sub_type(t) {
            Some(inner) => inner.clone(),
            None => type_text(t).clone(),
        },
        _ => type_text(t).clone(),
    }
}

/// The variants of the command set `t`.
fn variants_at(schema: &Schema, t: usize) -> (r: &Vec<Variant>)
    requires
        t < schema.items.len(),
        schema@.items[t as int].body is Commands,
    ensures
        views(r@) == variants_of(schema@.items[t as int]),
{
    assert(schema@.items[t as int] == schema.items@[t as int]@);
    match &schema.items[t].body {
        Body::Commands(variants) => variants,
        Body::Options(_) => {
            proof {
                assert(false);
            }
            unreached()
        },
    }
}

/// The environment as the head of a command reads it.
pub open spec fn env_view(env: Option<&Environment>) -> Option<Seq<EnvVarView>> {
    match env {
        Some(e) => Some(e@),
        None => None,
    }
}

/// Expands the subcommand carrier of a scope, after the arguments.
fn expand_group(
    schema: &Schema,
    scope: Scope,
    path: &Vec<usize>,
    found: &Vec<usize>,
    args: Vec<ArgSpec>,
) -> (r: Result<Vec<Invocation>, CompileError>)
    requires
        schema@.wf(),
        scope_valid(schema@.items, scope),
        found@ == carriers(scope_fields(schema@.items, scope)),
    ensures
        lift_seq(r) == group(schema@.items, scope, path@, views(args@)),
    decreases schema.items.len() - path.len(), 0int, 0nat,
{
    let ghost items = schema@.items;
    if found.len() == 0 {
        return Ok(emit_args(&args));
    }
    let c = found[0];
    let parts = scope_parts(schema, scope);
    let fields = parts.0;
    proof {
        assert(scope_fields(items, scope).len() == fields.len());
        lemma_carriers(scope_fields(items, scope), 0);
        lemma_scope_fields_ok(schema@, scope);
    }
    let f = &fields[c];
    assert(f@ == scope_fields(items, scope)[c as int]);
    assert(field_ok(items, f@));
    let t = match f.target {
        Some(t) => t,
        None => {
            proof {
                assert(false);
            }
            unreached()
        },
    };
    if on_path(path, t) || path.len() >= schema.items.len() {
        return Err(CompileError::CyclicSchema(place_of_field(scope, c)));
    }
    let variants = variants_at(schema, t);
    if has_word(&f.attrs, "flatten") {
        match merge_variants(args, variants, t) {
            Ok(all) => Ok(emit_args(&all)),
            Err(e) => Err(e),
        }
    } else {
        let next = extended(path, t);
        match expand_variants(schema, t, &next) {
            Ok(mut subcommands) => {
                let mut out = emit_args(&args);
                let required = match ty(&f.ty) {
                    Ty::Option => false,
                    _ => true,
                };
                let open = Invocation::SubcommandGroup(required, carrier_type_of(&f.ty));
                proof {
                    lemma_views_push(out@, open);
                    lemma_views_add(out@.push(open), subcommands@);
                    assert(views(out@).push(open@) =~= views(out@) + seq![open@]);
                }
                out.push(open);
                out.append(&mut subcommands);
                Ok(out)
            },
            Err(e) => Err(e),
        }
    }
}

/// Expands one command: the application or a subcommand.
fn expand_command(schema: &Schema, scope: Scope, path: &Vec<usize>, env: Option<&Environment>) -> (r:
    Result<Vec<Invocation>, CompileError>)
    requires
        schema@.wf(),
        scope_valid(schema@.items, scope),
    ensures
        lift_seq(r) == command(schema@.items, scope, path@, env_view(env)),
    decreases schema.items.len() - path.len(), 1int, 0nat,
{
    let parts = scope_parts(schema, scope);
    let found = find_carriers(parts.0);
    let at = place_of(scope);
    if found.len() >= 2 {
        return Err(CompileError::MultipleSubcommands(at));
    }
    let entries = match extract_attrs(parts.1, AttrSource::ItemLevel, at) {
        Ok(entries) => entries,
        Err(e) => {
            return Err(e);
        },
    };
    let args = match own_arguments(parts.0, scope) {
        Ok(args) => args,
        Err(e) => {
            return Err(e);
        },
    };
    let mut rest = match expand_group(schema, scope, path, &found, args) {
        Ok(rest) => rest,
        Err(e) => {
            return Err(e);
        },
    };
    match env {
        Some(vars) => {
            let mut out = emit_app_head(&entries, vars);
            proof {
                lemma_views_add(out@, rest@);
                assert(views(out@) + views(rest@) + Seq::<InvocationView>::empty() =~= views(out@)
                    + views(rest@));
            }
            out.append(&mut rest);
            Ok(out)
        },
        None => {
            let mut out: Vec<Invocation> = Vec::new();
            let open = Invocation::Subcommand(name_of(&entries, parts.2));
            out.push(open);
            assert(views(out@) =~= seq![open@]);
            let mut calls = emit_setters(&entries, false);
            proof {
                lemma_views_add(out@, calls@);
            }
            out.append(&mut calls);
            proof {
                lemma_views_add(out@, rest@);
            }
            out.append(&mut rest);
            proof {
                lemma_views_push(out@, Invocation::EndSubcommand);
                assert(views(out@).push(InvocationView::EndSubcommand) =~= views(out@) + seq![
                    InvocationView::EndSubcommand,
                ]);
            }
            out.push(Invocation::EndSubcommand);
            Ok(out)
        },
    }
}

/// Expands the variants of the command set `t`, each into a subcommand.
fn expand_variants(schema: &Schema, t: usize, path: &Vec<usize>) -> (r: Result<
    Vec<Invocation>,
    CompileError,
>)
    requires
        schema@.wf(),
        t < schema.items.len(),
        schema@.items[t as int].body is Commands,
    ensures
        lift_seq(r) == variants_upto(
            schema@.items,
            t,
            path@,
            variants_of(schema@.items[t as int]).len(),
        ),
    decreases schema.items.len() - path.len(), 2int, 0nat,
{
    let ghost items = schema@.items;
    let n = variants_at(schema, t).len();
    let mut out: Vec<Invocation> = Vec::new();
    let mut k: usize = 0;
    assert(views(out@) =~= Seq::<InvocationView>::empty());
    while k < n
        invariant
            schema@.wf(),
            items == schema@.items,
            t < schema.items.len(),
            n == variants_of(items[t as int]).len(),
            k <= n,
            variants_upto(items, t, path@, k as nat) == Ok::<Seq<InvocationView>, CompileError>(
                views(out@),
            ),
        decreases n - k,
    {
        match expand_command(schema, Scope::Variant(t, k), path, None) {
            Ok(mut next) => {
                proof {
                    lemma_views_add(out@, next@);
                }
                out.append(&mut next);
            },
            Err(e) => {
                proof {
                    lemma_variants_fault(items, t, path@, (k + 1) as nat, n as nat);
                }
                return Err(e);
            },
        }
        k += 1;
    }
    Ok(out)
}

/// Compiles the schema into the invocations that build its parser, or
/// returns the first fault.
///
/// The result depends on the schema and on the snapshot of the environment
/// alone. An options bag as root gives the application with its arguments
/// and what its subcommand carrier hosts; a command set as root gives the
/// application with a subcommand for each of its variants.
pub fn compile(schema: &Schema, env: &Environment) -> (r: Result<GeneratedSpec, CompileError>)
    requires
        schema@.wf(),
    ensures
        lift(r) == compiled(schema@, env@),
{
    let root = schema.root;
    assert(schema@.items[root as int] == schema.items@[root as int]@);
    let item = &schema.items[root];
    match &item.body {
        Body::Options(_) => {
            let path: Vec<usize> = Vec::new();
            assert(path@ =~= Seq::<usize>::empty());
            match expand_command(schema, Scope::Bag(root), &path, Some(env)) {
                Ok(invocations) => Ok(GeneratedSpec { invocations }),
                Err(e) => Err(e),
            }
        },
        Body::Commands(_) => {
            let entries = match extract_attrs(
                &item.attrs,
                AttrSource::ItemLevel,
                Place::Item(root),
            ) {
                Ok(entries) => entries,
                Err(e) => {
                    return Err(e);
                },
            };
            let mut path: Vec<usize> = Vec::new();
            path.push(root);
            assert(path@ =~= seq![root]);
            let mut subcommands = match expand_variants(schema, root, &path) {
                Ok(subcommands) => subcommands,
                Err(e) => {
                    return Err(e);
                },
            };
            let mut out = emit_app_head(&entries, env);
            let open = Invocation::SubcommandGroup(true, item.ident.clone());
            proof {
                lemma_views_push(out@, open);
                lemma_views_add(out@.push(open), subcommands@);
                assert(views(out@).push(open@) =~= views(out@) + seq![open@]);
            }
            out.push(open);
            out.append(&mut subcommands);
            Ok(GeneratedSpec { invocations: out })
        },
    }
}

} // verus!
