//! What holds of every schema: the laws of the classification, of the
//! emitted flags, and of the faults of the subcommand tree.

use crate::attrs::{malformed, resolve, AttrSource, AttributeEntryView, EnvVarView};
use crate::builder::{
    command, compiled, group, holds_name, lemma_merged_fields_fault, lemma_merged_variants_fault,
    lemma_variants_fault, merged_fields, merged_variants, own_args, variants_upto,
};
use crate::directives::marked;
use crate::emit::{arg_invocations, setters, validators, InvocationView};
use crate::error::{CompileError, Place};
use crate::member::{arg_spec, ArgSpecView};
use crate::model::{FieldView, SchemaItemView, SchemaView, VariantView};
use crate::parser::{parse_args, ParserSpecView};
use crate::scope::{
    carriers, field_place, fields_of, is_carrier, scope_attrs, scope_fields, scope_place,
    variants_of, Scope,
};
use crate::types::{classification, params_of, ty_of, Cardinality, ClassifiedView, Ty};
use vstd::prelude::*;
use vstd::set_lib::{lemma_int_range, lemma_len_subset, set_int_range};

verus! {

/// Every call that `setters` gives is a setter.
pub proof fn lemma_setters_are_setters(entries: Seq<AttributeEntryView>, metadata: bool, i: int)
    requires
        0 <= i < setters(entries, metadata).len(),
    ensures
        setters(entries, metadata)[i] is Setter || setters(entries, metadata)[i] is RawSetter,
    decreases entries.len(),
{
    if entries.len() > 0 {
        let before = setters(entries.drop_last(), metadata);
        if i < before.len() {
            lemma_setters_are_setters(entries.drop_last(), metadata, i);
        }
    }
}

/// The invocations of an argument begin with its opening and its three
/// flags, and hold no validator but the one of its conversion.
pub proof fn lemma_arg_invocations(a: ArgSpecView)
    ensures
        arg_invocations(a).len() == 5 + validators(a.parser, a.base).len() + setters(
            a.entries,
            false,
        ).len(),
        arg_invocations(a)[0] == InvocationView::Arg(a.name),
        arg_invocations(a)[1] is TakesValue,
        arg_invocations(a)[2] is Multiple,
        arg_invocations(a)[3] is Required,
        arg_invocations(a).last() == InvocationView::EndArg,
        validators(a.parser, a.base).len() == 0 ==> forall|i: int|
            0 <= i < arg_invocations(a).len() ==> !(#[trigger] arg_invocations(a)[i] is Validator),
{
    let calls = setters(a.entries, false);
    if validators(a.parser, a.base).len() == 0 {
        assert forall|i: int| 0 <= i < arg_invocations(a).len() implies !(
        #[trigger] arg_invocations(a)[i] is Validator) by {
            if 4 <= i < 4 + calls.len() {
                lemma_setters_are_setters(a.entries, false, i - 4);
                assert(arg_invocations(a)[i] == calls[i - 4]);
            }
        }
    }
}

/// A boolean member without a custom parser is a flag: it has no
/// conversion, and its invocations hold no validator. The only fault that
/// such a member can have is one of its attributes.
pub proof fn law_boolean_member_is_flag(f: FieldView, at: Place)
    requires
        ty_of(f.ty) == Ty::Bool,
        parse_args(f.attrs) is None,
    ensures
        match arg_spec(f, at) {
            Ok(a) => {
                &&& a.cardinality == Cardinality::Flag
                &&& a.parser == ParserSpecView::Absent
                &&& arg_invocations(a)[1] == InvocationView::TakesValue(false)
                &&& arg_invocations(a)[2] == InvocationView::Multiple(false)
                &&& forall|i: int|
                    0 <= i < arg_invocations(a).len() ==> !(#[trigger] arg_invocations(a)[i]
                        is Validator)
            },
            Err(e) => e == CompileError::AttributeParse(at) && malformed(f.attrs),
        },
{
    match arg_spec(f, at) {
        Ok(a) => {
            lemma_arg_invocations(a);
        },
        Err(e) => {},
    }
}

/// A counter-typed member without a custom parser is a counter: it takes no
/// value and may occur any number of times. The only fault that such a
/// member can have is one of its attributes.
pub proof fn law_counter_member_is_counter(f: FieldView, at: Place)
    requires
        ty_of(f.ty) == Ty::U64,
        parse_args(f.attrs) is None,
    ensures
        match arg_spec(f, at) {
            Ok(a) => {
                &&& a.cardinality == Cardinality::Counter
                &&& a.parser == ParserSpecView::Absent
                &&& arg_invocations(a)[1] == InvocationView::TakesValue(false)
                &&& arg_invocations(a)[2] == InvocationView::Multiple(true)
            },
            Err(e) => e == CompileError::AttributeParse(at) && malformed(f.attrs),
        },
{
}

/// An `Option` of one parameter is optional, with or without a custom
/// parser: its type is never a fault, and its argument is never required,
/// whether or not it has a default value.
pub proof fn law_optional_member_is_never_required(f: FieldView, at: Place)
    requires
        ty_of(f.ty) == Ty::Option,
        params_of(f.ty).len() == 1,
    ensures
        classification(f.ty, parse_args(f.attrs) is Some) == Some(
            ClassifiedView { cardinality: Cardinality::Optional, base: params_of(f.ty)[0] },
        ),
        match arg_spec(f, at) {
            Ok(a) => {
                &&& a.cardinality == Cardinality::Optional
                &&& a.base == params_of(f.ty)[0]
                &&& arg_invocations(a)[1] == InvocationView::TakesValue(true)
                &&& arg_invocations(a)[2] == InvocationView::Multiple(false)
                &&& arg_invocations(a)[3] == InvocationView::Required(false)
            },
            Err(e) => e != CompileError::UnsupportedType(at),
        },
{
}

/// A `Vec` of one parameter is a list, with or without a custom parser: its
/// argument takes values and may occur any number of times.
pub proof fn law_sequence_member_is_list(f: FieldView, at: Place)
    requires
        ty_of(f.ty) == Ty::Vec,
        params_of(f.ty).len() == 1,
    ensures
        classification(f.ty, parse_args(f.attrs) is Some) == Some(
            ClassifiedView { cardinality: Cardinality::List, base: params_of(f.ty)[0] },
        ),
        match arg_spec(f, at) {
            Ok(a) => {
                &&& a.cardinality == Cardinality::List
                &&& a.base == params_of(f.ty)[0]
                &&& arg_invocations(a)[1] == InvocationView::TakesValue(true)
                &&& arg_invocations(a)[2] == InvocationView::Multiple(true)
            },
            Err(e) => e != CompileError::UnsupportedType(at),
        },
{
}

/// A carrier in the list is counted.
proof fn lemma_one_carrier(fields: Seq<FieldView>, i: int)
    requires
        0 <= i < fields.len(),
        is_carrier(fields[i]),
    ensures
        carriers(fields).len() >= 1,
    decreases fields.len(),
{
    if i < fields.len() - 1 {
        lemma_one_carrier(fields.drop_last(), i);
    }
}

/// Two carriers in the list are counted.
pub proof fn lemma_two_carriers(fields: Seq<FieldView>, i: int, j: int)
    requires
        0 <= i < j < fields.len(),
        is_carrier(fields[i]),
        is_carrier(fields[j]),
    ensures
        carriers(fields).len() >= 2,
    decreases fields.len(),
{
    if j < fields.len() - 1 {
        lemma_two_carriers(fields.drop_last(), i, j);
    } else {
        lemma_one_carrier(fields.drop_last(), i);
    }
}

/// A member list with two subcommand carriers is a fault of its command,
/// whatever else the command holds.
pub proof fn law_two_carriers_in_scope(
    items: Seq<SchemaItemView>,
    scope: Scope,
    path: Seq<usize>,
    env: Option<Seq<EnvVarView>>,
    i: int,
    j: int,
)
    requires
        0 <= i < j < scope_fields(items, scope).len(),
        is_carrier(scope_fields(items, scope)[i]),
        is_carrier(scope_fields(items, scope)[j]),
    ensures
        command(items, scope, path, env) == Err::<Seq<InvocationView>, CompileError>(
            CompileError::MultipleSubcommands(scope_place(scope)),
        ),
{
    lemma_two_carriers(scope_fields(items, scope), i, j);
}

/// An options bag with two subcommand carriers does not compile: the fault
/// is `MultipleSubcommands`, at the bag.
pub proof fn law_two_carriers(schema: SchemaView, env: Seq<EnvVarView>, i: int, j: int)
    requires
        schema.items[schema.root as int].body is Options,
        0 <= i < j < fields_of(schema.items[schema.root as int]).len(),
        is_carrier(fields_of(schema.items[schema.root as int])[i]),
        is_carrier(fields_of(schema.items[schema.root as int])[j]),
    ensures
        compiled(schema, env) == Err::<Seq<InvocationView>, CompileError>(
            CompileError::MultipleSubcommands(Place::Item(schema.root)),
        ),
{
    law_two_carriers_in_scope(
        schema.items,
        Scope::Bag(schema.root),
        Seq::empty(),
        Some(env),
        i,
        j,
    );
}

/// A carrier that hosts a command set under expansion is a fault:
/// `CyclicSchema`, at the carrier.
pub proof fn law_carrier_back_to_path(
    items: Seq<SchemaItemView>,
    scope: Scope,
    path: Seq<usize>,
    args: Seq<ArgSpecView>,
)
    requires
        carriers(scope_fields(items, scope)).len() >= 1,
        path.contains(
            scope_fields(items, scope)[carriers(scope_fields(items, scope))[0] as int].target->0,
        ),
    ensures
        group(items, scope, path, args) == Err::<Seq<InvocationView>, CompileError>(
            CompileError::CyclicSchema(
                field_place(scope, carriers(scope_fields(items, scope))[0]),
            ),
        ),
{
}

/// Whether the carrier of the scope leads back to a command set on its own
/// way: one on `path`, or one passed while following the route. The route
/// names, for each command set that is entered, the variant whose carrier is
/// followed next.
pub open spec fn leads_back(
    items: Seq<SchemaItemView>,
    scope: Scope,
    path: Seq<usize>,
    route: Seq<usize>,
) -> bool
    decreases route.len(),
{
    let fields = scope_fields(items, scope);
    carriers(fields).len() >= 1 && {
        let f = fields[carriers(fields)[0] as int];
        let t = f.target->0;
        path.contains(t) || (route.len() > 0 && !marked(f.attrs, "flatten"@) && route[0]
            < variants_of(items[t as int]).len() && leads_back(
            items,
            Scope::Variant(t, route[0]),
            path.push(t),
            route.skip(1),
        ))
    }
}

/// A fault of one variant is a fault of its command set.
proof fn lemma_variant_fault(items: Seq<SchemaItemView>, t: usize, path: Seq<usize>, v: usize)
    requires
        v < variants_of(items[t as int]).len(),
        command(items, Scope::Variant(t, v), path, None) is Err,
    ensures
        variants_upto(items, t, path, variants_of(items[t as int]).len()) is Err,
{
    let n = variants_of(items[t as int]).len();
    assert(variants_upto(items, t, path, (v + 1) as nat) is Err);
    lemma_variants_fault(items, t, path, (v + 1) as nat, n);
}

/// A command whose subcommand carrier leads back to a command set on its
/// own way does not compile: the expansion ends, and it ends in a fault.
pub proof fn law_cycle_is_fault(
    items: Seq<SchemaItemView>,
    scope: Scope,
    path: Seq<usize>,
    env: Option<Seq<EnvVarView>>,
    route: Seq<usize>,
)
    requires
        leads_back(items, scope, path, route),
    ensures
        command(items, scope, path, env) is Err,
    decreases route.len(),
{
    let fields = scope_fields(items, scope);
    let f = fields[carriers(fields)[0] as int];
    let t = f.target->0;
    if !(path.contains(t) || path.len() >= items.len()) {
        let v = route[0];
        law_cycle_is_fault(items, Scope::Variant(t, v), path.push(t), None, route.skip(1));
        lemma_variant_fault(items, t, path.push(t), v);
    }
}

/// A schema whose root leads back to a command set on its own way does not
/// compile.
pub proof fn law_cyclic_schema(schema: SchemaView, env: Seq<EnvVarView>, route: Seq<usize>)
    requires
        schema.items[schema.root as int].body is Options,
        leads_back(schema.items, Scope::Bag(schema.root), Seq::empty(), route),
    ensures
        compiled(schema, env) is Err,
{
    law_cycle_is_fault(schema.items, Scope::Bag(schema.root), Seq::empty(), Some(env), route);
}

/// A command set as root, one of whose variants leads back to a command set
/// on its own way, the root among them, does not compile.
pub proof fn law_cyclic_command_set(
    schema: SchemaView,
    env: Seq<EnvVarView>,
    v: usize,
    route: Seq<usize>,
)
    requires
        schema.items[schema.root as int].body is Commands,
        v < variants_of(schema.items[schema.root as int]).len(),
        leads_back(schema.items, Scope::Variant(schema.root, v), seq![schema.root], route),
    ensures
        compiled(schema, env) is Err,
{
    law_cycle_is_fault(
        schema.items,
        Scope::Variant(schema.root, v),
        seq![schema.root],
        None,
        route,
    );
    lemma_variant_fault(schema.items, schema.root, seq![schema.root], v);
}

/// The command set that the carrier of the scope hosts.
pub open spec fn hosted(items: Seq<SchemaItemView>, scope: Scope) -> usize {
    let fields = scope_fields(items, scope);
    fields[carriers(fields)[0] as int].target->0
}

/// The place of the carrier at the end of a route: the one that leads back.
pub open spec fn closing_carrier(items: Seq<SchemaItemView>, scope: Scope, route: Seq<usize>) -> Place
    decreases route.len(),
{
    if route.len() == 0 {
        field_place(scope, carriers(scope_fields(items, scope))[0])
    } else {
        closing_carrier(items, Scope::Variant(hosted(items, scope), route[0]), route.skip(1))
    }
}

/// Whether the route from the scope leads back to a command set on its own
/// way without meeting another fault first: every command on the route has
/// one carrier, attributes that can be read and arguments without a fault;
/// in every command set that is entered, the variants before the one that
/// the route follows expand without a fault; and the carrier at the end of
/// the route hosts a command set on the way.
pub open spec fn leads_back_cleanly(
    items: Seq<SchemaItemView>,
    scope: Scope,
    path: Seq<usize>,
    route: Seq<usize>,
) -> bool
    decreases route.len(),
{
    let fields = scope_fields(items, scope);
    let t = hosted(items, scope);
    &&& carriers(fields).len() == 1
    &&& resolve(scope_attrs(items, scope), AttrSource::ItemLevel) is Some
    &&& own_args(fields, scope, fields.len()) is Ok
    &&& if route.len() == 0 {
        path.contains(t)
    } else {
        &&& !path.contains(t)
        &&& t < items.len()
        &&& !marked(fields[carriers(fields)[0] as int].attrs, "flatten"@)
        &&& route[0] < variants_of(items[t as int]).len()
        &&& variants_upto(items, t, path.push(t), route[0] as nat) is Ok
        &&& leads_back_cleanly(items, Scope::Variant(t, route[0]), path.push(t), route.skip(1))
    }
}

/// A command whose subcommand carrier leads back to a command set on its
/// own way, with no other fault met before, fails with `CyclicSchema`, at the
/// carrier that leads back.
pub proof fn law_cycle_is_cyclic_schema(
    items: Seq<SchemaItemView>,
    scope: Scope,
    path: Seq<usize>,
    env: Option<Seq<EnvVarView>>,
    route: Seq<usize>,
)
    requires
        is_way(items, path),
        leads_back_cleanly(items, scope, path, route),
    ensures
        command(items, scope, path, env) == Err::<Seq<InvocationView>, CompileError>(
            CompileError::CyclicSchema(closing_carrier(items, scope, route)),
        ),
    decreases route.len(),
{
    if route.len() > 0 {
        let t = hosted(items, scope);
        let v = route[0];
        let n = variants_of(items[t as int]).len();
        law_way_is_short(items, path, t);
        law_way_grows(items, path, t);
        law_cycle_is_cyclic_schema(items, Scope::Variant(t, v), path.push(t), None, route.skip(1));
        assert(variants_upto(items, t, path.push(t), (v + 1) as nat) == Err::<
            Seq<InvocationView>,
            CompileError,
        >(CompileError::CyclicSchema(closing_carrier(items, scope, route))));
        lemma_variants_fault(items, t, path.push(t), (v + 1) as nat, n);
    }
}

/// A schema whose root is an options bag that leads back cleanly fails with
/// `CyclicSchema`.
pub proof fn law_cyclic_schema_is_cyclic_schema(
    schema: SchemaView,
    env: Seq<EnvVarView>,
    route: Seq<usize>,
)
    requires
        schema.items[schema.root as int].body is Options,
        leads_back_cleanly(schema.items, Scope::Bag(schema.root), Seq::empty(), route),
    ensures
        compiled(schema, env) == Err::<Seq<InvocationView>, CompileError>(
            CompileError::CyclicSchema(
                closing_carrier(schema.items, Scope::Bag(schema.root), route),
            ),
        ),
{
    law_cycle_is_cyclic_schema(
        schema.items,
        Scope::Bag(schema.root),
        Seq::empty(),
        Some(env),
        route,
    );
}

/// Merging keeps the names that the list holds.
proof fn lemma_merged_fields_keep(
    args: Seq<ArgSpecView>,
    fields: Seq<FieldView>,
    t: usize,
    v: usize,
    k: nat,
    name: Seq<char>,
)
    requires
        holds_name(args, name),
    ensures
        match merged_fields(args, fields, t, v, k) {
            Ok(all) => holds_name(all, name),
            Err(_) => true,
        },
    decreases k,
{
    if k > 0 {
        lemma_merged_fields_keep(args, fields, t, v, (k - 1) as nat, name);
        match merged_fields(args, fields, t, v, (k - 1) as nat) {
            Ok(before) => {
                let i = choose|i: int| 0 <= i < before.len() && (#[trigger] before[i]).name == name;
                match merged_fields(args, fields, t, v, k) {
                    Ok(all) => {
                        assert(all[i] == before[i]);
                    },
                    Err(_) => {},
                }
            },
            Err(_) => {},
        }
    }
}

/// Flattening an argument whose name the parent's list holds is a fault:
/// the merge of its variant does not succeed, and where the fields before it
/// were merged without a fault, the fault is `DuplicateArgument` at the
/// colliding field.
pub proof fn law_flatten_collision(
    args: Seq<ArgSpecView>,
    fields: Seq<FieldView>,
    t: usize,
    v: usize,
    k: usize,
)
    requires
        k < fields.len(),
        !is_carrier(fields[k as int]),
        arg_spec(fields[k as int], Place::Field(t, v, k)) is Ok,
        holds_name(args, arg_spec(fields[k as int], Place::Field(t, v, k))->Ok_0.name),
    ensures
        merged_fields(args, fields, t, v, fields.len()) is Err,
        merged_fields(args, fields, t, v, k as nat) is Ok ==> merged_fields(
            args,
            fields,
            t,
            v,
            fields.len(),
        ) == Err::<Seq<ArgSpecView>, CompileError>(
            CompileError::DuplicateArgument(Place::Field(t, v, k)),
        ),
{
    let a = arg_spec(fields[k as int], Place::Field(t, v, k))->Ok_0;
    lemma_merged_fields_keep(args, fields, t, v, k as nat, a.name);
    let next = merged_fields(args, fields, t, v, (k + 1) as nat);
    assert(next is Err);
    assert(merged_fields(args, fields, t, v, k as nat) is Ok ==> next == Err::<
        Seq<ArgSpecView>,
        CompileError,
    >(CompileError::DuplicateArgument(Place::Field(t, v, k))));
    lemma_merged_fields_fault(args, fields, t, v, (k + 1) as nat, fields.len());
}

/// Merging the variants keeps the names that the list holds.
proof fn lemma_merged_variants_keep(
    args: Seq<ArgSpecView>,
    variants: Seq<VariantView>,
    t: usize,
    k: nat,
    name: Seq<char>,
)
    requires
        holds_name(args, name),
    ensures
        match merged_variants(args, variants, t, k) {
            Ok(all) => holds_name(all, name),
            Err(_) => true,
        },
    decreases k,
{
    if k > 0 {
        lemma_merged_variants_keep(args, variants, t, (k - 1) as nat, name);
        match merged_variants(args, variants, t, (k - 1) as nat) {
            Ok(before) => {
                lemma_merged_fields_keep(
                    before,
                    variants[k - 1].fields,
                    t,
                    (k - 1) as usize,
                    variants[k - 1].fields.len(),
                    name,
                );
            },
            Err(_) => {},
        }
    }
}

/// Whether the carrier of the scope is flattened and the field `k` of the
/// variant `v` of its command set collides with an argument of the scope,
/// with no fault met before: the command has one carrier, attributes that can
/// be read and arguments without a fault; the carrier does not lead back; the
/// variants before `v` and the fields of `v` before `k` merge without a
/// fault; and the field resolves to an argument whose name an argument of
/// the scope has.
pub open spec fn collides_cleanly(
    items: Seq<SchemaItemView>,
    scope: Scope,
    path: Seq<usize>,
    v: usize,
    k: usize,
) -> bool {
    let fields = scope_fields(items, scope);
    let t = hosted(items, scope);
    let variants = variants_of(items[t as int]);
    let at = Place::Field(t, v, k);
    &&& carriers(fields).len() == 1
    &&& resolve(scope_attrs(items, scope), AttrSource::ItemLevel) is Some
    &&& own_args(fields, scope, fields.len()) matches Ok(args)
    &&& !path.contains(t)
    &&& t < items.len()
    &&& marked(fields[carriers(fields)[0] as int].attrs, "flatten"@)
    &&& v < variants.len()
    &&& k < variants[v as int].fields.len()
    &&& merged_variants(args, variants, t, v as nat) matches Ok(before)
    &&& merged_fields(before, variants[v as int].fields, t, v, k as nat) is Ok
    &&& !is_carrier(variants[v as int].fields[k as int])
    &&& arg_spec(variants[v as int].fields[k as int], at) matches Ok(a)
    &&& holds_name(args, a.name)
}

/// Flattening an argument whose name an argument of the parent has fails
/// with `DuplicateArgument`, at the colliding field, where no other fault is
/// met before; nothing of the parent's arguments is emitted.
pub proof fn law_flatten_collision_in_command(
    items: Seq<SchemaItemView>,
    scope: Scope,
    path: Seq<usize>,
    env: Option<Seq<EnvVarView>>,
    v: usize,
    k: usize,
)
    requires
        is_way(items, path),
        collides_cleanly(items, scope, path, v, k),
    ensures
        command(items, scope, path, env) == Err::<Seq<InvocationView>, CompileError>(
            CompileError::DuplicateArgument(Place::Field(hosted(items, scope), v, k)),
        ),
{
    let fields = scope_fields(items, scope);
    let t = hosted(items, scope);
    let variants = variants_of(items[t as int]);
    let args = own_args(fields, scope, fields.len())->Ok_0;
    let before = merged_variants(args, variants, t, v as nat)->Ok_0;
    let inner = variants[v as int].fields;
    let a = arg_spec(inner[k as int], Place::Field(t, v, k))->Ok_0;
    law_way_is_short(items, path, t);
    lemma_merged_variants_keep(args, variants, t, v as nat, a.name);
    lemma_merged_fields_keep(before, inner, t, v, k as nat, a.name);
    let fault = Err::<Seq<ArgSpecView>, CompileError>(
        CompileError::DuplicateArgument(Place::Field(t, v, k)),
    );
    assert(merged_fields(before, inner, t, v, (k + 1) as nat) == fault);
    lemma_merged_fields_fault(before, inner, t, v, (k + 1) as nat, inner.len());
    assert(merged_variants(args, variants, t, (v + 1) as nat) == fault);
    lemma_merged_variants_fault(args, variants, t, (v + 1) as nat, variants.len());
}

/// A schema whose root is an options bag with a flattened carrier, one of
/// whose arguments collides with an argument of the bag, fails with
/// `DuplicateArgument` at the colliding field, where no other fault is met
/// before.
pub proof fn law_flatten_collision_in_schema(
    schema: SchemaView,
    env: Seq<EnvVarView>,
    v: usize,
    k: usize,
)
    requires
        schema.items[schema.root as int].body is Options,
        collides_cleanly(schema.items, Scope::Bag(schema.root), Seq::empty(), v, k),
    ensures
        compiled(schema, env) == Err::<Seq<InvocationView>, CompileError>(
            CompileError::DuplicateArgument(
                Place::Field(hosted(schema.items, Scope::Bag(schema.root)), v, k),
            ),
        ),
{
    law_flatten_collision_in_command(
        schema.items,
        Scope::Bag(schema.root),
        Seq::empty(),
        Some(env),
        v,
        k,
    );
}

/// A path of an expansion: items of the schema, none of them twice.
pub open spec fn is_way(items: Seq<SchemaItemView>, path: Seq<usize>) -> bool {
    path.no_duplicates() && forall|i: int| 0 <= i < path.len() ==> path[i] < items.len()
}

/// Entering a command set that is not on the way gives a way again: so
/// every path that an expansion from the root reaches is a way.
pub proof fn law_way_grows(items: Seq<SchemaItemView>, path: Seq<usize>, t: usize)
    requires
        is_way(items, path),
        t < items.len(),
        !path.contains(t),
    ensures
        is_way(items, path.push(t)),
{
}

/// A way is shorter than the schema has items as long as an item is left to
/// enter. So on a way the bound on the path's length in `group` never
/// decides: there a carrier is a `CyclicSchema` fault only if it hosts a
/// command set on the path.
pub proof fn law_way_is_short(items: Seq<SchemaItemView>, path: Seq<usize>, t: usize)
    requires
        is_way(items, path),
        t < items.len(),
        !path.contains(t),
    ensures
        path.len() < items.len(),
{
    let longer = path.push(t);
    let f = |x: usize| x as int;
    assert forall|x: usize, y: usize| #[trigger] f(x) == #[trigger] f(y) implies x == y by {}
    longer.lemma_no_duplicates_injective(f);
    let ints = longer.map_values(f);
    ints.unique_seq_to_set();
    let range = set_int_range(0, items.len() as int);
    lemma_int_range(0, items.len() as int);
    assert(ints.to_set().subset_of(range)) by {
        assert forall|x: int| ints.to_set().contains(x) implies range.contains(x) by {
            let i = choose|i: int| 0 <= i < ints.len() && ints[i] == x;
            assert(ints[i] == longer[i] as int);
        }
    }
    lemma_len_subset(ints.to_set(), range);
}

} // verus!
