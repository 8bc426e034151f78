//! Member lists and their places: the fields of an options bag or of one
//! variant of a command set, the subcommand carriers among them, and the
//! validity of a schema.

use crate::directives::{has_word, marked};
use crate::error::Place;
use crate::model::{
    views, Body, BodyView, Field, FieldView, RawAttribute, RawAttributeView, Schema, SchemaItem,
    SchemaItemView, SchemaView, Variant, VariantView,
};
use vstd::prelude::*;

verus! {

/// A member list of a schema: that of an options bag, or that of one variant
/// of a command set.
#[derive(Clone, Copy, Debug, PartialEq, Eq, Structural)]
pub enum Scope {
    /// The fields of the options bag with this index.
    Bag(usize),
    /// The fields of a variant: the index of the command set, then that of
    /// the variant.
    Variant(usize, usize),
}

/// The variants of a command set; none for an options bag.
pub open spec fn variants_of(item: SchemaItemView) -> Seq<VariantView> {
    match item.body {
        BodyView::Commands(variants) => variants,
        BodyView::Options(_) => Seq::empty(),
    }
}

/// The fields of an options bag; none for a command set.
pub open spec fn fields_of(item: SchemaItemView) -> Seq<FieldView> {
    match item.body {
        BodyView::Options(fields) => fields,
        BodyView::Commands(_) => Seq::empty(),
    }
}

/// Whether the scope names a member list of the schema.
pub open spec fn scope_valid(items: Seq<SchemaItemView>, scope: Scope) -> bool {
    match scope {
        Scope::Bag(i) => i < items.len() && items[i as int].body is Options,
        Scope::Variant(i, v) => i < items.len() && v < variants_of(items[i as int]).len(),
    }
}

/// The fields of the scope.
pub open spec fn scope_fields(items: Seq<SchemaItemView>, scope: Scope) -> Seq<FieldView> {
    match scope {
        Scope::Bag(i) => fields_of(items[i as int]),
        Scope::Variant(i, v) => variants_of(items[i as int])[v as int].fields,
    }
}

/// The attributes of the item or variant that owns the scope.
pub open spec fn scope_attrs(items: Seq<SchemaItemView>, scope: Scope) -> Seq<RawAttributeView> {
    match scope {
        Scope::Bag(i) => items[i as int].attrs,
        Scope::Variant(i, v) => variants_of(items[i as int])[v as int].attrs,
    }
}

/// The identifier of the item or variant that owns the scope.
pub open spec fn scope_ident(items: Seq<SchemaItemView>, scope: Scope) -> Seq<char> {
    match scope {
        Scope::Bag(i) => items[i as int].ident,
        Scope::Variant(i, v) => variants_of(items[i as int])[v as int].ident,
    }
}

/// The place of the item or variant that owns the scope.
pub open spec fn scope_place(scope: Scope) -> Place {
    match scope {
        Scope::Bag(i) => Place::Item(i),
        Scope::Variant(i, v) => Place::Member(i, v),
    }
}

/// The place of the field with index `k` in the scope.
pub open spec fn field_place(scope: Scope, k: usize) -> Place {
    match scope {
        Scope::Bag(i) => Place::Member(i, k),
        Scope::Variant(i, v) => Place::Field(i, v, k),
    }
}

/// A field is a subcommand carrier when its settings hold the word
/// `subcommand`.
pub open spec fn is_carrier(f: FieldView) -> bool {
    marked(f.attrs, "subcommand"@)
}

/// The indices of the subcommand carriers among the fields, ascending.
pub open spec fn carriers(fields: Seq<FieldView>) -> Seq<usize>
    decreases fields.len(),
{
    if fields.len() == 0 {
        Seq::empty()
    } else if is_carrier(fields.last()) {
        carriers(fields.drop_last()).push((fields.len() - 1) as usize)
    } else {
        carriers(fields.drop_last())
    }
}

/// A field is in order when it hosts a command set of the schema if it is a
/// subcommand carrier, and nothing if it is not.
pub open spec fn field_ok(items: Seq<SchemaItemView>, f: FieldView) -> bool {
    match f.target {
        Some(t) => is_carrier(f) && t < items.len() && items[t as int].body is Commands,
        None => !is_carrier(f),
    }
}

/// Whether every field of the list is in order.
pub open spec fn fields_ok(items: Seq<SchemaItemView>, fields: Seq<FieldView>) -> bool {
    forall|k: int| 0 <= k < fields.len() ==> field_ok(items, #[trigger] fields[k])
}

/// Whether every field of the item, those of its variants included, is in
/// order.
pub open spec fn item_ok(items: Seq<SchemaItemView>, item: SchemaItemView) -> bool {
    match item.body {
        BodyView::Options(fields) => fields_ok(items, fields),
        BodyView::Commands(variants) => forall|v: int|
            0 <= v < variants.len() ==> fields_ok(items, (#[trigger] variants[v]).fields),
    }
}

impl SchemaView {
    /// A schema is well formed when its root is one of its items and a
    /// field hosts a command set of the schema exactly if it is a subcommand
    /// carrier.
    pub open spec fn wf(self) -> bool {
        &&& self.root < self.items.len()
        &&& forall|i: int|
            0 <= i < self.items.len() ==> item_ok(self.items, #[trigger] self.items[i])
    }
}

/// The place of the item or variant that owns the scope.
pub fn place_of(scope: Scope) -> (r: Place)
    ensures
        r == scope_place(scope),
{
    match scope {
        Scope::Bag(i) => Place::Item(i),
        Scope::Variant(i, v) => Place::Member(i, v),
    }
}

/// The place of the field with index `k` in the scope.
pub fn place_of_field(scope: Scope, k: usize) -> (r: Place)
    ensures
        r == field_place(scope, k),
{
    match scope {
        Scope::Bag(i) => Place::Member(i, k),
        Scope::Variant(i, v) => Place::Field(i, v, k),
    }
}

/// The variant that a scope names.
fn variant_at(schema: &Schema, i: usize, v: usize) -> (r: &Variant)
    requires
        scope_valid(schema@.items, Scope::Variant(i, v)),
    ensures
        r@ == variants_of(schema@.items[i as int])[v as int],
{
    assert(schema@.items[i as int] == schema.items@[i as int]@);
    match &schema.items[i].body {
        Body::Commands(variants) => {
            assert(views(variants@)[v as int] == variants@[v as int]@);
            &variants[v]
        },
        Body::Options(_) => {
            proof {
                assert(false);
            }
            unreached()
        },
    }
}

/// The fields, the attributes and the identifier of a scope.
pub fn scope_parts(schema: &Schema, scope: Scope) -> (r: (&Vec<Field>, &Vec<RawAttribute>, &String))
    requires
        scope_valid(schema@.items, scope),
    ensures
        views(r.0@) == scope_fields(schema@.items, scope),
        views(r.1@) == scope_attrs(schema@.items, scope),
        r.2@ == scope_ident(schema@.items, scope),
{
    match scope {
        Scope::Bag(i) => {
            assert(schema@.items[i as int] == schema.items@[i as int]@);
            let item = &schema.items[i];
            match &item.body {
                Body::Options(fields) => (fields, &item.attrs, &item.ident),
                Body::Commands(_) => {
                    proof {
                        assert(false);
                    }
                    unreached()
                },
            }
        },
        Scope::Variant(i, v) => {
            let variant = variant_at(schema, i, v);
            (&variant.fields, &variant.attrs, &variant.ident)
        },
    }
}

/// Finds the subcommand carriers among the fields.
pub fn find_carriers(fields: &Vec<Field>) -> (r: Vec<usize>)
    ensures
        r@ == carriers(views(fields@)),
{
    let mut found: Vec<usize> = Vec::new();
    let ghost fv = views(fields@);
    let mut i: usize = 0;
    while i < fields.len()
        invariant
            fv == views(fields@),
            i <= fields.len(),
            found@ == carriers(fv.take(i as int)),
        decreases fields.len() - i,
    {
        proof {
            assert(fv.take(i + 1).drop_last() =~= fv.take(i as int));
            assert(fv.take(i + 1).last() == fv[i as int]);
        }
        if has_word(&fields[i].attrs, "subcommand") {
            found.push(i);
        }
        i += 1;
    }
    assert(fv.take(fields.len() as int) =~= fv);
    found
}

/// Decides whether every field of the list is in order.
fn fields_in_order(items: &Vec<SchemaItem>, fields: &Vec<Field>) -> (r: bool)
    ensures
        r == fields_ok(views(items@), views(fields@)),
{
    let ghost iv = views(items@);
    let ghost fv = views(fields@);
    let mut k: usize = 0;
    while k < fields.len()
        invariant
            iv == views(items@),
            fv == views(fields@),
            k <= fields.len(),
            forall|j: int| 0 <= j < k ==> field_ok(iv, #[trigger] fv[j]),
        decreases fields.len() - k,
    {
        let f = &fields[k];
        assert(f@ == fv[k as int]);
        let carrier = has_word(&f.attrs, "subcommand");
        let good = match f.target {
            Some(t) => {
                if carrier && t < items.len() {
                    assert(iv[t as int] == items@[t as int]@);
                    match &items[t].body {
                        Body::Commands(_) => true,
                        Body::Options(_) => false,
                    }
                } else {
                    false
                }
            },
            None => !carrier,
        };
        if !good {
            assert(!field_ok(iv, fv[k as int]));
            return false;
        }
        k += 1;
    }
    true
}

/// Decides whether every field of the item is in order.
fn item_in_order(items: &Vec<SchemaItem>, item: &SchemaItem) -> (r: bool)
    ensures
        r == item_ok(views(items@), item@),
{
    match &item.body {
        Body::Options(fields) => fields_in_order(items, fields),
        Body::Commands(variants) => {
            let ghost iv = views(items@);
            let ghost vv = views(variants@);
            let mut v: usize = 0;
            while v < variants.len()
                invariant
                    iv == views(items@),
                    vv == views(variants@),
                    item@.body == BodyView::Commands(vv),
                    v <= variants.len(),
                    forall|j: int| 0 <= j < v ==> fields_ok(iv, (#[trigger] vv[j]).fields),
                decreases variants.len() - v,
            {
                assert(vv[v as int] == variants@[v as int]@);
                if !fields_in_order(items, &variants[v].fields) {
                    assert(vv.len() == variants.len());
                    assert(item@.body->Commands_0 == vv);
                    assert(item_ok(iv, item@) ==> fields_ok(iv, vv[v as int].fields));
                    return false;
                }
                v += 1;
            }
            true
        },
    }
}

impl Schema {
    /// Decides whether the schema is well formed.
    pub fn is_well_formed(&self) -> (r: bool)
        ensures
            r == self@.wf(),
    {
        if self.root >= self.items.len() {
            return false;
        }
        let ghost iv = views(self.items@);
        let mut i: usize = 0;
        while i < self.items.len()
            invariant
                iv == views(self.items@),
                i <= self.items.len(),
                forall|j: int| 0 <= j < i ==> item_ok(iv, #[trigger] iv[j]),
            decreases self.items.len() - i,
        {
            assert(iv[i as int] == self.items@[i as int]@);
            if !item_in_order(&self.items, &self.items[i]) {
                return false;
            }
            i += 1;
        }
        true
    }
}

} // verus!
