//! The schema of one declaration. A declaration that is read alone does not
//! show the command sets that its subcommand carriers host: an empty command
//! set stands for each of them, under the type of the carrier.

use crate::builder::{carrier_type, carrier_type_of};
use crate::directives::{has_word, marked};
use crate::model::{
    lemma_views_push, views, Body, BodyView, Field, FieldView, Schema, SchemaItem, SchemaItemView,
    SchemaView, Variant, VariantView,
};
use crate::scope::{carriers, field_ok, fields_ok, is_carrier, item_ok};
use vstd::prelude::*;

verus! {

/// The command set that stands for the one that a carrier hosts: it has the
/// hosted type as its name, and no variants.
pub open spec fn stand_in(f: FieldView) -> SchemaItemView {
    SchemaItemView {
        ident: carrier_type(f.ty),
        attrs: Seq::empty(),
        body: BodyView::Commands(Seq::empty()),
    }
}

/// A field that hosts the item with the given index if it is a subcommand
/// carrier, and nothing if it is not.
pub open spec fn linked_field(f: FieldView, index: nat) -> FieldView {
    FieldView {
        ident: f.ident,
        ty: f.ty,
        attrs: f.attrs,
        target: if is_carrier(f) {
            Some(index as usize)
        } else {
            None
        },
    }
}

/// The fields, every carrier linked to its stand-in: the stand-ins are
/// numbered from `first` on, in the order of their carriers.
pub open spec fn linked(fields: Seq<FieldView>, first: nat) -> Seq<FieldView>
    decreases fields.len(),
{
    if fields.len() == 0 {
        Seq::empty()
    } else {
        linked(fields.drop_last(), first).push(
            linked_field(fields.last(), first + carriers(fields.drop_last()).len()),
        )
    }
}

/// The stand-ins of the carriers among the fields, in order.
pub open spec fn stand_ins(fields: Seq<FieldView>) -> Seq<SchemaItemView>
    decreases fields.len(),
{
    if fields.len() == 0 {
        Seq::empty()
    } else if is_carrier(fields.last()) {
        stand_ins(fields.drop_last()).push(stand_in(fields.last()))
    } else {
        stand_ins(fields.drop_last())
    }
}

/// Whether one of the fields is a carrier marked `flatten`.
pub open spec fn flattens(fields: Seq<FieldView>) -> bool {
    exists|k: int|
        0 <= k < fields.len() && is_carrier(#[trigger] fields[k]) && marked(
            fields[k].attrs,
            "flatten"@,
        )
}

/// The stand-ins of the carriers in the fields of the variants, in order.
pub open spec fn variant_stand_ins(variants: Seq<VariantView>) -> Seq<SchemaItemView>
    decreases variants.len(),
{
    if variants.len() == 0 {
        Seq::empty()
    } else {
        variant_stand_ins(variants.drop_last()) + stand_ins(variants.last().fields)
    }
}

/// The variants, every carrier in their fields linked to its stand-in.
pub open spec fn linked_variants(variants: Seq<VariantView>, first: nat) -> Seq<VariantView>
    decreases variants.len(),
{
    if variants.len() == 0 {
        Seq::empty()
    } else {
        linked_variants(variants.drop_last(), first).push(
            VariantView {
                ident: variants.last().ident,
                attrs: variants.last().attrs,
                fields: linked(
                    variants.last().fields,
                    first + variant_stand_ins(variants.drop_last()).len(),
                ),
            },
        )
    }
}

/// Whether a carrier in the fields of one of the variants is marked
/// `flatten`.
pub open spec fn variants_flatten(variants: Seq<VariantView>) -> bool {
    exists|v: int| 0 <= v < variants.len() && flattens((#[trigger] variants[v]).fields)
}

/// Whether a carrier of the declaration is marked `flatten`.
pub open spec fn declaration_flattens(item: SchemaItemView) -> bool {
    match item.body {
        BodyView::Options(fields) => flattens(fields),
        BodyView::Commands(variants) => variants_flatten(variants),
    }
}

/// The schema of a declaration: the declaration is its root, with every
/// carrier linked to its stand-in, and the stand-ins follow in the order of
/// their carriers.
pub open spec fn declaration(item: SchemaItemView) -> SchemaView {
    match item.body {
        BodyView::Options(fields) => SchemaView {
            items: seq![
                SchemaItemView {
                    ident: item.ident,
                    attrs: item.attrs,
                    body: BodyView::Options(linked(fields, 1)),
                },
            ] + stand_ins(fields),
            root: 0,
        },
        BodyView::Commands(variants) => SchemaView {
            items: seq![
                SchemaItemView {
                    ident: item.ident,
                    attrs: item.attrs,
                    body: BodyView::Commands(linked_variants(variants, 1)),
                },
            ] + variant_stand_ins(variants),
            root: 0,
        },
    }
}

/// There are as many stand-ins as carriers, and every one is a command set
/// without variants.
pub proof fn lemma_stand_ins(fields: Seq<FieldView>)
    ensures
        stand_ins(fields).len() == carriers(fields).len(),
        forall|j: int|
            0 <= j < stand_ins(fields).len() ==> (#[trigger] stand_ins(fields)[j]).body
                == BodyView::Commands(Seq::empty()),
    decreases fields.len(),
{
    if fields.len() > 0 {
        lemma_stand_ins(fields.drop_last());
    }
}

/// Every stand-in of the variants is a command set without variants.
pub proof fn lemma_variant_stand_ins(variants: Seq<VariantView>)
    ensures
        forall|j: int|
            0 <= j < variant_stand_ins(variants).len() ==> (#[trigger] variant_stand_ins(
                variants,
            )[j]).body == BodyView::Commands(Seq::empty()),
    decreases variants.len(),
{
    if variants.len() > 0 {
        lemma_variant_stand_ins(variants.drop_last());
        lemma_stand_ins(variants.last().fields);
    }
}

/// Linked fields are in order in a schema that holds a command set for each
/// of their carriers, from `first` on.
pub proof fn lemma_linked_ok(items: Seq<SchemaItemView>, fields: Seq<FieldView>, first: nat)
    requires
        items.len() <= usize::MAX,
        first + carriers(fields).len() <= items.len(),
        forall|i: int| first <= i < items.len() ==> (#[trigger] items[i]).body is Commands,
    ensures
        linked(fields, first).len() == fields.len(),
        fields_ok(items, linked(fields, first)),
    decreases fields.len(),
{
    if fields.len() > 0 {
        let before = fields.drop_last();
        lemma_linked_ok(items, before, first);
        let index = first + carriers(before).len();
        let last = linked_field(fields.last(), index);
        assert(is_carrier(last) == is_carrier(fields.last()));
        if is_carrier(fields.last()) {
            assert(items[index as int].body is Commands);
        }
        assert(field_ok(items, last));
        assert forall|k: int| 0 <= k < linked(fields, first).len() implies field_ok(
            items,
            #[trigger] linked(fields, first)[k],
        ) by {
            if k < before.len() {
                assert(linked(fields, first)[k] == linked(before, first)[k]);
            }
        }
    }
}

/// Linked variants are in order in a schema that holds a command set for
/// each of their carriers, from `first` on.
pub proof fn lemma_linked_variants_ok(
    items: Seq<SchemaItemView>,
    variants: Seq<VariantView>,
    first: nat,
)
    requires
        items.len() <= usize::MAX,
        first + variant_stand_ins(variants).len() <= items.len(),
        forall|i: int| first <= i < items.len() ==> (#[trigger] items[i]).body is Commands,
    ensures
        linked_variants(variants, first).len() == variants.len(),
        forall|v: int|
            0 <= v < variants.len() ==> fields_ok(
                items,
                (#[trigger] linked_variants(variants, first)[v]).fields,
            ),
    decreases variants.len(),
{
    if variants.len() > 0 {
        let before = variants.drop_last();
        lemma_linked_variants_ok(items, before, first);
        lemma_stand_ins(variants.last().fields);
        lemma_linked_ok(items, variants.last().fields, first + variant_stand_ins(before).len());
        assert forall|v: int| 0 <= v < variants.len() implies fields_ok(
            items,
            (#[trigger] linked_variants(variants, first)[v]).fields,
        ) by {
            if v < before.len() {
                assert(linked_variants(variants, first)[v] == linked_variants(before, first)[v]);
            }
        }
    }
}

/// The schema of a declaration is well formed, as long as its items can be
/// counted.
pub proof fn law_declaration_is_well_formed(item: SchemaItemView)
    requires
        declaration(item).items.len() <= usize::MAX,
    ensures
        declaration(item).wf(),
{
    let schema = declaration(item);
    let items = schema.items;
    match item.body {
        BodyView::Options(fields) => {
            lemma_stand_ins(fields);
            assert forall|i: int| 1 <= i < items.len() implies (#[trigger] items[i]).body
                == BodyView::Commands(Seq::empty()) by {
                assert(items[i] == stand_ins(fields)[i - 1]);
            }
            lemma_linked_ok(items, fields, 1);
        },
        BodyView::Commands(variants) => {
            lemma_variant_stand_ins(variants);
            assert forall|i: int| 1 <= i < items.len() implies (#[trigger] items[i]).body
                == BodyView::Commands(Seq::empty()) by {
                assert(items[i] == variant_stand_ins(variants)[i - 1]);
            }
            lemma_linked_variants_ok(items, variants, 1);
        },
    }
    assert forall|i: int| 0 <= i < items.len() implies item_ok(items, #[trigger] items[i]) by {
        if i > 0 {
            assert(items[i].body == BodyView::Commands(Seq::<VariantView>::empty()));
        }
    }
}

/// The elements in the opposite order.
fn reversed<T>(v: Vec<T>) -> (r: Vec<T>)
    ensures
        r@ == v@.reverse(),
{
    let ghost s = v@;
    let mut rest = v;
    let mut out: Vec<T> = Vec::new();
    while rest.len() > 0
        invariant
            rest@.len() + out@.len() == s.len(),
            rest@ == s.take(rest@.len() as int),
            forall|j: int| 0 <= j < out@.len() ==> out@[j] == s[s.len() - 1 - j],
        decreases rest@.len(),
    {
        match rest.pop() {
            Some(x) => {
                out.push(x);
            },
            None => {},
        }
        assert(rest@ =~= s.take(rest@.len() as int));
    }
    assert(out@ =~= s.reverse());
    out
}

/// Links the carriers among the fields to stand-ins, which are added at the
/// end of `items`. `None` where a carrier is marked `flatten`.
fn link_fields(fields: Vec<Field>, items: &mut Vec<SchemaItem>) -> (r: Option<Vec<Field>>)
    ensures
        match r {
            Some(out) => {
                &&& !flattens(views(fields@))
                &&& views(out@) == linked(views(fields@), old(items)@.len())
                &&& views(final(items)@) == views(old(items)@) + stand_ins(views(fields@))
            },
            None => flattens(views(fields@)),
        },
{
    let ghost fs = fields@;
    let ghost fv = views(fields@);
    let ghost start = views(items@);
    let n = fields.len();
    let mut rest = reversed(fields);
    let mut out: Vec<Field> = Vec::new();
    let mut k: usize = 0;
    assert(views(out@) =~= linked(fv.take(0), start.len()));
    assert(views(items@) =~= start + stand_ins(fv.take(0)));
    while k < n
        invariant
            fs == fields@,
            fv == views(fs),
            fs.len() == n,
            k <= n,
            rest@ == fs.reverse().take(n - k),
            views(out@) == linked(fv.take(k as int), start.len()),
            views(items@) == start + stand_ins(fv.take(k as int)),
            forall|j: int|
                0 <= j < k ==> !(is_carrier(#[trigger] fv[j]) && marked(fv[j].attrs, "flatten"@)),
        decreases n - k,
    {
        proof {
            assert(fv.take(k + 1).drop_last() =~= fv.take(k as int));
            assert(fv.take(k + 1).last() == fv[k as int]);
            lemma_stand_ins(fv.take(k as int));
            assert(fs.reverse()[n - k - 1] == fs[k as int]);
        }
        let f = match rest.pop() {
            Some(f) => f,
            None => {
                proof {
                    assert(false);
                }
                unreached()
            },
        };
        assert(rest@ =~= fs.reverse().take(n - k - 1));
        assert(f@ == fv[k as int]);
        let target = if has_word(&f.attrs, "subcommand") {
            if has_word(&f.attrs, "flatten") {
                assert(is_carrier(fv[k as int]) && marked(fv[k as int].attrs, "flatten"@));
                return None;
            }
            let index = items.len();
            assert(index == views(items@).len());
            let host = SchemaItem {
                ident: carrier_type_of(&f.ty),
                attrs: Vec::new(),
                body: Body::Commands(Vec::new()),
            };
            proof {
                lemma_views_push(items@, host);
                assert(host@ == stand_in(f@)) by {
                    assert(views(host.attrs@) =~= Seq::empty());
                    assert(host@.body->Commands_0 =~= Seq::empty());
                }
                assert(start + stand_ins(fv.take(k as int)).push(stand_in(f@)) =~= (start
                    + stand_ins(fv.take(k as int))).push(stand_in(f@)));
            }
            items.push(host);
            Some(index)
        } else {
            None
        };
        let linked_one = Field { ident: f.ident, ty: f.ty, attrs: f.attrs, target };
        proof {
            lemma_views_push(out@, linked_one);
            assert(linked_one@ == linked_field(
                fv[k as int],
                start.len() + carriers(fv.take(k as int)).len(),
            ));
        }
        out.push(linked_one);
        k += 1;
    }
    assert(fv.take(n as int) =~= fv);
    Some(out)
}

/// Links the carriers in the fields of the variants to stand-ins, which are
/// added at the end of `items`. `None` where a carrier is marked `flatten`.
fn link_variants(variants: Vec<Variant>, items: &mut Vec<SchemaItem>) -> (r: Option<Vec<Variant>>)
    ensures
        match r {
            Some(out) => {
                &&& !variants_flatten(views(variants@))
                &&& views(out@) == linked_variants(views(variants@), old(items)@.len())
                &&& views(final(items)@) == views(old(items)@) + variant_stand_ins(
                    views(variants@),
                )
            },
            None => variants_flatten(views(variants@)),
        },
{
    let ghost vs = variants@;
    let ghost vv = views(variants@);
    let ghost start = views(items@);
    let n = variants.len();
    let mut rest = reversed(variants);
    let mut out: Vec<Variant> = Vec::new();
    let mut k: usize = 0;
    assert(views(out@) =~= linked_variants(vv.take(0), start.len()));
    assert(views(items@) =~= start + variant_stand_ins(vv.take(0)));
    while k < n
        invariant
            vs == variants@,
            vv == views(vs),
            vs.len() == n,
            k <= n,
            rest@ == vs.reverse().take(n - k),
            views(out@) == linked_variants(vv.take(k as int), start.len()),
            views(items@) == start + variant_stand_ins(vv.take(k as int)),
            forall|j: int| 0 <= j < k ==> !flattens((#[trigger] vv[j]).fields),
        decreases n - k,
    {
        proof {
            assert(vv.take(k + 1).drop_last() =~= vv.take(k as int));
            assert(vv.take(k + 1).last() == vv[k as int]);
            assert(vs.reverse()[n - k - 1] == vs[k as int]);
        }
        let v = match rest.pop() {
            Some(v) => v,
            None => {
                proof {
                    assert(false);
                }
                unreached()
            },
        };
        assert(rest@ =~= vs.reverse().take(n - k - 1));
        assert(v@ == vv[k as int]);
        let fields = match link_fields(v.fields, items) {
            Some(fields) => fields,
            None => {
                assert(flattens(vv[k as int].fields));
                return None;
            },
        };
        let linked_one = Variant { ident: v.ident, attrs: v.attrs, fields };
        proof {
            lemma_views_push(out@, linked_one);
            assert(start + variant_stand_ins(vv.take(k as int)) + stand_ins(vv[k as int].fields)
                =~= start + (variant_stand_ins(vv.take(k as int)) + stand_ins(
                vv[k as int].fields,
            )));
        }
        out.push(linked_one);
        k += 1;
    }
    assert(vv.take(n as int) =~= vv);
    Some(out)
}

impl Schema {
    /// The schema of one declaration that is read alone: the declaration is
    /// the root, and an empty command set stands for every command set that
    /// one of its subcommand carriers hosts. What the fields say of the items
    /// they host is not read. `None` where a carrier is marked `flatten`:
    /// the arguments to merge are those of the hosted command set, which is
    /// not at hand.
    pub fn of_declaration(item: SchemaItem) -> (r: Option<Schema>)
        ensures
            match r {
                Some(schema) => {
                    &&& !declaration_flattens(item@)
                    &&& schema@ == declaration(item@)
                    &&& schema@.wf()
                },
                None => declaration_flattens(item@),
            },
    {
        let ghost iv = item@;
        let mut items: Vec<SchemaItem> = Vec::new();
        items.push(
            SchemaItem { ident: String::new(), attrs: Vec::new(), body: Body::Commands(Vec::new()) },
        );
        assert(views(items@).len() == 1);
        let SchemaItem { ident, attrs, body } = item;
        let root = match body {
            Body::Options(fields) => {
                match link_fields(fields, &mut items) {
                    Some(linked) => SchemaItem { ident, attrs, body: Body::Options(linked) },
                    None => {
                        return None;
                    },
                }
            },
            Body::Commands(variants) => {
                match link_variants(variants, &mut items) {
                    Some(linked) => SchemaItem { ident, attrs, body: Body::Commands(linked) },
                    None => {
                        return None;
                    },
                }
            },
        };
        let ghost before = views(items@);
        let ghost root_view = root@;
        assert(items@.len() == before.len());
        items.set(0, root);
        let count = items.len();
        let schema = Schema { items, root: 0 };
        proof {
            assert(count == schema.items@.len());
            assert(views(schema.items@) =~= before.update(0, root_view));
            assert(schema@.items =~= declaration(iv).items);
            assert(declaration(iv).items.len() == schema.items@.len());
            law_declaration_is_well_formed(iv);
        }
        Some(schema)
    }
}

} // verus!
