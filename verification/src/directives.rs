//! Reading the settings that are no setters: marker words such as
//! `subcommand`, and calls such as `parse(...)`.

use crate::attrs::settings_of;
use crate::model::{
    views, AttrValue, CallArg, CallArgView, Directive, DirectiveView, RawAttribute,
    RawAttributeView,
};
use crate::text::same_text;
use vstd::prelude::*;

verus! {

/// Whether some settings list of the attributes holds the bare word `word`.
pub open spec fn marked(attrs: Seq<RawAttributeView>, word: Seq<char>) -> bool {
    exists|i: int, j: int|
        0 <= i < attrs.len() && 0 <= j < settings_of(attrs[i]).len() && settings_of(attrs[i])[j]
            == DirectiveView::Word(word)
}

/// The arguments of the first call of `name` in a settings list.
pub open spec fn first_call(ds: Seq<DirectiveView>, name: Seq<char>) -> Option<Seq<CallArgView>>
    decreases ds.len(),
{
    if ds.len() == 0 {
        None
    } else {
        match ds[0] {
            DirectiveView::Call(n, args) => if n == name {
                Some(args)
            } else {
                first_call(ds.skip(1), name)
            },
            _ => first_call(ds.skip(1), name),
        }
    }
}

/// The arguments of the first call of `name` in the settings of the
/// attributes, taken in declaration order.
pub open spec fn call_args(attrs: Seq<RawAttributeView>, name: Seq<char>) -> Option<
    Seq<CallArgView>,
>
    decreases attrs.len(),
{
    if attrs.len() == 0 {
        None
    } else {
        match first_call(settings_of(attrs[0]), name) {
            Some(args) => Some(args),
            None => call_args(attrs.skip(1), name),
        }
    }
}

/// The settings list of an attribute, if it is a settings attribute with one.
fn settings<'a>(a: &'a RawAttribute) -> (r: Option<&'a Vec<Directive>>)
    ensures
        match r {
            Some(ds) => settings_of(a@) == views(ds@),
            None => settings_of(a@) == Seq::<DirectiveView>::empty(),
        },
{
    match &a.value {
        AttrValue::List(ds) => if same_text(a.name.as_str(), "clap") {
            Some(ds)
        } else {
            None
        },
        _ => None,
    }
}

/// Decides whether one settings list holds the bare word `word`.
fn list_has_word(ds: &Vec<Directive>, word: &str) -> (r: bool)
    ensures
        r == exists|j: int| 0 <= j < ds.len() && views(ds@)[j] == DirectiveView::Word(word@),
{
    let ghost dv = views(ds@);
    let mut j: usize = 0;
    while j < ds.len()
        invariant
            dv == views(ds@),
            j <= ds.len(),
            forall|k: int| 0 <= k < j ==> dv[k] != DirectiveView::Word(word@),
        decreases ds.len() - j,
    {
        match &ds[j] {
            Directive::Word(w) => {
                if same_text(w.as_str(), word) {
                    assert(dv[j as int] == DirectiveView::Word(word@));
                    return true;
                }
            },
            _ => {},
        }
        j += 1;
    }
    false
}

/// Decides whether the settings hold the bare word `word`.
pub fn has_word(attrs: &Vec<RawAttribute>, word: &str) -> (r: bool)
    ensures
        r == marked(views(attrs@), word@),
{
    let ghost av = views(attrs@);
    let mut i: usize = 0;
    while i < attrs.len()
        invariant
            av == views(attrs@),
            i <= attrs.len(),
            forall|k: int, j: int|
                0 <= k < i && 0 <= j < settings_of(av[k]).len() ==> settings_of(av[k])[j]
                    != DirectiveView::Word(word@),
        decreases attrs.len() - i,
    {
        match settings(&attrs[i]) {
            Some(ds) => {
                if list_has_word(ds, word) {
                    let ghost j = choose|j: int|
                        0 <= j < ds.len() && views(ds@)[j] == DirectiveView::Word(word@);
                    assert(settings_of(av[i as int])[j] == DirectiveView::Word(word@));
                    return true;
                }
            },
            None => {},
        }
        i += 1;
    }
    false
}

/// Finds the first call of `name` in one settings list.
fn find_call_in<'a>(ds: &'a Vec<Directive>, name: &str) -> (r: Option<&'a Vec<CallArg>>)
    ensures
        match r {
            Some(args) => first_call(views(ds@), name@) == Some(views(args@)),
            None => first_call(views(ds@), name@) is None,
        },
{
    let ghost dv = views(ds@);
    let mut j: usize = 0;
    assert(dv.skip(0) =~= dv);
    while j < ds.len()
        invariant
            dv == views(ds@),
            j <= ds.len(),
            first_call(dv, name@) == first_call(dv.skip(j as int), name@),
        decreases ds.len() - j,
    {
        proof {
            assert(dv.skip(j as int).skip(1) =~= dv.skip(j + 1));
            assert(dv.skip(j as int)[0] == dv[j as int]);
        }
        match &ds[j] {
            Directive::Call(n, args) => {
                if same_text(n.as_str(), name) {
                    return Some(args);
                }
            },
            _ => {},
        }
        j += 1;
    }
    None
}

/// Finds the first call of `name` in the settings of the attributes.
pub fn find_call<'a>(attrs: &'a Vec<RawAttribute>, name: &str) -> (r: Option<&'a Vec<CallArg>>)
    ensures
        match r {
            Some(args) => call_args(views(attrs@), name@) == Some(views(args@)),
            None => call_args(views(attrs@), name@) is None,
        },
{
    let ghost av = views(attrs@);
    let mut i: usize = 0;
    assert(av.skip(0) =~= av);
    while i < attrs.len()
        invariant
            av == views(attrs@),
            i <= attrs.len(),
            call_args(av, name@) == call_args(av.skip(i as int), name@),
        decreases attrs.len() - i,
    {
        proof {
            assert(av.skip(i as int).skip(1) =~= av.skip(i + 1));
            assert(av.skip(i as int)[0] == av[i as int]);
        }
        match settings(&attrs[i]) {
            Some(ds) => {
                match find_call_in(ds, name) {
                    Some(args) => {
                        return Some(args);
                    },
                    None => {},
                }
            },
            None => {},
        }
        i += 1;
    }
    None
}

} // verus!
