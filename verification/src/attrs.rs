//! The attribute resolver: one ordered key/value list from the settings and
//! the documentation lines of an item or a member.

use crate::error::{CompileError, Place};
use crate::model::{
    lemma_views_add, lemma_views_push, views, AttrValue, AttrValueView, Directive, DirectiveView,
    Literal, LiteralView, RawAttribute, RawAttributeView,
};
use crate::text::{clean_doc_line, doc_line_text, joined, same_text, trim_text, trimmed};
use vstd::prelude::*;
use vstd::string::*;

verus! {

/// Whether the attributes are those of an item or those of a member.
#[derive(Clone, Copy, Debug, PartialEq, Eq, Structural)]
pub enum AttrSource {
    ItemLevel,
    MemberLevel,
}

/// A resolved attribute: the name of a setter and its argument.
#[derive(Clone, Debug, PartialEq, Eq)]
pub struct AttributeEntry {
    pub key: String,
    pub value: Literal,
}

pub struct AttributeEntryView {
    pub key: Seq<char>,
    pub value: LiteralView,
}

impl View for AttributeEntry {
    type V = AttributeEntryView;

    open spec fn view(&self) -> AttributeEntryView {
        AttributeEntryView { key: self.key@, value: self.value@ }
    }
}

/// One variable of the ambient environment.
#[derive(Clone, Debug, PartialEq, Eq)]
pub struct EnvVar {
    pub name: String,
    pub value: String,
}

pub struct EnvVarView {
    pub name: Seq<char>,
    pub value: Seq<char>,
}

impl View for EnvVar {
    type V = EnvVarView;

    open spec fn view(&self) -> EnvVarView {
        EnvVarView { name: self.name@, value: self.value@ }
    }
}

/// A snapshot of the ambient environment, taken before the compilation.
#[derive(Clone, Debug, PartialEq, Eq)]
pub struct Environment {
    pub vars: Vec<EnvVar>,
}

impl View for Environment {
    type V = Seq<EnvVarView>;

    open spec fn view(&self) -> Seq<EnvVarView> {
        views(self.vars@)
    }
}

/// The name of the attribute that holds settings.
pub open spec fn settings_name() -> Seq<char> {
    "clap"@
}

/// The name of the attribute that a documentation line becomes.
pub open spec fn doc_name() -> Seq<char> {
    "doc"@
}

/// The key under which the documentation text is entered.
pub open spec fn doc_key(source: AttrSource) -> Seq<char> {
    match source {
        AttrSource::ItemLevel => "about"@,
        AttrSource::MemberLevel => "help"@,
    }
}

/// The entries of a settings attribute; none for any other attribute.
pub open spec fn settings_of(a: RawAttributeView) -> Seq<DirectiveView> {
    match a.value {
        AttrValueView::List(ds) => if a.name == settings_name() {
            ds
        } else {
            Seq::empty()
        },
        _ => Seq::empty(),
    }
}

/// A settings attribute that cannot be read: it has no list, or its list
/// holds a literal standing alone.
pub open spec fn malformed_attr(a: RawAttributeView) -> bool {
    a.name == settings_name() && match a.value {
        AttrValueView::List(ds) => exists|j: int| 0 <= j < ds.len() && ds[j] is Bare,
        _ => true,
    }
}

/// Whether any of the attributes is malformed.
pub open spec fn malformed(attrs: Seq<RawAttributeView>) -> bool {
    exists|i: int| 0 <= i < attrs.len() && malformed_attr(attrs[i])
}

/// The `key = literal` entries of a settings list, in order.
pub open spec fn assigns(ds: Seq<DirectiveView>) -> Seq<AttributeEntryView>
    decreases ds.len(),
{
    if ds.len() == 0 {
        Seq::empty()
    } else {
        assigns(ds.drop_last()) + match ds.last() {
            DirectiveView::Assign(key, value) => seq![AttributeEntryView { key, value }],
            _ => Seq::empty(),
        }
    }
}

/// The explicit entries of all settings attributes, in declaration order.
pub open spec fn explicit_entries(attrs: Seq<RawAttributeView>) -> Seq<AttributeEntryView>
    decreases attrs.len(),
{
    if attrs.len() == 0 {
        Seq::empty()
    } else {
        explicit_entries(attrs.drop_last()) + assigns(settings_of(attrs.last()))
    }
}

/// The cleaned text of a documentation line; `None` for any other attribute.
pub open spec fn doc_line(a: RawAttributeView) -> Option<Seq<char>> {
    match a.value {
        AttrValueView::NameValue(LiteralView::Str(t)) => if a.sugared_doc && a.name == doc_name() {
            Some(doc_line_text(t))
        } else {
            None
        },
        _ => None,
    }
}

/// The cleaned documentation lines, in declaration order.
pub open spec fn doc_lines(attrs: Seq<RawAttributeView>) -> Seq<Seq<char>>
    decreases attrs.len(),
{
    if attrs.len() == 0 {
        Seq::empty()
    } else {
        match doc_line(attrs.last()) {
            Some(t) => doc_lines(attrs.drop_last()).push(t),
            None => doc_lines(attrs.drop_last()),
        }
    }
}

/// The text of the documentation: the cleaned lines joined by single
/// spaces, trimmed.
pub open spec fn doc_text(attrs: Seq<RawAttributeView>) -> Seq<char> {
    trimmed(joined(doc_lines(attrs)))
}

/// The entry that the documentation contributes: none where its text is
/// empty, else the text under the key of the source.
pub open spec fn doc_entries(attrs: Seq<RawAttributeView>, source: AttrSource) -> Seq<
    AttributeEntryView,
> {
    if doc_text(attrs).len() == 0 {
        Seq::empty()
    } else {
        seq![AttributeEntryView { key: doc_key(source), value: LiteralView::Str(doc_text(attrs)) }]
    }
}

/// The resolved list: the documentation entry first, then the explicit
/// entries.
pub open spec fn resolved_entries(attrs: Seq<RawAttributeView>, source: AttrSource) -> Seq<
    AttributeEntryView,
> {
    doc_entries(attrs, source) + explicit_entries(attrs)
}

/// The resolved list of attributes that can be read; `None` otherwise.
pub open spec fn resolve(attrs: Seq<RawAttributeView>, source: AttrSource) -> Option<
    Seq<AttributeEntryView>,
> {
    if malformed(attrs) {
        None
    } else {
        Some(resolved_entries(attrs, source))
    }
}

/// The value of the last entry with the given key.
pub open spec fn last_value(entries: Seq<AttributeEntryView>, key: Seq<char>) -> Option<
    LiteralView,
>
    decreases entries.len(),
{
    if entries.len() == 0 {
        None
    } else if entries.last().key == key {
        Some(entries.last().value)
    } else {
        last_value(entries.drop_last(), key)
    }
}

/// The value of the first variable with the given name; empty without one.
pub open spec fn env_value(vars: Seq<EnvVarView>, name: Seq<char>) -> Seq<char>
    decreases vars.len(),
{
    if vars.len() == 0 {
        Seq::empty()
    } else if vars[0].name == name {
        vars[0].value
    } else {
        env_value(vars.skip(1), name)
    }
}

/// The value of a key: its last entry, else the environment's variable, else
/// the empty string.
pub open spec fn attr_or_env(
    entries: Seq<AttributeEntryView>,
    key: Seq<char>,
    var: Seq<char>,
    env: Seq<EnvVarView>,
) -> LiteralView {
    match last_value(entries, key) {
        Some(v) => v,
        None => LiteralView::Str(env_value(env, var)),
    }
}

/// The `key = literal` entries of one settings list, or `None` when the list
/// holds a literal standing alone.
fn collect_assigns(ds: &Vec<Directive>) -> (r: Option<Vec<AttributeEntry>>)
    ensures
        match r {
            Some(entries) => views(entries@) == assigns(views(ds@)) && forall|j: int|
                0 <= j < ds.len() ==> !(#[trigger] views(ds@)[j] is Bare),
            None => exists|j: int| 0 <= j < ds.len() && views(ds@)[j] is Bare,
        },
{
    let mut out: Vec<AttributeEntry> = Vec::new();
    let ghost dv = views(ds@);
    let mut j: usize = 0;
    while j < ds.len()
        invariant
            dv == views(ds@),
            j <= ds.len(),
            views(out@) == assigns(dv.take(j as int)),
            forall|k: int| 0 <= k < j ==> !(#[trigger] dv[k] is Bare),
        decreases ds.len() - j,
    {
        proof {
            assert(dv.take(j + 1).drop_last() =~= dv.take(j as int));
            assert(dv.take(j + 1).last() == dv[j as int]);
        }
        match &ds[j] {
            Directive::Assign(key, value) => {
                let entry = AttributeEntry { key: key.clone(), value: value.duplicate() };
                proof {
                    lemma_views_push(out@, entry);
                }
                out.push(entry);
            },
            Directive::Bare(_) => {
                assert(dv[j as int] is Bare);
                return None;
            },
            _ => {},
        }
        j += 1;
    }
    assert(dv.take(ds.len() as int) =~= dv);
    Some(out)
}

/// Resolves the attributes of an item or a member into one ordered list.
///
/// The documentation lines give the first entry: their cleaned texts joined
/// by single spaces and trimmed, under `about` for an item and under `help`
/// for a member; a text that is empty gives no entry. The `key = literal`
/// entries of the settings follow in declaration order. A settings attribute without a list, or with a literal
/// standing alone in its list, is a fault at `at`.
pub fn extract_attrs(attrs: &Vec<RawAttribute>, source: AttrSource, at: Place) -> (r: Result<
    Vec<AttributeEntry>,
    CompileError,
>)
    ensures
        match r {
            Ok(entries) => resolve(views(attrs@), source) == Some(views(entries@)),
            Err(e) => resolve(views(attrs@), source) is None && e == CompileError::AttributeParse(
                at,
            ),
        },
{
    let mut explicit: Vec<AttributeEntry> = Vec::new();
    let mut doc = String::new();
    let mut count: usize = 0;
    let ghost av = views(attrs@);
    let mut i: usize = 0;
    while i < attrs.len()
        invariant
            av == views(attrs@),
            i <= attrs.len(),
            forall|k: int| 0 <= k < i ==> !malformed_attr(#[trigger] av[k]),
            views(explicit@) == explicit_entries(av.take(i as int)),
            count == doc_lines(av.take(i as int)).len(),
            count <= i,
            doc@ == joined(doc_lines(av.take(i as int))),
        decreases attrs.len() - i,
    {
        proof {
            assert(av.take(i + 1).drop_last() =~= av.take(i as int));
            assert(av.take(i + 1).last() == av[i as int]);
        }
        let a = &attrs[i];
        assert(a@ == av[i as int]);
        if same_text(a.name.as_str(), "clap") {
            match &a.value {
                AttrValue::List(ds) => {
                    match collect_assigns(ds) {
                        Some(mut found) => {
                            proof {
                                lemma_views_add(explicit@, found@);
                            }
                            explicit.append(&mut found);
                        },
                        None => {
                            assert(malformed_attr(av[i as int]));
                            return Err(CompileError::AttributeParse(at));
                        },
                    }
                },
                _ => {
                    assert(malformed_attr(av[i as int]));
                    return Err(CompileError::AttributeParse(at));
                },
            }
        } else {
            assert(settings_of(av[i as int]) =~= Seq::empty());
            assert(views(explicit@) + Seq::<AttributeEntryView>::empty() =~= views(explicit@));
        }
        if a.sugared_doc && same_text(a.name.as_str(), "doc") {
            match &a.value {
                AttrValue::NameValue(Literal::Str(t)) => {
                    let line = clean_doc_line(t.as_str());
                    let ghost before = doc_lines(av.take(i as int));
                    assert(doc_line(av[i as int]) == Some(line@));
                    assert(before.push(line@).drop_last() =~= before);
                    if count > 0 {
                        proof {
                            reveal_strlit(" ");
                            assert(" "@ =~= seq![' ']);
                        }
                        doc.append(" ");
                    } else {
                        assert(doc@ + line@ =~= line@);
                    }
                    doc.append(line.as_str());
                    count += 1;
                },
                _ => {},
            }
        }
        i += 1;
    }
    assert(av.take(attrs.len() as int) =~= av);
    assert(!malformed(av));
    let text = trim_text(doc.as_str());
    if text.as_str().unicode_len() > 0 {
        let mut out: Vec<AttributeEntry> = Vec::new();
        let key = match source {
            AttrSource::ItemLevel => String::from_str("about"),
            AttrSource::MemberLevel => String::from_str("help"),
        };
        let entry = AttributeEntry { key, value: Literal::Str(text) };
        proof {
            lemma_views_push(out@, entry);
            lemma_views_add(out@.push(entry), explicit@);
            assert(views(out@).push(entry@) =~= doc_entries(av, source));
        }
        out.push(entry);
        out.append(&mut explicit);
        Ok(out)
    } else {
        assert(doc_entries(av, source) + explicit_entries(av) =~= explicit_entries(av));
        Ok(explicit)
    }
}

/// Looks up a key: the value of its last entry.
pub fn lookup<'a>(entries: &'a Vec<AttributeEntry>, key: &str) -> (r: Option<&'a Literal>)
    ensures
        match r {
            Some(value) => last_value(views(entries@), key@) == Some(value@),
            None => last_value(views(entries@), key@) is None,
        },
{
    let ghost ev = views(entries@);
    let mut i: usize = entries.len();
    assert(ev.take(i as int) =~= ev);
    while i > 0
        invariant
            ev == views(entries@),
            i <= entries.len(),
            last_value(ev, key@) == last_value(ev.take(i as int), key@),
        decreases i,
    {
        proof {
            assert(ev.take(i as int).drop_last() =~= ev.take(i - 1));
            assert(ev.take(i as int).last() == ev[i - 1]);
        }
        if same_text(entries[i - 1].key.as_str(), key) {
            return Some(&entries[i - 1].value);
        }
        i -= 1;
    }
    None
}

/// Looks up a variable of the environment: the value of the first one with
/// the given name.
pub fn env_lookup<'a>(env: &'a Environment, name: &str) -> (r: Option<&'a String>)
    ensures
        match r {
            Some(value) => value@ == env_value(env@, name@) && exists|i: int|
                0 <= i < env@.len() && env@[i].name == name@,
            None => env_value(env@, name@) == Seq::<char>::empty() && forall|i: int|
                0 <= i < env@.len() ==> env@[i].name != name@,
        },
{
    let ghost ev = env@;
    let mut i: usize = 0;
    assert(ev.skip(0) =~= ev);
    while i < env.vars.len()
        invariant
            ev == views(env.vars@),
            i <= env.vars.len(),
            env_value(ev, name@) == env_value(ev.skip(i as int), name@),
            forall|k: int| 0 <= k < i ==> ev[k].name != name@,
        decreases env.vars.len() - i,
    {
        proof {
            assert(ev.skip(i as int).skip(1) =~= ev.skip(i + 1));
            assert(ev.skip(i as int)[0] == ev[i as int]);
        }
        if same_text(env.vars[i].name.as_str(), name) {
            return Some(&env.vars[i].value);
        }
        i += 1;
    }
    None
}

/// The value of `key`: that of its last entry; without one, the value of the
/// environment variable `env` in the snapshot; without that, the empty
/// string.
pub fn from_attr_or_env(
    attrs: &Vec<AttributeEntry>,
    key: &str,
    env: &str,
    ambient: &Environment,
) -> (r: Literal)
    ensures
        r@ == attr_or_env(views(attrs@), key@, env@, ambient@),
{
    match lookup(attrs, key) {
        Some(value) => value.duplicate(),
        None => match env_lookup(ambient, env) {
            Some(value) => Literal::Str(value.clone()),
            None => Literal::Str(String::new()),
        },
    }
}

/// In a list made of two parts, the last entry of a key is the one of the
/// second part when that part has the key, else the one of the first part.
pub proof fn lemma_last_value_add(
    a: Seq<AttributeEntryView>,
    b: Seq<AttributeEntryView>,
    key: Seq<char>,
)
    ensures
        last_value(a + b, key) == (if last_value(b, key) is Some {
            last_value(b, key)
        } else {
            last_value(a, key)
        }),
    decreases b.len(),
{
    if b.len() == 0 {
        assert(a + b =~= a);
    } else {
        assert((a + b).drop_last() =~= a + b.drop_last());
        assert((a + b).last() == b.last());
        lemma_last_value_add(a, b.drop_last(), key);
    }
}

/// An explicit entry overrides the documentation: where the settings give
/// `about` (for an item) or `help` (for a member), the resolved list yields
/// the last explicit value, whatever the documentation lines say.
pub proof fn law_explicit_overrides_doc(attrs: Seq<RawAttributeView>, source: AttrSource)
    requires
        last_value(explicit_entries(attrs), doc_key(source)) is Some,
    ensures
        last_value(resolved_entries(attrs, source), doc_key(source)) == last_value(
            explicit_entries(attrs),
            doc_key(source),
        ),
{
    lemma_last_value_add(doc_entries(attrs, source), explicit_entries(attrs), doc_key(source));
}

/// Without an explicit entry, the documentation text is what the key yields,
/// where the text is not empty.
pub proof fn law_doc_is_default(attrs: Seq<RawAttributeView>, source: AttrSource)
    requires
        doc_text(attrs).len() > 0,
        last_value(explicit_entries(attrs), doc_key(source)) is None,
    ensures
        last_value(resolved_entries(attrs, source), doc_key(source)) == Some(
            LiteralView::Str(doc_text(attrs)),
        ),
{
    lemma_last_value_add(doc_entries(attrs, source), explicit_entries(attrs), doc_key(source));
    let d = doc_entries(attrs, source);
    assert(d.drop_last() =~= Seq::<AttributeEntryView>::empty());
}

/// Documentation whose text is empty contributes nothing: the resolved list
/// is the list of the explicit entries.
pub proof fn law_empty_doc_is_no_entry(attrs: Seq<RawAttributeView>, source: AttrSource)
    requires
        doc_text(attrs).len() == 0,
    ensures
        resolved_entries(attrs, source) == explicit_entries(attrs),
{
    assert(doc_entries(attrs, source) + explicit_entries(attrs) =~= explicit_entries(attrs));
}

} // verus!
