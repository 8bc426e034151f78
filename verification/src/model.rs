//! The structural description of a schema: what a front end hands over after
//! reading the declarations, with a mathematical view of every type.

use vstd::prelude::*;

verus! {

/// The views of the elements of a sequence, in order.
pub open spec fn views<T: View>(s: Seq<T>) -> Seq<T::V> {
    s.map_values(|x: T| x@)
}

/// The views of a sequence with one more element.
pub proof fn lemma_views_push<T: View>(s: Seq<T>, x: T)
    ensures
        views(s.push(x)) == views(s).push(x@),
{
    assert(views(s.push(x)) =~= views(s).push(x@));
}

/// The views of two sequences, one after the other.
pub proof fn lemma_views_add<T: View>(a: Seq<T>, b: Seq<T>)
    ensures
        views(a + b) == views(a) + views(b),
{
    assert(views(a + b) =~= views(a) + views(b));
}

/// A literal value of an attribute.
#[derive(Clone, Debug, PartialEq, Eq)]
pub enum Literal {
    Str(String),
    Char(char),
    Int(u64),
    Bool(bool),
    /// Any other literal (a byte string, a float), as it was written.
    Verbatim(String),
}

pub enum LiteralView {
    Str(Seq<char>),
    Char(char),
    Int(u64),
    Bool(bool),
    Verbatim(Seq<char>),
}

impl View for Literal {
    type V = LiteralView;

    open spec fn view(&self) -> LiteralView {
        match self {
            Literal::Str(s) => LiteralView::Str(s@),
            Literal::Char(c) => LiteralView::Char(*c),
            Literal::Int(n) => LiteralView::Int(*n),
            Literal::Bool(b) => LiteralView::Bool(*b),
            Literal::Verbatim(s) => LiteralView::Verbatim(s@),
        }
    }
}

impl Literal {
    /// A copy with the same view.
    pub fn duplicate(&self) -> (r: Literal)
        ensures
            r@ == self@,
    {
        match self {
            Literal::Str(s) => Literal::Str(s.clone()),
            Literal::Char(c) => Literal::Char(*c),
            Literal::Int(n) => Literal::Int(*n),
            Literal::Bool(b) => Literal::Bool(*b),
            Literal::Verbatim(s) => Literal::Verbatim(s.clone()),
        }
    }
}

/// One argument of a call-shaped setting such as `parse(try_from_str = "f")`.
#[derive(Clone, Debug, PartialEq, Eq)]
pub enum CallArg {
    /// A bare word: `from_str`.
    Word(String),
    /// `key = literal`.
    Assign(String, Literal),
    /// Anything else.
    Other,
}

pub enum CallArgView {
    Word(Seq<char>),
    Assign(Seq<char>, LiteralView),
    Other,
}

impl View for CallArg {
    type V = CallArgView;

    open spec fn view(&self) -> CallArgView {
        match self {
            CallArg::Word(w) => CallArgView::Word(w@),
            CallArg::Assign(k, v) => CallArgView::Assign(k@, v@),
            CallArg::Other => CallArgView::Other,
        }
    }
}

/// One entry of a settings list `clap(...)`.
#[derive(Clone, Debug, PartialEq, Eq)]
pub enum Directive {
    /// `key = literal`: a setter of the builder.
    Assign(String, Literal),
    /// A bare word: `subcommand`, `flatten`.
    Word(String),
    /// `name(arguments)`: `parse(...)`.
    Call(String, Vec<CallArg>),
    /// A literal standing alone.
    Bare(Literal),
}

pub enum DirectiveView {
    Assign(Seq<char>, LiteralView),
    Word(Seq<char>),
    Call(Seq<char>, Seq<CallArgView>),
    Bare(LiteralView),
}

impl View for Directive {
    type V = DirectiveView;

    open spec fn view(&self) -> DirectiveView {
        match self {
            Directive::Assign(k, v) => DirectiveView::Assign(k@, v@),
            Directive::Word(w) => DirectiveView::Word(w@),
            Directive::Call(n, args) => DirectiveView::Call(n@, views(args@)),
            Directive::Bare(l) => DirectiveView::Bare(l@),
        }
    }
}

/// What follows the name of an attribute.
#[derive(Clone, Debug, PartialEq, Eq)]
pub enum AttrValue {
    /// Nothing: `#[name]`.
    Word,
    /// `#[name = literal]`; a documentation line has this form.
    NameValue(Literal),
    /// `#[name(...)]`.
    List(Vec<Directive>),
}

pub enum AttrValueView {
    Word,
    NameValue(LiteralView),
    List(Seq<DirectiveView>),
}

impl View for AttrValue {
    type V = AttrValueView;

    open spec fn view(&self) -> AttrValueView {
        match self {
            AttrValue::Word => AttrValueView::Word,
            AttrValue::NameValue(l) => AttrValueView::NameValue(l@),
            AttrValue::List(ds) => AttrValueView::List(views(ds@)),
        }
    }
}

/// One attribute of an item or of a member, as it was declared.
#[derive(Clone, Debug, PartialEq, Eq)]
pub struct RawAttribute {
    pub name: String,
    /// Whether the attribute was written as a documentation comment.
    pub sugared_doc: bool,
    pub value: AttrValue,
}

pub struct RawAttributeView {
    pub name: Seq<char>,
    pub sugared_doc: bool,
    pub value: AttrValueView,
}

impl View for RawAttribute {
    type V = RawAttributeView;

    open spec fn view(&self) -> RawAttributeView {
        RawAttributeView { name: self.name@, sugared_doc: self.sugared_doc, value: self.value@ }
    }
}

/// One segment of a path: its identifier, and the texts of the type
/// parameters that it carries between angle brackets.
#[derive(Clone, Debug, PartialEq, Eq)]
pub struct PathSegment {
    pub ident: String,
    pub args: Vec<String>,
}

pub struct PathSegmentView {
    pub ident: Seq<char>,
    pub args: Seq<Seq<char>>,
}

impl View for PathSegment {
    type V = PathSegmentView;

    open spec fn view(&self) -> PathSegmentView {
        PathSegmentView { ident: self.ident@, args: views(self.args@) }
    }
}

/// The shape of a declared type.
#[derive(Clone, Debug, PartialEq, Eq)]
pub enum TypeShape {
    /// A path such as `bool`, `Vec<String>` or `std::path::PathBuf`, with its
    /// segments in order. A path that begins with a type between angle
    /// brackets, such as `<T as Trait>::Out`, is qualified.
    Path { text: String, qualified: bool, segments: Vec<PathSegment> },
    /// Any other type expression.
    Other { text: String },
}

pub enum TypeShapeView {
    Path { text: Seq<char>, qualified: bool, segments: Seq<PathSegmentView> },
    Other { text: Seq<char> },
}

impl View for TypeShape {
    type V = TypeShapeView;

    open spec fn view(&self) -> TypeShapeView {
        match self {
            TypeShape::Path { text, qualified, segments } => TypeShapeView::Path {
                text: text@,
                qualified: *qualified,
                segments: views(segments@),
            },
            TypeShape::Other { text } => TypeShapeView::Other { text: text@ },
        }
    }
}

impl TypeShapeView {
    /// The type as it was written.
    pub open spec fn text(self) -> Seq<char> {
        match self {
            TypeShapeView::Path { text, .. } => text,
            TypeShapeView::Other { text } => text,
        }
    }
}

/// A field: an argument, or the carrier of a subcommand group.
#[derive(Clone, Debug, PartialEq, Eq)]
pub struct Field {
    pub ident: String,
    pub ty: TypeShape,
    pub attrs: Vec<RawAttribute>,
    /// For a subcommand carrier, the index of the command set it hosts.
    pub target: Option<usize>,
}

pub struct FieldView {
    pub ident: Seq<char>,
    pub ty: TypeShapeView,
    pub attrs: Seq<RawAttributeView>,
    pub target: Option<usize>,
}

impl View for Field {
    type V = FieldView;

    open spec fn view(&self) -> FieldView {
        FieldView {
            ident: self.ident@,
            ty: self.ty@,
            attrs: views(self.attrs@),
            target: self.target,
        }
    }
}

/// A variant of a command set: one subcommand with its own fields.
#[derive(Clone, Debug, PartialEq, Eq)]
pub struct Variant {
    pub ident: String,
    pub attrs: Vec<RawAttribute>,
    pub fields: Vec<Field>,
}

pub struct VariantView {
    pub ident: Seq<char>,
    pub attrs: Seq<RawAttributeView>,
    pub fields: Seq<FieldView>,
}

impl View for Variant {
    type V = VariantView;

    open spec fn view(&self) -> VariantView {
        VariantView { ident: self.ident@, attrs: views(self.attrs@), fields: views(self.fields@) }
    }
}

/// The members of an item.
#[derive(Clone, Debug, PartialEq, Eq)]
pub enum Body {
    /// An options bag: arguments, and at most one subcommand carrier.
    Options(Vec<Field>),
    /// A command set: one subcommand per variant.
    Commands(Vec<Variant>),
}

pub enum BodyView {
    Options(Seq<FieldView>),
    Commands(Seq<VariantView>),
}

impl View for Body {
    type V = BodyView;

    open spec fn view(&self) -> BodyView {
        match self {
            Body::Options(fields) => BodyView::Options(views(fields@)),
            Body::Commands(variants) => BodyView::Commands(views(variants@)),
        }
    }
}

/// One declared unit of a schema.
#[derive(Clone, Debug, PartialEq, Eq)]
pub struct SchemaItem {
    pub ident: String,
    pub attrs: Vec<RawAttribute>,
    pub body: Body,
}

pub struct SchemaItemView {
    pub ident: Seq<char>,
    pub attrs: Seq<RawAttributeView>,
    pub body: BodyView,
}

impl View for SchemaItem {
    type V = SchemaItemView;

    open spec fn view(&self) -> SchemaItemView {
        SchemaItemView { ident: self.ident@, attrs: views(self.attrs@), body: self.body@ }
    }
}

/// A schema: its items, and the index of the one to compile.
#[derive(Clone, Debug, PartialEq, Eq)]
pub struct Schema {
    pub items: Vec<SchemaItem>,
    pub root: usize,
}

pub struct SchemaView {
    pub items: Seq<SchemaItemView>,
    pub root: usize,
}

impl View for Schema {
    type V = SchemaView;

    open spec fn view(&self) -> SchemaView {
        SchemaView { items: views(self.items@), root: self.root }
    }
}

} // verus!
