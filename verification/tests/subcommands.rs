use clap_derive_internals::attrs::Environment;
use clap_derive_internals::builder::compile;
use clap_derive_internals::emit::Invocation;
use clap_derive_internals::error::{CompileError, Place};
use clap_derive_internals::model::{
    PathSegment, AttrValue, Body, Directive, Field, Literal, RawAttribute, Schema, SchemaItem, TypeShape,
    Variant,
};
use clap_derive_internals::parser::Parser;

fn s(text: &str) -> String {
    text.to_string()
}

fn plain(name: &str) -> TypeShape {
    TypeShape::Path { text: s(name), qualified: false, segments: vec![PathSegment { ident: s(name), args: vec![] }] }
}

fn optional(inner: &str) -> TypeShape {
    TypeShape::Path {
        text: format!("Option < {} >", inner),
        qualified: false,
        segments: vec![PathSegment { ident: s("Option"), args: vec![s(inner)] }],
    }
}

fn settings(entries: Vec<Directive>) -> RawAttribute {
    RawAttribute { name: s("clap"), sugared_doc: false, value: AttrValue::List(entries) }
}

fn doc(line: &str) -> RawAttribute {
    RawAttribute {
        name: s("doc"),
        sugared_doc: true,
        value: AttrValue::NameValue(Literal::Str(s(line))),
    }
}

fn text(key: &str, value: &str) -> Directive {
    Directive::Assign(s(key), Literal::Str(s(value)))
}

fn word(name: &str) -> Directive {
    Directive::Word(s(name))
}

fn named(name: &str) -> Vec<RawAttribute> {
    vec![settings(vec![text("name", name)])]
}

fn argument(ident: &str, ty: &str) -> Field {
    Field { ident: s(ident), ty: plain(ty), attrs: vec![], target: None }
}

fn carrier(ident: &str, ty: TypeShape, target: usize, marks: Vec<Directive>) -> Field {
    let mut entries = vec![word("subcommand")];
    entries.extend(marks);
    Field { ident: s(ident), ty, attrs: vec![settings(entries)], target: Some(target) }
}

fn variant(ident: &str, attrs: Vec<RawAttribute>, fields: Vec<Field>) -> Variant {
    Variant { ident: s(ident), attrs, fields }
}

fn bag(ident: &str, attrs: Vec<RawAttribute>, fields: Vec<Field>) -> SchemaItem {
    SchemaItem { ident: s(ident), attrs, body: Body::Options(fields) }
}

fn set(ident: &str, attrs: Vec<RawAttribute>, variants: Vec<Variant>) -> SchemaItem {
    SchemaItem { ident: s(ident), attrs, body: Body::Commands(variants) }
}

fn run(items: Vec<SchemaItem>) -> Result<Vec<Invocation>, CompileError> {
    let schema = Schema { items, root: 0 };
    assert!(schema.is_well_formed());
    compile(&schema, &Environment { vars: vec![] }).map(|spec| spec.invocations)
}

fn setter(method: &str, value: &str) -> Invocation {
    Invocation::Setter(s(method), Literal::Str(s(value)))
}

fn head(name: &str) -> Vec<Invocation> {
    vec![
        Invocation::App(Literal::Str(s(name))),
        setter("version", ""),
        setter("author", ""),
        setter("about", ""),
    ]
}

fn flag(name: &str) -> Vec<Invocation> {
    vec![
        Invocation::Arg(s(name)),
        Invocation::TakesValue(false),
        Invocation::Multiple(false),
        Invocation::Required(false),
        Invocation::EndArg,
    ]
}

fn value(name: &str, ty: &str) -> Vec<Invocation> {
    vec![
        Invocation::Arg(s(name)),
        Invocation::TakesValue(true),
        Invocation::Multiple(false),
        Invocation::Required(true),
        Invocation::Validator(Parser::TryFromStr, s("::std::str::FromStr::from_str"), s(ty)),
        Invocation::EndArg,
    ]
}

fn names(spec: &[Invocation]) -> Vec<String> {
    spec.iter()
        .filter_map(|i| match i {
            Invocation::Subcommand(name) => Some(name.clone()),
            _ => None,
        })
        .collect()
}

#[test]
fn three_subcommands_keyed_by_explicit_names() {
    let git = set(
        "Git",
        vec![settings(vec![text("name", "git"), text("about", "the stupid content tracker")])],
        vec![
            variant("Add", named("add"), vec![argument("interactive", "bool")]),
            variant("Fetch", named("fetch"), vec![argument("all", "bool")]),
            variant("Commit", named("commit"), vec![argument("all", "bool")]),
        ],
    );
    let mut expected = vec![
        Invocation::App(Literal::Str(s("git"))),
        setter("version", ""),
        setter("author", ""),
        setter("about", "the stupid content tracker"),
        Invocation::SubcommandGroup(true, s("Git")),
    ];
    for (name, arg) in [("add", "interactive"), ("fetch", "all"), ("commit", "all")] {
        expected.push(Invocation::Subcommand(s(name)));
        expected.extend(flag(arg));
        expected.push(Invocation::EndSubcommand);
    }
    assert_eq!(run(vec![git]), Ok(expected));
}

#[test]
fn variant_identifier_is_the_default_name() {
    let command = set(
        "Command",
        vec![],
        vec![variant("Bar", vec![], vec![]), variant("Baz", vec![], vec![])],
    );
    let spec = run(vec![command]).unwrap();
    assert_eq!(names(&spec), vec![s("Bar"), s("Baz")]);
}

#[test]
fn documentation_of_a_variant_is_its_description() {
    let command = set(
        "Command",
        vec![],
        vec![variant(
            "Pound",
            vec![
                settings(vec![text("name", "pound")]),
                doc("/// Pound acorns into flour for cookie dough."),
            ],
            vec![],
        )],
    );
    let mut expected = head("");
    expected.extend(vec![
        Invocation::SubcommandGroup(true, s("Command")),
        Invocation::Subcommand(s("pound")),
        setter("about", "Pound acorns into flour for cookie dough."),
        Invocation::EndSubcommand,
    ]);
    assert_eq!(run(vec![command]), Ok(expected));
}

#[test]
fn carrier_opens_a_required_group_after_the_arguments() {
    let foo = bag(
        "Foo",
        named("foo"),
        vec![carrier("cmd", plain("Command"), 1, vec![]), argument("file", "String")],
    );
    let command = set("Command", vec![], vec![variant("Bar", vec![], vec![])]);
    let mut expected = head("foo");
    expected.extend(value("file", "String"));
    expected.extend(vec![
        Invocation::SubcommandGroup(true, s("Command")),
        Invocation::Subcommand(s("Bar")),
        Invocation::EndSubcommand,
    ]);
    assert_eq!(run(vec![foo, command]), Ok(expected));
}

#[test]
fn optional_carrier_opens_a_group_that_may_be_left_out() {
    let foo = bag(
        "Foo",
        named("foo"),
        vec![argument("file", "String"), carrier("cmd", optional("Command"), 1, vec![])],
    );
    let command = set("Command", vec![], vec![variant("Bar", vec![], vec![])]);
    let spec = run(vec![foo, command]).unwrap();
    assert!(spec.contains(&Invocation::SubcommandGroup(false, s("Command"))));
}

#[test]
fn nested_command_sets_nest_their_subcommands() {
    let make_cookie =
        bag("MakeCookie", named("make-cookie"), vec![carrier("cmd", plain("Command"), 1, vec![])]);
    let command = set(
        "Command",
        vec![],
        vec![
            variant("Pound", named("pound"), vec![argument("acorns", "u32")]),
            variant(
                "Finish",
                named("finish"),
                vec![argument("time", "u32"), carrier("kind", plain("FinishType"), 2, vec![])],
            ),
        ],
    );
    let finish = set(
        "FinishType",
        vec![],
        vec![
            variant("Glaze", named("glaze"), vec![argument("applications", "u32")]),
            variant("Powder", named("powder"), vec![argument("flavor", "String")]),
        ],
    );
    let mut expected = head("make-cookie");
    expected.push(Invocation::SubcommandGroup(true, s("Command")));
    expected.push(Invocation::Subcommand(s("pound")));
    expected.extend(value("acorns", "u32"));
    expected.push(Invocation::EndSubcommand);
    expected.push(Invocation::Subcommand(s("finish")));
    expected.extend(value("time", "u32"));
    expected.push(Invocation::SubcommandGroup(true, s("FinishType")));
    expected.push(Invocation::Subcommand(s("glaze")));
    expected.extend(value("applications", "u32"));
    expected.push(Invocation::EndSubcommand);
    expected.push(Invocation::Subcommand(s("powder")));
    expected.extend(value("flavor", "String"));
    expected.push(Invocation::EndSubcommand);
    expected.push(Invocation::EndSubcommand);
    assert_eq!(run(vec![make_cookie, command, finish]), Ok(expected));
}

#[test]
fn two_carriers_in_a_bag() {
    let foo = bag(
        "Foo",
        vec![],
        vec![
            carrier("first", plain("Command"), 1, vec![]),
            argument("file", "String"),
            carrier("second", plain("Command"), 1, vec![]),
        ],
    );
    let command = set("Command", vec![], vec![]);
    assert_eq!(
        run(vec![foo, command]),
        Err(CompileError::MultipleSubcommands(Place::Item(0)))
    );
}

#[test]
fn two_carriers_come_before_any_other_fault_of_the_command() {
    let broken = RawAttribute { name: s("clap"), sugared_doc: false, value: AttrValue::Word };
    let foo = bag(
        "Foo",
        vec![broken],
        vec![
            carrier("first", plain("Command"), 1, vec![]),
            carrier("second", plain("Command"), 1, vec![]),
        ],
    );
    let command = set("Command", vec![], vec![]);
    assert_eq!(
        run(vec![foo, command]),
        Err(CompileError::MultipleSubcommands(Place::Item(0)))
    );
}

#[test]
fn two_carriers_in_a_variant() {
    let foo = bag("Foo", vec![], vec![carrier("cmd", plain("Command"), 1, vec![])]);
    let command = set(
        "Command",
        vec![],
        vec![
            variant("Fine", vec![], vec![]),
            variant(
                "Twice",
                vec![],
                vec![
                    carrier("a", plain("Other"), 2, vec![]),
                    carrier("b", plain("Other"), 2, vec![]),
                ],
            ),
        ],
    );
    let other = set("Other", vec![], vec![]);
    assert_eq!(
        run(vec![foo, command, other]),
        Err(CompileError::MultipleSubcommands(Place::Member(1, 1)))
    );
}

#[test]
fn command_set_that_hosts_itself() {
    let command = set(
        "Command",
        vec![],
        vec![variant("Again", vec![], vec![carrier("next", plain("Command"), 0, vec![])])],
    );
    assert_eq!(run(vec![command]), Err(CompileError::CyclicSchema(Place::Field(0, 0, 0))));
}

#[test]
fn command_sets_that_host_each_other() {
    let root = bag("Root", vec![], vec![carrier("cmd", plain("A"), 1, vec![])]);
    let a = set(
        "A",
        vec![],
        vec![
            variant("Leaf", vec![], vec![]),
            variant("ToB", vec![], vec![carrier("b", plain("B"), 2, vec![])]),
        ],
    );
    let b = set(
        "B",
        vec![],
        vec![variant("ToA", vec![], vec![argument("x", "u8"), carrier("a", plain("A"), 1, vec![])])],
    );
    assert_eq!(
        run(vec![root, a, b]),
        Err(CompileError::CyclicSchema(Place::Field(2, 0, 1)))
    );
}

#[test]
fn flattened_carrier_that_leads_back() {
    let command = set(
        "Command",
        vec![],
        vec![variant(
            "Again",
            vec![],
            vec![carrier("next", plain("Command"), 0, vec![word("flatten")])],
        )],
    );
    assert_eq!(run(vec![command]), Err(CompileError::CyclicSchema(Place::Field(0, 0, 0))));
}

#[test]
fn command_set_hosted_twice_is_no_cycle() {
    let root = bag("Root", vec![], vec![carrier("cmd", plain("A"), 1, vec![])]);
    let a = set(
        "A",
        vec![],
        vec![
            variant("Left", vec![], vec![carrier("inner", plain("Shared"), 2, vec![])]),
            variant("Right", vec![], vec![carrier("inner", plain("Shared"), 2, vec![])]),
        ],
    );
    let shared = set("Shared", vec![], vec![variant("Leaf", vec![], vec![])]);
    let spec = run(vec![root, a, shared]).unwrap();
    assert_eq!(names(&spec), vec![s("Left"), s("Leaf"), s("Right"), s("Leaf")]);
}

#[test]
fn flatten_merges_the_arguments_of_the_variants() {
    let make_cookie = bag(
        "MakeCookie",
        named("make-cookie"),
        vec![
            carrier("cmd", plain("Command"), 1, vec![word("flatten")]),
            argument("s", "String"),
        ],
    );
    let command = set(
        "Command",
        vec![],
        vec![
            variant(
                "Pound",
                named("pound"),
                vec![argument("acorns", "u32"), carrier("more", plain("Deeper"), 2, vec![])],
            ),
            variant("Sparkle", vec![], vec![argument("color", "String")]),
        ],
    );
    let deeper = set("Deeper", vec![], vec![variant("Leaf", vec![], vec![argument("s", "u8")])]);
    let mut expected = head("make-cookie");
    expected.extend(value("s", "String"));
    expected.extend(value("acorns", "u32"));
    expected.extend(value("color", "String"));
    assert_eq!(run(vec![make_cookie, command, deeper]), Ok(expected));
}

#[test]
fn flattened_argument_collides_with_an_argument_of_the_parent() {
    let parent = bag(
        "Parent",
        vec![],
        vec![
            argument("color", "String"),
            carrier("cmd", plain("Command"), 1, vec![word("flatten")]),
        ],
    );
    let command = set(
        "Command",
        vec![],
        vec![
            variant("Pound", vec![], vec![argument("acorns", "u32")]),
            variant("Sparkle", vec![], vec![argument("size", "u8"), argument("color", "String")]),
        ],
    );
    assert_eq!(
        run(vec![parent, command]),
        Err(CompileError::DuplicateArgument(Place::Field(1, 1, 1)))
    );
}

#[test]
fn flattened_argument_collides_by_its_explicit_name() {
    let parent = bag(
        "Parent",
        vec![],
        vec![
            argument("color", "String"),
            carrier("cmd", plain("Command"), 1, vec![word("flatten")]),
        ],
    );
    let mut tint = argument("tint", "String");
    tint.attrs = named("color");
    let command = set("Command", vec![], vec![variant("Sparkle", vec![], vec![tint])]);
    assert_eq!(
        run(vec![parent, command]),
        Err(CompileError::DuplicateArgument(Place::Field(1, 0, 0)))
    );
}

#[test]
fn flattened_arguments_collide_with_each_other() {
    let parent =
        bag("Parent", vec![], vec![carrier("cmd", plain("Command"), 1, vec![word("flatten")])]);
    let command = set(
        "Command",
        vec![],
        vec![
            variant("Fetch", vec![], vec![argument("all", "bool")]),
            variant("Commit", vec![], vec![argument("all", "bool")]),
        ],
    );
    assert_eq!(
        run(vec![parent, command]),
        Err(CompileError::DuplicateArgument(Place::Field(1, 1, 0)))
    );
}

#[test]
fn fault_of_an_argument_comes_before_the_carrier() {
    let bad = Field {
        ident: s("bad"),
        ty: TypeShape::Path { text: s("Vec"), qualified: false, segments: vec![PathSegment { ident: s("Vec"), args: vec![] }] },
        attrs: vec![],
        target: None,
    };
    let command = set(
        "Command",
        vec![],
        vec![variant("Again", vec![], vec![carrier("next", plain("Command"), 0, vec![]), bad])],
    );
    assert_eq!(run(vec![command]), Err(CompileError::UnsupportedType(Place::Field(0, 0, 1))));
}

#[test]
fn well_formedness_of_a_schema() {
    let command = set("Command", vec![], vec![]);
    let good = Schema {
        items: vec![
            bag("Foo", vec![], vec![carrier("cmd", plain("Command"), 1, vec![])]),
            command.clone(),
        ],
        root: 0,
    };
    assert!(good.is_well_formed());

    let no_root = Schema { items: vec![command.clone()], root: 1 };
    assert!(!no_root.is_well_formed());

    let mut lost = carrier("cmd", plain("Command"), 1, vec![]);
    lost.target = None;
    let carrier_without_target =
        Schema { items: vec![bag("Foo", vec![], vec![lost]), command.clone()], root: 0 };
    assert!(!carrier_without_target.is_well_formed());

    let mut stray = argument("file", "String");
    stray.target = Some(1);
    let target_without_carrier =
        Schema { items: vec![bag("Foo", vec![], vec![stray]), command.clone()], root: 0 };
    assert!(!target_without_carrier.is_well_formed());

    let hosts_a_bag = Schema {
        items: vec![bag("Foo", vec![], vec![carrier("cmd", plain("Foo"), 0, vec![])])],
        root: 0,
    };
    assert!(!hosts_a_bag.is_well_formed());

    let out_of_range = Schema {
        items: vec![bag("Foo", vec![], vec![carrier("cmd", plain("Command"), 7, vec![])])],
        root: 0,
    };
    assert!(!out_of_range.is_well_formed());

    let inside_a_variant = Schema {
        items: vec![set(
            "Command",
            vec![],
            vec![variant("V", vec![], vec![carrier("cmd", plain("Gone"), 3, vec![])])],
        )],
        root: 0,
    };
    assert!(!inside_a_variant.is_well_formed());
}

#[test]
fn fault_in_the_attributes_of_a_variant() {
    let broken = RawAttribute { name: s("clap"), sugared_doc: false, value: AttrValue::Word };
    let root = bag("Root", vec![], vec![carrier("cmd", plain("Command"), 1, vec![])]);
    let command = set(
        "Command",
        vec![],
        vec![variant("Fine", vec![], vec![]), variant("Broken", vec![broken], vec![])],
    );
    assert_eq!(
        run(vec![root, command]),
        Err(CompileError::AttributeParse(Place::Member(1, 1)))
    );
}

#[test]
fn fault_in_the_attributes_of_a_command_set_as_root() {
    let broken = RawAttribute { name: s("clap"), sugared_doc: false, value: AttrValue::Word };
    let command = set("Command", vec![broken], vec![variant("Fine", vec![], vec![])]);
    assert_eq!(run(vec![command]), Err(CompileError::AttributeParse(Place::Item(0))));
}

#[test]
fn fault_of_a_flattened_argument() {
    let parent =
        bag("Parent", vec![], vec![carrier("cmd", plain("Command"), 1, vec![word("flatten")])]);
    let mut bad = argument("bad", "Option");
    bad.ty = TypeShape::Path { text: s("Option"), qualified: false, segments: vec![PathSegment { ident: s("Option"), args: vec![] }] };
    let command = set(
        "Command",
        vec![],
        vec![variant("A", vec![], vec![argument("x", "u8")]), variant("B", vec![], vec![bad])],
    );
    assert_eq!(
        run(vec![parent, command]),
        Err(CompileError::UnsupportedType(Place::Field(1, 1, 0)))
    );
}

#[test]
fn long_chain_of_command_sets() {
    let depth = 200;
    let mut items = vec![bag("Root", vec![], vec![carrier("cmd", plain("C"), 1, vec![])])];
    for i in 1..=depth {
        let fields =
            if i < depth { vec![carrier("next", plain("C"), i + 1, vec![])] } else { vec![] };
        items.push(set("C", vec![], vec![variant("Step", vec![], fields)]));
    }
    let spec = run(items.clone()).unwrap();
    assert_eq!(names(&spec).len(), depth);

    if let Body::Commands(variants) = &mut items[depth].body {
        variants[0].fields.push(carrier("back", plain("C"), 1, vec![]));
    }
    assert_eq!(run(items), Err(CompileError::CyclicSchema(Place::Field(depth, 0, 0))));
}

#[test]
fn schema_of_a_declaration_read_alone() {
    let mut cmd = carrier("cmd", optional("Command"), 7, vec![]);
    cmd.target = None;
    let mut stray = argument("file", "String");
    stray.target = Some(3);
    let declared = bag("Foo", named("foo"), vec![stray, cmd]);
    let schema = Schema::of_declaration(declared).unwrap();
    assert!(schema.is_well_formed());
    assert_eq!(
        schema,
        Schema {
            items: vec![
                bag(
                    "Foo",
                    named("foo"),
                    vec![argument("file", "String"), carrier("cmd", optional("Command"), 1, vec![])],
                ),
                set("Command", vec![], vec![]),
            ],
            root: 0,
        }
    );

    let plain_bag = bag("Plain", vec![], vec![argument("a", "bool")]);
    assert_eq!(
        Schema::of_declaration(plain_bag.clone()),
        Some(Schema { items: vec![plain_bag], root: 0 })
    );
}

#[test]
fn stand_ins_are_numbered_in_the_order_of_their_carriers() {
    let open = |ident: &str, ty: &str| {
        let mut field = carrier(ident, plain(ty), 0, vec![]);
        field.target = None;
        field
    };
    let declared = set(
        "Command",
        vec![],
        vec![
            variant("A", vec![], vec![argument("x", "u8"), open("first", "One")]),
            variant("B", vec![], vec![]),
            variant("C", vec![], vec![open("second", "Two"), argument("y", "u8")]),
        ],
    );
    let schema = Schema::of_declaration(declared).unwrap();
    assert!(schema.is_well_formed());
    assert_eq!(
        schema,
        Schema {
            items: vec![
                set(
                    "Command",
                    vec![],
                    vec![
                        variant(
                            "A",
                            vec![],
                            vec![argument("x", "u8"), carrier("first", plain("One"), 1, vec![])],
                        ),
                        variant("B", vec![], vec![]),
                        variant(
                            "C",
                            vec![],
                            vec![carrier("second", plain("Two"), 2, vec![]), argument("y", "u8")],
                        ),
                    ],
                ),
                set("One", vec![], vec![]),
                set("Two", vec![], vec![]),
            ],
            root: 0,
        }
    );
    let spec = compile(&schema, &Environment { vars: vec![] }).unwrap().invocations;
    assert_eq!(names(&spec), vec![s("A"), s("B"), s("C")]);
}

#[test]
fn declaration_read_alone_cannot_flatten() {
    let flat = carrier("cmd", plain("Command"), 1, vec![word("flatten")]);
    assert_eq!(Schema::of_declaration(bag("Foo", vec![], vec![flat.clone()])), None);
    assert_eq!(
        Schema::of_declaration(set(
            "Command",
            vec![],
            vec![variant("A", vec![], vec![]), variant("B", vec![], vec![flat])],
        )),
        None
    );
    let mut only_marked = argument("x", "u8");
    only_marked.attrs = vec![settings(vec![word("flatten")])];
    assert!(Schema::of_declaration(bag("Foo", vec![], vec![only_marked])).is_some());
}
