use clap_derive_internals::attrs::{
    env_lookup, extract_attrs, from_attr_or_env, lookup, AttrSource, AttributeEntry, EnvVar,
    Environment,
};
use clap_derive_internals::builder::{merge_arg, own_arguments};
use clap_derive_internals::directives::{find_call, has_word};
use clap_derive_internals::emit::{emit_arg, emit_setter, emit_setters, Invocation};
use clap_derive_internals::error::{CompileError, Place};
use clap_derive_internals::member::{name_of, resolve_arg, ArgSpec};
use clap_derive_internals::model::{
    PathSegment, AttrValue, CallArg, Directive, Field, Literal, RawAttribute, TypeShape,
};
use clap_derive_internals::parser::{
    has_custom_parser, parser_is_try, read_parser_kind, resolve_parser, Parser, ParserSpec,
};
use clap_derive_internals::scope::{find_carriers, place_of, place_of_field, Scope};
use clap_derive_internals::text::{clean_doc_line, same_text, trim_text};
use clap_derive_internals::types::{classify, sub_type, ty, type_text, Cardinality, Classified, Ty};

fn s(text: &str) -> String {
    text.to_string()
}

fn settings(entries: Vec<Directive>) -> RawAttribute {
    RawAttribute { name: s("clap"), sugared_doc: false, value: AttrValue::List(entries) }
}

fn doc(line: &str) -> RawAttribute {
    RawAttribute {
        name: s("doc"),
        sugared_doc: true,
        value: AttrValue::NameValue(Literal::Str(s(line))),
    }
}

fn text(key: &str, value: &str) -> Directive {
    Directive::Assign(s(key), Literal::Str(s(value)))
}

fn entry(key: &str, value: &str) -> AttributeEntry {
    AttributeEntry { key: s(key), value: Literal::Str(s(value)) }
}

fn path(name: &str, args: &[&str]) -> TypeShape {
    TypeShape::Path {
        text: if args.is_empty() { s(name) } else { format!("{} < {} >", name, args.join(" , ")) },
        qualified: false,
        segments: vec![PathSegment { ident: s(name), args: args.iter().map(|a| s(a)).collect() }],
    }
}

fn parse(args: Vec<CallArg>) -> Vec<RawAttribute> {
    vec![settings(vec![Directive::Call(s("parse"), args)])]
}

const AT: Place = Place::Member(3, 4);

#[test]
fn texts_are_compared_by_their_characters() {
    assert!(same_text("", ""));
    assert!(same_text("clap", "clap"));
    assert!(same_text("naïve ☃", "naïve ☃"));
    assert!(!same_text("clap", "clip"));
    assert!(!same_text("clap", "clap "));
    assert!(!same_text("é", "e"));
}

#[test]
fn documentation_lines_lose_markers_and_margins() {
    assert_eq!(clean_doc_line("/// Hello, world.  "), "Hello, world.");
    assert_eq!(clean_doc_line("//! Inner"), "Inner");
    assert_eq!(clean_doc_line("/** block */"), "block");
    assert_eq!(clean_doc_line("/*! inner block"), "inner block");
    assert_eq!(clean_doc_line("///"), "");
    assert_eq!(clean_doc_line(""), "");
    assert_eq!(clean_doc_line("no marker "), "no marker");
}

#[test]
fn markers_are_removed_repeatedly_and_in_order() {
    assert_eq!(clean_doc_line("////// six"), "six");
    assert_eq!(clean_doc_line("//!//!/// x"), "x");
    assert_eq!(clean_doc_line("////*!/** x"), "x");
    assert_eq!(clean_doc_line("/////*!/** x"), "//*!/** x");
    assert_eq!(clean_doc_line("/////!x"), "//!x");
    assert_eq!(clean_doc_line("/// //! x"), "//! x");
    assert_eq!(clean_doc_line("//"), "//");
}

#[test]
fn every_kind_of_white_space_is_trimmed() {
    assert_eq!(clean_doc_line("///\t\u{a0}\u{2003}x y\u{3000}\u{2028}\n"), "x y");
    assert_eq!(clean_doc_line("/// \u{200b}x"), "\u{200b}x");
    assert_eq!(clean_doc_line("///   "), "");
}

#[test]
fn documentation_comes_first_and_settings_follow_in_order() {
    let attrs = vec![
        settings(vec![text("short", "b"), Directive::Word(s("subcommand"))]),
        doc("/// The description"),
        RawAttribute { name: s("derive"), sugared_doc: false, value: AttrValue::Word },
        doc("/// of the argument."),
        settings(vec![text("long", "bar"), text("short", "c")]),
    ];
    assert_eq!(
        extract_attrs(&attrs, AttrSource::MemberLevel, AT),
        Ok(vec![
            entry("help", "The description of the argument."),
            entry("short", "b"),
            entry("long", "bar"),
            entry("short", "c"),
        ])
    );
    assert_eq!(
        extract_attrs(&attrs, AttrSource::ItemLevel, AT).unwrap()[0],
        entry("about", "The description of the argument.")
    );
}

#[test]
fn closing_marker_of_a_block_comment_is_removed() {
    assert_eq!(clean_doc_line("/** Block */"), "Block");
    assert_eq!(clean_doc_line("/*! Inner block */"), "Inner block");
    assert_eq!(clean_doc_line("/** Block*/"), "Block");
    assert_eq!(clean_doc_line("/***/"), "");
    assert_eq!(clean_doc_line("/** */"), "");
    assert_eq!(clean_doc_line("/**/"), "/");
    assert_eq!(clean_doc_line("/** a */ */"), "a */");
    assert_eq!(clean_doc_line("last line */"), "last line");
    assert_eq!(clean_doc_line("/** Block * /"), "Block * /");
    assert_eq!(clean_doc_line("/** Block */ "), "Block */");
}

#[test]
fn texts_are_trimmed_at_both_ends() {
    assert_eq!(trim_text("  a  b \t\n"), "a  b");
    assert_eq!(trim_text("\u{3000}x\u{a0}"), "x");
    assert_eq!(trim_text(" \t "), "");
    assert_eq!(trim_text(""), "");
    assert_eq!(trim_text("x"), "x");
}

#[test]
fn documentation_without_text_gives_no_entry() {
    for source in [AttrSource::ItemLevel, AttrSource::MemberLevel] {
        assert_eq!(extract_attrs(&vec![], source, AT), Ok(vec![]));
        assert_eq!(extract_attrs(&vec![doc("///")], source, AT), Ok(vec![]));
        assert_eq!(extract_attrs(&vec![doc("///   ")], source, AT), Ok(vec![]));
        assert_eq!(extract_attrs(&vec![doc("/** */")], source, AT), Ok(vec![]));
        assert_eq!(
            extract_attrs(&vec![doc("///"), doc("/// \t"), doc("//!")], source, AT),
            Ok(vec![])
        );
        assert_eq!(
            extract_attrs(&vec![doc("///"), settings(vec![text("short", "x")])], source, AT),
            Ok(vec![entry("short", "x")])
        );
    }
}

#[test]
fn documentation_lines_are_joined_by_single_spaces_and_trimmed() {
    let of = |lines: &[&str]| {
        let attrs: Vec<RawAttribute> = lines.iter().map(|line| doc(line)).collect();
        extract_attrs(&attrs, AttrSource::ItemLevel, AT)
    };
    assert_eq!(of(&["/// a", "/// b"]), Ok(vec![entry("about", "a b")]));
    assert_eq!(of(&["/// a", "///", "/// b"]), Ok(vec![entry("about", "a  b")]));
    assert_eq!(of(&["///", "/// a", "///"]), Ok(vec![entry("about", "a")]));
    assert_eq!(of(&["/** Block */"]), Ok(vec![entry("about", "Block")]));
    assert_eq!(of(&["/// one */", "/// two"]), Ok(vec![entry("about", "one two")]));
}

#[test]
fn only_documentation_comments_are_documentation() {
    let written_out = RawAttribute {
        name: s("doc"),
        sugared_doc: false,
        value: AttrValue::NameValue(Literal::Str(s("not a comment"))),
    };
    let hidden = RawAttribute {
        name: s("doc"),
        sugared_doc: true,
        value: AttrValue::List(vec![Directive::Word(s("hidden"))]),
    };
    let other = RawAttribute {
        name: s("other"),
        sugared_doc: false,
        value: AttrValue::List(vec![text("short", "x"), Directive::Bare(Literal::Int(1))]),
    };
    assert_eq!(
        extract_attrs(&vec![written_out, hidden, other], AttrSource::MemberLevel, AT),
        Ok(vec![])
    );
}

#[test]
fn settings_that_cannot_be_read() {
    let no_list = RawAttribute { name: s("clap"), sugared_doc: false, value: AttrValue::Word };
    let assigned = RawAttribute {
        name: s("clap"),
        sugared_doc: false,
        value: AttrValue::NameValue(Literal::Str(s("x"))),
    };
    let bare = settings(vec![text("short", "x"), Directive::Bare(Literal::Bool(true))]);
    for broken in [no_list, assigned, bare] {
        assert_eq!(
            extract_attrs(&vec![doc("/// fine"), broken], AttrSource::MemberLevel, AT),
            Err(CompileError::AttributeParse(AT))
        );
    }
}

#[test]
fn explicit_description_overrides_documentation() {
    let attrs = vec![
        settings(vec![text("about", "explicit"), text("help", "explicit help")]),
        doc("/// from the comment"),
    ];
    let item = extract_attrs(&attrs, AttrSource::ItemLevel, AT).unwrap();
    assert_eq!(lookup(&item, "about"), Some(&Literal::Str(s("explicit"))));
    let member = extract_attrs(&attrs, AttrSource::MemberLevel, AT).unwrap();
    assert_eq!(lookup(&member, "help"), Some(&Literal::Str(s("explicit help"))));
    assert_eq!(lookup(&member, "about"), Some(&Literal::Str(s("explicit"))));

    let only_doc = extract_attrs(&vec![doc("/// from the comment")], AttrSource::ItemLevel, AT);
    assert_eq!(lookup(&only_doc.unwrap(), "about"), Some(&Literal::Str(s("from the comment"))));
}

#[test]
fn last_entry_of_a_key_wins() {
    let entries = vec![entry("short", "a"), entry("long", "x"), entry("short", "b")];
    assert_eq!(lookup(&entries, "short"), Some(&Literal::Str(s("b"))));
    assert_eq!(lookup(&entries, "long"), Some(&Literal::Str(s("x"))));
    assert_eq!(lookup(&entries, "help"), None);
    assert_eq!(lookup(&vec![], "short"), None);
}

#[test]
fn attribute_then_environment_then_empty() {
    let env = Environment {
        vars: vec![
            EnvVar { name: s("CARGO_PKG_NAME"), value: s("from-env") },
            EnvVar { name: s("CARGO_PKG_NAME"), value: s("shadowed") },
        ],
    };
    let entries = vec![entry("name", "first"), entry("name", "explicit")];
    assert_eq!(
        from_attr_or_env(&entries, "name", "CARGO_PKG_NAME", &env),
        Literal::Str(s("explicit"))
    );
    assert_eq!(
        from_attr_or_env(&vec![], "name", "CARGO_PKG_NAME", &env),
        Literal::Str(s("from-env"))
    );
    assert_eq!(
        from_attr_or_env(&vec![], "version", "CARGO_PKG_VERSION", &env),
        Literal::Str(s(""))
    );
    let number = vec![AttributeEntry { key: s("version"), value: Literal::Int(2) }];
    assert_eq!(from_attr_or_env(&number, "version", "CARGO_PKG_VERSION", &env), Literal::Int(2));
    assert_eq!(env_lookup(&env, "CARGO_PKG_NAME"), Some(&s("from-env")));
    assert_eq!(env_lookup(&env, "HOME"), None);
}

#[test]
fn kind_of_a_type_is_read_from_its_last_segment() {
    assert_eq!(ty(&path("bool", &[])), Ty::Bool);
    assert_eq!(ty(&path("u64", &[])), Ty::U64);
    assert_eq!(ty(&path("Option", &["String"])), Ty::Option);
    assert_eq!(ty(&path("Vec", &["u8"])), Ty::Vec);
    assert_eq!(ty(&path("String", &[])), Ty::Other);
    assert_eq!(ty(&path("u32", &[])), Ty::Other);
    let segment = |ident: &str, args: &[&str]| PathSegment {
        ident: s(ident),
        args: args.iter().map(|a| s(a)).collect(),
    };
    let long = TypeShape::Path {
        text: s("std :: option :: Option < u8 >"),
        qualified: false,
        segments: vec![segment("std", &[]), segment("option", &[]), segment("Option", &["u8"])],
    };
    assert_eq!(ty(&long), Ty::Option);
    assert_eq!(sub_type(&long), Some(&s("u8")));
    let inner_only = TypeShape::Path {
        text: s("Vec < u8 > :: Item"),
        qualified: false,
        segments: vec![segment("Vec", &["u8"]), segment("Item", &[])],
    };
    assert_eq!(ty(&inner_only), Ty::Other);
    assert_eq!(sub_type(&inner_only), None);
    let qualified = TypeShape::Path {
        text: s("< T as Trait > :: bool"),
        qualified: true,
        segments: vec![segment("Trait", &[]), segment("bool", &["X"])],
    };
    assert_eq!(ty(&qualified), Ty::Other);
    assert_eq!(sub_type(&qualified), None);
    assert_eq!(
        classify(&qualified, false, AT),
        Ok(Classified { cardinality: Cardinality::Required, base: s("< T as Trait > :: bool") })
    );
    let no_segments = TypeShape::Path { text: s(""), qualified: false, segments: vec![] };
    assert_eq!(ty(&no_segments), Ty::Other);
    assert_eq!(sub_type(&no_segments), None);
    assert_eq!(ty(&TypeShape::Other { text: s("& bool") }), Ty::Other);
}

#[test]
fn first_type_parameter() {
    assert_eq!(sub_type(&path("Option", &["String"])), Some(&s("String")));
    assert_eq!(sub_type(&path("HashMap", &["K", "V"])), Some(&s("K")));
    assert_eq!(sub_type(&path("bool", &[])), None);
    assert_eq!(sub_type(&TypeShape::Other { text: s("( A , B )") }), None);
    assert_eq!(type_text(&path("Option", &["String"])), "Option < String >");
}

#[test]
fn classification_by_shape() {
    let of = |cardinality, base: &str| Ok(Classified { cardinality, base: s(base) });
    assert_eq!(classify(&path("bool", &[]), false, AT), of(Cardinality::Flag, "bool"));
    assert_eq!(classify(&path("u64", &[]), false, AT), of(Cardinality::Counter, "u64"));
    assert_eq!(classify(&path("bool", &[]), true, AT), of(Cardinality::Required, "bool"));
    assert_eq!(classify(&path("u64", &[]), true, AT), of(Cardinality::Required, "u64"));
    assert_eq!(classify(&path("Option", &["u8"]), false, AT), of(Cardinality::Optional, "u8"));
    assert_eq!(classify(&path("Option", &["bool"]), true, AT), of(Cardinality::Optional, "bool"));
    assert_eq!(classify(&path("Vec", &["String"]), false, AT), of(Cardinality::List, "String"));
    assert_eq!(classify(&path("Vec", &["String"]), true, AT), of(Cardinality::List, "String"));
    assert_eq!(classify(&path("f64", &[]), false, AT), of(Cardinality::Required, "f64"));
    assert_eq!(
        classify(&path("Result", &["A", "B"]), false, AT),
        of(Cardinality::Required, "Result < A , B >")
    );
    assert_eq!(
        classify(&TypeShape::Other { text: s("( u8 , u8 )") }, false, AT),
        of(Cardinality::Required, "( u8 , u8 )")
    );
}

#[test]
fn wrappers_need_exactly_one_parameter() {
    for name in ["Option", "Vec"] {
        for args in [&[][..], &["A", "B"][..]] {
            for custom in [false, true] {
                assert_eq!(
                    classify(&path(name, args), custom, AT),
                    Err(CompileError::UnsupportedType(AT))
                );
            }
        }
    }
}

#[test]
fn parser_kinds_by_name() {
    assert_eq!(read_parser_kind("from_str"), Some(Parser::FromStr));
    assert_eq!(read_parser_kind("try_from_str"), Some(Parser::TryFromStr));
    assert_eq!(read_parser_kind("from_os_str"), Some(Parser::FromOsStr));
    assert_eq!(read_parser_kind("try_from_os_str"), Some(Parser::TryFromOsStr));
    assert_eq!(read_parser_kind("from_string"), None);
    assert!(parser_is_try(Parser::TryFromStr) && parser_is_try(Parser::TryFromOsStr));
    assert!(!parser_is_try(Parser::FromStr) && !parser_is_try(Parser::FromOsStr));
}

#[test]
fn conversion_without_a_directive() {
    let standard = Ok(ParserSpec::Convert {
        kind: Parser::TryFromStr,
        function: s("::std::str::FromStr::from_str"),
    });
    assert_eq!(resolve_parser(&vec![], Cardinality::Flag, AT), Ok(ParserSpec::Absent));
    assert_eq!(resolve_parser(&vec![], Cardinality::Counter, AT), Ok(ParserSpec::Absent));
    assert_eq!(resolve_parser(&vec![], Cardinality::Optional, AT), standard);
    assert_eq!(resolve_parser(&vec![], Cardinality::List, AT), standard);
    assert_eq!(resolve_parser(&vec![], Cardinality::Required, AT), standard);
    assert!(!has_custom_parser(&vec![settings(vec![text("short", "x")])]));
}

#[test]
fn conversion_with_a_directive() {
    let with = |kind: &str| parse(vec![CallArg::Assign(s(kind), Literal::Str(s("my::parse")))]);
    let of = |kind| Ok(ParserSpec::Convert { kind, function: s("my::parse") });
    let c = Cardinality::Required;
    assert_eq!(resolve_parser(&with("from_str"), c, AT), of(Parser::FromStr));
    assert_eq!(resolve_parser(&with("try_from_str"), c, AT), of(Parser::TryFromStr));
    assert_eq!(resolve_parser(&with("from_os_str"), c, AT), of(Parser::FromOsStr));
    assert_eq!(resolve_parser(&with("try_from_os_str"), c, AT), of(Parser::TryFromOsStr));
    assert!(has_custom_parser(&with("from_str")));

    let alone = |kind: &str| parse(vec![CallArg::Word(s(kind))]);
    assert_eq!(
        resolve_parser(&alone("from_str"), c, AT),
        Ok(ParserSpec::Convert { kind: Parser::FromStr, function: s("::std::convert::From::from") })
    );
    assert_eq!(
        resolve_parser(&alone("try_from_str"), c, AT),
        Ok(ParserSpec::Convert {
            kind: Parser::TryFromStr,
            function: s("::std::str::FromStr::from_str"),
        })
    );
    assert_eq!(
        resolve_parser(&alone("from_os_str"), c, AT),
        Err(CompileError::MissingParserFunction(AT))
    );
    assert_eq!(
        resolve_parser(&alone("try_from_os_str"), c, AT),
        Err(CompileError::MissingParserFunction(AT))
    );
}

#[test]
fn directive_that_names_no_kind() {
    let c = Cardinality::Required;
    let fault = Err(CompileError::AttributeParse(AT));
    assert_eq!(resolve_parser(&parse(vec![]), c, AT), fault);
    assert_eq!(resolve_parser(&parse(vec![CallArg::Other]), c, AT), fault);
    assert_eq!(resolve_parser(&parse(vec![CallArg::Word(s("from_hex"))]), c, AT), fault);
    assert_eq!(
        resolve_parser(&parse(vec![CallArg::Assign(s("from_hex"), Literal::Str(s("f")))]), c, AT),
        fault
    );
    assert_eq!(
        resolve_parser(&parse(vec![CallArg::Assign(s("from_str"), Literal::Int(1))]), c, AT),
        fault
    );
}

#[test]
fn first_directive_and_its_first_argument_decide() {
    let attrs = vec![
        settings(vec![text("short", "n"), Directive::Call(s("other"), vec![])]),
        RawAttribute {
            name: s("elsewhere"),
            sugared_doc: false,
            value: AttrValue::List(vec![Directive::Call(
                s("parse"),
                vec![CallArg::Word(s("from_os_str"))],
            )]),
        },
        settings(vec![Directive::Call(
            s("parse"),
            vec![CallArg::Word(s("from_str")), CallArg::Word(s("try_from_os_str"))],
        )]),
        settings(vec![Directive::Call(s("parse"), vec![CallArg::Word(s("try_from_str"))])]),
    ];
    assert_eq!(
        find_call(&attrs, "parse"),
        Some(&vec![CallArg::Word(s("from_str")), CallArg::Word(s("try_from_os_str"))])
    );
    assert_eq!(find_call(&attrs, "other"), Some(&vec![]));
    assert_eq!(find_call(&attrs, "missing"), None);
    assert_eq!(
        resolve_parser(&attrs, Cardinality::Flag, AT),
        Ok(ParserSpec::Convert { kind: Parser::FromStr, function: s("::std::convert::From::from") })
    );
}

#[test]
fn marker_words() {
    let attrs = vec![
        settings(vec![text("subcommand", "no")]),
        RawAttribute {
            name: s("other"),
            sugared_doc: false,
            value: AttrValue::List(vec![Directive::Word(s("flatten"))]),
        },
        settings(vec![text("short", "x"), Directive::Word(s("subcommand"))]),
    ];
    assert!(has_word(&attrs, "subcommand"));
    assert!(!has_word(&attrs, "flatten"));
    assert!(!has_word(&vec![], "subcommand"));
}

#[test]
fn setter_of_an_entry() {
    assert_eq!(
        emit_setter(&entry("long", "debug")),
        Invocation::Setter(s("long"), Literal::Str(s("debug")))
    );
    assert_eq!(
        emit_setter(&entry("aliases_raw", "&[\"alias\"]")),
        Invocation::RawSetter(s("aliases"), s("&[\"alias\"]"))
    );
    assert_eq!(emit_setter(&entry("_raw", "x")), Invocation::RawSetter(s(""), s("x")));
    assert_eq!(
        emit_setter(&entry("raw", "x")),
        Invocation::Setter(s("raw"), Literal::Str(s("x")))
    );
    assert_eq!(
        emit_setter(&entry("draw", "x")),
        Invocation::Setter(s("draw"), Literal::Str(s("x")))
    );
    assert_eq!(
        emit_setter(&AttributeEntry { key: s("index_raw"), value: Literal::Int(1) }),
        Invocation::Setter(s("index_raw"), Literal::Int(1))
    );
}

#[test]
fn reserved_keys_are_no_setters() {
    let entries = vec![
        entry("name", "x"),
        entry("version", "1"),
        entry("author", "me"),
        entry("about", "it"),
        entry("long", "x"),
    ];
    let call = |k: &str, v: &str| Invocation::Setter(s(k), Literal::Str(s(v)));
    assert_eq!(emit_setters(&entries, true), vec![call("long", "x")]);
    assert_eq!(
        emit_setters(&entries, false),
        vec![call("version", "1"), call("author", "me"), call("about", "it"), call("long", "x")]
    );
}

#[test]
fn resolution_of_one_argument() {
    let field = Field {
        ident: s("supervising_faerie"),
        ty: path("String", &[]),
        attrs: vec![
            settings(vec![
                text("name", "supervisor"),
                text("default_value", "Puck"),
                Directive::Assign(s("required"), Literal::Bool(false)),
            ]),
            doc("/// Who supervises."),
        ],
        target: None,
    };
    let arg = resolve_arg(&field, AT).unwrap();
    assert_eq!(
        arg,
        ArgSpec {
            name: s("supervisor"),
            cardinality: Cardinality::Required,
            base: s("String"),
            parser: ParserSpec::Convert {
                kind: Parser::TryFromStr,
                function: s("::std::str::FromStr::from_str"),
            },
            entries: vec![
                entry("help", "Who supervises."),
                entry("name", "supervisor"),
                entry("default_value", "Puck"),
                AttributeEntry { key: s("required"), value: Literal::Bool(false) },
            ],
        }
    );
    assert_eq!(
        emit_arg(&arg),
        vec![
            Invocation::Arg(s("supervisor")),
            Invocation::TakesValue(true),
            Invocation::Multiple(false),
            Invocation::Required(false),
            Invocation::Validator(
                Parser::TryFromStr,
                s("::std::str::FromStr::from_str"),
                s("String")
            ),
            Invocation::Setter(s("help"), Literal::Str(s("Who supervises."))),
            Invocation::Setter(s("default_value"), Literal::Str(s("Puck"))),
            Invocation::Setter(s("required"), Literal::Bool(false)),
            Invocation::EndArg,
        ]
    );
}

#[test]
fn name_that_is_no_string_leaves_the_identifier() {
    let entries = vec![AttributeEntry { key: s("name"), value: Literal::Int(7) }];
    assert_eq!(name_of(&entries, &s("field")), "field");
    assert_eq!(name_of(&vec![entry("name", "a"), entry("name", "b")], &s("field")), "b");
    assert_eq!(name_of(&vec![], &s("field")), "field");
}

#[test]
fn faults_of_an_argument_in_their_order() {
    let broken = RawAttribute { name: s("clap"), sugared_doc: false, value: AttrValue::Word };
    let bad_parse = settings(vec![Directive::Call(s("parse"), vec![])]);
    let field = |ty: TypeShape, attrs: Vec<RawAttribute>| Field {
        ident: s("x"),
        ty,
        attrs,
        target: None,
    };
    assert_eq!(
        resolve_arg(&field(path("Vec", &[]), vec![bad_parse.clone(), broken]), AT),
        Err(CompileError::AttributeParse(AT))
    );
    assert_eq!(
        resolve_arg(&field(path("Vec", &[]), vec![bad_parse.clone()]), AT),
        Err(CompileError::UnsupportedType(AT))
    );
    assert_eq!(
        resolve_arg(&field(path("Vec", &["u8"]), vec![bad_parse]), AT),
        Err(CompileError::AttributeParse(AT))
    );
}

#[test]
fn merging_keeps_names_apart() {
    let arg = |name: &str| ArgSpec {
        name: s(name),
        cardinality: Cardinality::Flag,
        base: s("bool"),
        parser: ParserSpec::Absent,
        entries: vec![],
    };
    let merged = merge_arg(vec![arg("a"), arg("b")], arg("c"), AT);
    assert_eq!(merged, Ok(vec![arg("a"), arg("b"), arg("c")]));
    assert_eq!(
        merge_arg(vec![arg("a"), arg("b")], arg("a"), AT),
        Err(CompileError::DuplicateArgument(AT))
    );
    assert_eq!(merge_arg(vec![], arg("a"), AT), Ok(vec![arg("a")]));
}

#[test]
fn arguments_and_carriers_of_a_member_list() {
    let plain = |ident: &str| Field {
        ident: s(ident),
        ty: path("bool", &[]),
        attrs: vec![],
        target: None,
    };
    let carrier = |ident: &str| Field {
        ident: s(ident),
        ty: path("Command", &[]),
        attrs: vec![settings(vec![Directive::Word(s("subcommand"))])],
        target: Some(1),
    };
    let fields = vec![plain("a"), carrier("c"), plain("b"), carrier("d")];
    assert_eq!(find_carriers(&fields), vec![1, 3]);
    assert_eq!(find_carriers(&vec![]), Vec::<usize>::new());
    let args = own_arguments(&fields, Scope::Bag(0)).unwrap();
    assert_eq!(args.iter().map(|a| a.name.clone()).collect::<Vec<_>>(), vec![s("a"), s("b")]);

    let mut faulty = plain("e");
    faulty.ty = path("Option", &[]);
    let fields = vec![plain("a"), carrier("c"), faulty];
    assert_eq!(
        own_arguments(&fields, Scope::Variant(5, 6)),
        Err(CompileError::UnsupportedType(Place::Field(5, 6, 2)))
    );
    assert_eq!(place_of(Scope::Bag(2)), Place::Item(2));
    assert_eq!(place_of(Scope::Variant(2, 3)), Place::Member(2, 3));
    assert_eq!(place_of_field(Scope::Bag(2), 9), Place::Member(2, 9));
    assert_eq!(place_of_field(Scope::Variant(2, 3), 9), Place::Field(2, 3, 9));
}
