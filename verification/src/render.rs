//! The generated code: the builder invocations written out as the tokens of
//! one builder expression.

use crate::attrs::{EnvVarView, Environment};
use crate::builder::{compile, compiled, GeneratedSpec};
use crate::emit::{Invocation, InvocationView};
use crate::error::CompileError;
use crate::model::{views, Body, Literal, LiteralView, Schema, SchemaView};
use crate::parser::Parser;
use vstd::prelude::*;

verus! {

/// `quote::Tokens`: a list of tokens, kept as their text. Nothing of its
/// inside is known here; `tokens_text` names the text.
#[verifier::external_type_specification]
#[verifier::external_body]
pub struct ExTokens(quote::Tokens);

/// The text that a token list holds.
pub uninterp spec fn tokens_text(tokens: quote::Tokens) -> Seq<char>;

/// The hexadecimal digit of a number below sixteen, in lower case.
pub open spec fn hex_digit(d: nat) -> char {
    if d < 10 {
        digit(d)
    } else if d == 10 {
        'a'
    } else if d == 11 {
        'b'
    } else if d == 12 {
        'c'
    } else if d == 13 {
        'd'
    } else if d == 14 {
        'e'
    } else {
        'f'
    }
}

/// A number in hexadecimal digits, without leading zeros.
pub open spec fn hexadecimal(n: nat) -> Seq<char>
    decreases n,
{
    if n < 16 {
        seq![hex_digit(n)]
    } else {
        hexadecimal(n / 16).push(hex_digit(n % 16))
    }
}

/// A character as it stands inside a string literal of the generated code:
/// the null character, the tab, the line breaks, the double quote and the
/// backslash by their escapes, the single quote and every other printable
/// ASCII character as they are, and any other character by its code.
pub open spec fn escaped_char(c: char) -> Seq<char> {
    if c == '\0' {
        seq!['\\', '0']
    } else if c == '\'' {
        seq!['\'']
    } else if c == '\t' {
        seq!['\\', 't']
    } else if c == '\r' {
        seq!['\\', 'r']
    } else if c == '\n' {
        seq!['\\', 'n']
    } else if c == '"' {
        seq!['\\', '"']
    } else if c == '\\' {
        seq!['\\', '\\']
    } else if 0x20 <= c as u32 <= 0x7e {
        seq![c]
    } else {
        seq!['\\', 'u', '{'] + hexadecimal(c as nat) + seq!['}']
    }
}

/// The characters of a string, each as it stands inside a string literal.
pub open spec fn escaped(value: Seq<char>) -> Seq<char>
    decreases value.len(),
{
    if value.len() == 0 {
        Seq::empty()
    } else {
        escaped(value.drop_last()) + escaped_char(value.last())
    }
}

/// The token of a string: the string as a literal of the generated code,
/// escaped and between double quotes.
pub open spec fn str_token(value: Seq<char>) -> Seq<char> {
    seq!['"'] + escaped(value) + seq!['"']
}

/// The token that `quote` writes for a character: the character as a
/// literal of the generated code.
pub uninterp spec fn char_token(value: char) -> Seq<char>;

/// The decimal digit of a number below ten.
pub open spec fn digit(d: nat) -> char {
    if d == 0 {
        '0'
    } else if d == 1 {
        '1'
    } else if d == 2 {
        '2'
    } else if d == 3 {
        '3'
    } else if d == 4 {
        '4'
    } else if d == 5 {
        '5'
    } else if d == 6 {
        '6'
    } else if d == 7 {
        '7'
    } else if d == 8 {
        '8'
    } else {
        '9'
    }
}

/// A number in decimal digits, without leading zeros.
pub open spec fn decimal(n: nat) -> Seq<char>
    decreases n,
{
    if n < 10 {
        seq![digit(n)]
    } else {
        decimal(n / 10).push(digit(n % 10))
    }
}

/// The token of an unsigned 64-bit integer: its decimal digits, and its type
/// as the suffix.
pub open spec fn u64_token(value: u64) -> Seq<char> {
    decimal(value as nat) + "u64"@
}

/// A text with one more token: a single space parts the token from what
/// stands before it; an empty token changes nothing.
pub open spec fn appended(text: Seq<char>, token: Seq<char>) -> Seq<char> {
    if text.len() > 0 && token.len() > 0 {
        text + seq![' '] + token
    } else {
        text + token
    }
}

/// The text of a list of tokens.
pub open spec fn spelled(tokens: Seq<Seq<char>>) -> Seq<char>
    decreases tokens.len(),
{
    if tokens.len() == 0 {
        Seq::empty()
    } else {
        appended(spelled(tokens.drop_last()), tokens.last())
    }
}

/// The token of a literal.
pub open spec fn literal_token(l: LiteralView) -> Seq<char> {
    match l {
        LiteralView::Str(s) => str_token(s),
        LiteralView::Char(c) => char_token(c),
        LiteralView::Int(n) => u64_token(n),
        LiteralView::Bool(b) => bool_token(b),
        LiteralView::Verbatim(t) => t,
    }
}

/// The token of a truth value.
pub open spec fn bool_token(b: bool) -> Seq<char> {
    if b {
        "true"@
    } else {
        "false"@
    }
}

/// The tokens of a method call with one argument: `. method ( argument )`.
pub open spec fn call_tokens(method: Seq<char>, argument: Seq<char>) -> Seq<Seq<char>> {
    seq!["."@, method, "("@, argument, ")"@]
}

/// The tokens of a validator: the function is tried on the value, what it
/// yields is dropped, and for a conversion from text its failure is turned
/// into text.
pub open spec fn validator_tokens(kind: Parser, function: Seq<char>, ty: Seq<char>) -> Seq<
    Seq<char>,
> {
    match kind {
        Parser::TryFromStr => seq![
            "."@,
            "validator"@,
            "("@,
            "| s |"@,
            function,
            "( & s )"@,
            ". map ( | _ :"@,
            ty,
            "| ( ) )"@,
            ". map_err ( | e | e . to_string ( ) )"@,
            ")"@,
        ],
        Parser::TryFromOsStr => seq![
            "."@,
            "validator_os"@,
            "("@,
            "| s |"@,
            function,
            "( & s )"@,
            ". map ( | _ :"@,
            ty,
            "| ( ) )"@,
            ")"@,
        ],
        _ => Seq::empty(),
    }
}

/// The tokens of one invocation. An opening leaves its call open, and the
/// closing that belongs to it brings the bracket.
pub open spec fn invocation_tokens(i: InvocationView) -> Seq<Seq<char>> {
    match i {
        InvocationView::App(name) => seq![
            "::clap::App::new"@,
            "("@,
            literal_token(name),
            ")"@,
        ],
        InvocationView::Setter(method, value) => call_tokens(method, literal_token(value)),
        InvocationView::RawSetter(method, code) => call_tokens(method, code),
        InvocationView::Arg(name) => seq![
            "."@,
            "arg"@,
            "("@,
            "::clap::Arg::with_name"@,
            "("@,
            str_token(name),
            ")"@,
        ],
        InvocationView::TakesValue(b) => call_tokens("takes_value"@, bool_token(b)),
        InvocationView::Multiple(b) => call_tokens("multiple"@, bool_token(b)),
        InvocationView::Required(b) => call_tokens("required"@, bool_token(b)),
        InvocationView::Validator(kind, function, ty) => validator_tokens(kind, function, ty),
        InvocationView::EndArg => seq![")"@],
        InvocationView::SubcommandGroup(required, _) => if required {
            call_tokens("setting"@, "::clap::AppSettings::SubcommandRequiredElseHelp"@)
        } else {
            Seq::empty()
        },
        InvocationView::Subcommand(name) => seq![
            "."@,
            "subcommand"@,
            "("@,
            "::clap::SubCommand::with_name"@,
            "("@,
            str_token(name),
            ")"@,
        ],
        InvocationView::EndSubcommand => seq![")"@],
    }
}

/// The tokens of the invocations, in order.
pub open spec fn tokens_of(invocations: Seq<InvocationView>) -> Seq<Seq<char>>
    decreases invocations.len(),
{
    if invocations.len() == 0 {
        Seq::empty()
    } else {
        tokens_of(invocations.drop_last()) + invocation_tokens(invocations.last())
    }
}

/// The generated code of a list of invocations.
pub open spec fn rendered(invocations: Seq<InvocationView>) -> Seq<char> {
    spelled(tokens_of(invocations))
}

/// The number of subcommand groups that the invocations open.
pub open spec fn groups_in(invocations: Seq<InvocationView>) -> nat
    decreases invocations.len(),
{
    if invocations.len() == 0 {
        0
    } else if invocations.last() is SubcommandGroup {
        groups_in(invocations.drop_last()) + 1
    } else {
        groups_in(invocations.drop_last())
    }
}

/// The tokens that hand the builder over to the type that hosts a subcommand
/// group: `. host :: < type > ( )`.
pub open spec fn host_tokens(ty: Seq<char>) -> Seq<Seq<char>> {
    seq!["."@, "host"@, "::"@, "<"@, ty, ">"@, "("@, ")"@]
}

/// The tokens of the invocations of one declaration, in order. The first
/// `own_groups` subcommand groups are filled by the declaration itself; after
/// the opening of every later group the builder is handed over to the type
/// of the group.
pub open spec fn hosted_tokens(invocations: Seq<InvocationView>, own_groups: nat) -> Seq<Seq<char>>
    decreases invocations.len(),
{
    if invocations.len() == 0 {
        Seq::empty()
    } else {
        hosted_tokens(invocations.drop_last(), own_groups) + invocation_tokens(invocations.last())
            + match invocations.last() {
            InvocationView::SubcommandGroup(_, ty) => if groups_in(invocations) > own_groups {
                host_tokens(ty)
            } else {
                Seq::empty()
            },
            _ => Seq::empty(),
        }
    }
}

/// The generated code of the invocations of one declaration.
pub open spec fn rendered_hosted(invocations: Seq<InvocationView>, own_groups: nat) -> Seq<char> {
    spelled(hosted_tokens(invocations, own_groups))
}

/// `quote::Tokens::new`: a token list that holds no text.
#[verifier::external_body]
fn new_tokens() -> (r: quote::Tokens)
    ensures
        tokens_text(r) == Seq::<char>::empty(),
{
    quote::Tokens::new()
}

/// `quote::Tokens::append`: the token is added at the end of the text, after
/// a single space where the text and the token are both not empty.
#[verifier::external_body]
fn push_token(tokens: &mut quote::Tokens, token: &str)
    ensures
        tokens_text(*final(tokens)) == appended(tokens_text(*old(tokens)), token@),
{
    tokens.append(token)
}

/// `quote::ToTokens::to_tokens` of a string: one token is added, the string
/// between double quotes, with the null character written as `\0`, the
/// single quote as it is, and every other character as `char::escape_default`
/// writes it.
#[verifier::external_body]
fn push_str_literal(tokens: &mut quote::Tokens, value: &str)
    ensures
        tokens_text(*final(tokens)) == appended(tokens_text(*old(tokens)), str_token(value@)),
{
    quote::ToTokens::to_tokens(value, tokens)
}

/// `quote::ToTokens::to_tokens` of a character: one token is added, the
/// character as a literal; which characters it holds is left to
/// `char_token`.
#[verifier::external_body]
fn push_char_literal(tokens: &mut quote::Tokens, value: char)
    ensures
        tokens_text(*final(tokens)) == appended(tokens_text(*old(tokens)), char_token(value)),
{
    quote::ToTokens::to_tokens(&value, tokens)
}

/// `quote::ToTokens::to_tokens` of a `u64`: one token is added, the number
/// in decimal digits with the suffix `u64`.
#[verifier::external_body]
fn push_u64_literal(tokens: &mut quote::Tokens, value: u64)
    ensures
        tokens_text(*final(tokens)) == appended(tokens_text(*old(tokens)), u64_token(value)),
{
    quote::ToTokens::to_tokens(&value, tokens)
}

/// `quote::Tokens::into_string`: the text that the token list holds.
#[verifier::external_body]
fn into_text(tokens: quote::Tokens) -> (r: String)
    ensures
        r@ == tokens_text(tokens),
{
    tokens.into_string()
}

/// A token list under construction, with the tokens written to it so far.
struct Writer {
    tokens: quote::Tokens,
    written: Ghost<Seq<Seq<char>>>,
}

impl Writer {
    spec fn wf(&self) -> bool {
        tokens_text(self.tokens) == spelled(self.written@)
    }

    fn new() -> (r: Writer)
        ensures
            r.wf(),
            r.written@ == Seq::<Seq<char>>::empty(),
    {
        Writer { tokens: new_tokens(), written: Ghost(Seq::empty()) }
    }

    fn word(&mut self, token: &str)
        requires
            old(self).wf(),
        ensures
            final(self).wf(),
            final(self).written@ == old(self).written@.push(token@),
    {
        push_token(&mut self.tokens, token);
        proof {
            let before = self.written@;
            assert(before.push(token@).drop_last() =~= before);
            self.written@ = before.push(token@);
        }
    }

    fn literal(&mut self, value: &Literal)
        requires
            old(self).wf(),
        ensures
            final(self).wf(),
            final(self).written@ == old(self).written@.push(literal_token(value@)),
    {
        let ghost before = self.written@;
        proof {
            assert(before.push(literal_token(value@)).drop_last() =~= before);
        }
        match value {
            Literal::Str(s) => push_str_literal(&mut self.tokens, s.as_str()),
            Literal::Char(c) => push_char_literal(&mut self.tokens, *c),
            Literal::Int(n) => push_u64_literal(&mut self.tokens, *n),
            Literal::Bool(b) => push_token(
                &mut self.tokens,
                if *b {
                    "true"
                } else {
                    "false"
                },
            ),
            Literal::Verbatim(t) => push_token(&mut self.tokens, t.as_str()),
        }
        proof {
            self.written@ = before.push(literal_token(value@));
        }
    }

    fn name(&mut self, value: &str)
        requires
            old(self).wf(),
        ensures
            final(self).wf(),
            final(self).written@ == old(self).written@.push(str_token(value@)),
    {
        let ghost before = self.written@;
        proof {
            assert(before.push(str_token(value@)).drop_last() =~= before);
        }
        push_str_literal(&mut self.tokens, value);
        proof {
            self.written@ = before.push(str_token(value@));
        }
    }

    fn truth(&mut self, b: bool)
        requires
            old(self).wf(),
        ensures
            final(self).wf(),
            final(self).written@ == old(self).written@.push(bool_token(b)),
    {
        if b {
            self.word("true");
        } else {
            self.word("false");
        }
    }

    fn call(&mut self, method: &str, argument: &str)
        requires
            old(self).wf(),
        ensures
            final(self).wf(),
            final(self).written@ == old(self).written@ + call_tokens(method@, argument@),
    {
        let ghost before = self.written@;
        self.word(".");
        self.word(method);
        self.word("(");
        self.word(argument);
        self.word(")");
        assert(self.written@ =~= before + call_tokens(method@, argument@));
    }

    fn flag(&mut self, method: &str, b: bool)
        requires
            old(self).wf(),
        ensures
            final(self).wf(),
            final(self).written@ == old(self).written@ + call_tokens(method@, bool_token(b)),
    {
        if b {
            self.call(method, "true");
        } else {
            self.call(method, "false");
        }
    }

    fn setter(&mut self, method: &str, value: &Literal)
        requires
            old(self).wf(),
        ensures
            final(self).wf(),
            final(self).written@ == old(self).written@ + call_tokens(
                method@,
                literal_token(value@),
            ),
    {
        let ghost before = self.written@;
        self.word(".");
        self.word(method);
        self.word("(");
        self.literal(value);
        self.word(")");
        assert(self.written@ =~= before + call_tokens(method@, literal_token(value@)));
    }

    fn open(&mut self, method: &str, constructor: &str, name: &str)
        requires
            old(self).wf(),
        ensures
            final(self).wf(),
            final(self).written@ == old(self).written@ + seq![
                "."@,
                method@,
                "("@,
                constructor@,
                "("@,
                str_token(name@),
                ")"@,
            ],
    {
        let ghost before = self.written@;
        self.word(".");
        self.word(method);
        self.word("(");
        self.word(constructor);
        self.word("(");
        self.name(name);
        self.word(")");
        assert(self.written@ =~= before + seq![
            "."@,
            method@,
            "("@,
            constructor@,
            "("@,
            str_token(name@),
            ")"@,
        ]);
    }

    fn validator(&mut self, kind: Parser, function: &str, ty: &str)
        requires
            old(self).wf(),
        ensures
            final(self).wf(),
            final(self).written@ == old(self).written@ + validator_tokens(kind, function@, ty@),
    {
        let ghost before = self.written@;
        match kind {
            Parser::TryFromStr => {
                self.word(".");
                self.word("validator");
                self.word("(");
                self.word("| s |");
                self.word(function);
                self.word("( & s )");
                self.word(". map ( | _ :");
                self.word(ty);
                self.word("| ( ) )");
                self.word(". map_err ( | e | e . to_string ( ) )");
                self.word(")");
            },
            Parser::TryFromOsStr => {
                self.word(".");
                self.word("validator_os");
                self.word("(");
                self.word("| s |");
                self.word(function);
                self.word("( & s )");
                self.word(". map ( | _ :");
                self.word(ty);
                self.word("| ( ) )");
                self.word(")");
            },
            _ => {},
        }
        assert(self.written@ =~= before + validator_tokens(kind, function@, ty@));
    }

    fn host(&mut self, ty: &str)
        requires
            old(self).wf(),
        ensures
            final(self).wf(),
            final(self).written@ == old(self).written@ + host_tokens(ty@),
    {
        let ghost before = self.written@;
        self.word(".");
        self.word("host");
        self.word("::");
        self.word("<");
        self.word(ty);
        self.word(">");
        self.word("(");
        self.word(")");
        assert(self.written@ =~= before + host_tokens(ty@));
    }

    fn invocation(&mut self, i: &Invocation)
        requires
            old(self).wf(),
        ensures
            final(self).wf(),
            final(self).written@ == old(self).written@ + invocation_tokens(i@),
    {
        let ghost before = self.written@;
        match i {
            Invocation::App(name) => {
                self.word("::clap::App::new");
                self.word("(");
                self.literal(name);
                self.word(")");
            },
            Invocation::Setter(method, value) => {
                self.setter(method.as_str(), value);
            },
            Invocation::RawSetter(method, code) => {
                self.call(method.as_str(), code.as_str());
            },
            Invocation::Arg(name) => {
                self.open("arg", "::clap::Arg::with_name", name.as_str());
            },
            Invocation::TakesValue(b) => {
                self.flag("takes_value", *b);
            },
            Invocation::Multiple(b) => {
                self.flag("multiple", *b);
            },
            Invocation::Required(b) => {
                self.flag("required", *b);
            },
            Invocation::Validator(kind, function, ty) => {
                self.validator(*kind, function.as_str(), ty.as_str());
            },
            Invocation::EndArg => {
                self.word(")");
            },
            Invocation::SubcommandGroup(required, _) => {
                if *required {
                    self.call("setting", "::clap::AppSettings::SubcommandRequiredElseHelp");
                }
            },
            Invocation::Subcommand(name) => {
                self.open("subcommand", "::clap::SubCommand::with_name", name.as_str());
            },
            Invocation::EndSubcommand => {
                self.word(")");
            },
        }
        assert(self.written@ =~= before + invocation_tokens(i@));
    }
}

/// Writes the invocations out as the tokens of one builder expression, each
/// token parted from the next by a single space.
pub fn render(spec: &GeneratedSpec) -> (r: String)
    ensures
        r@ == rendered(spec@),
{
    let mut writer = Writer::new();
    let ghost iv = views(spec.invocations@);
    let mut k: usize = 0;
    while k < spec.invocations.len()
        invariant
            iv == views(spec.invocations@),
            k <= spec.invocations.len(),
            writer.wf(),
            writer.written@ == tokens_of(iv.take(k as int)),
        decreases spec.invocations.len() - k,
    {
        proof {
            assert(iv.take(k + 1).drop_last() =~= iv.take(k as int));
            assert(iv.take(k + 1).last() == iv[k as int]);
        }
        writer.invocation(&spec.invocations[k]);
        k += 1;
    }
    assert(iv.take(spec.invocations.len() as int) =~= iv);
    into_text(writer.tokens)
}

/// Writes out the invocations of one declaration whose subcommand carriers
/// host command sets that are declared elsewhere. The first `own_groups`
/// subcommand groups are those that the declaration fills itself; after the
/// opening of every later group the code hands the builder over to the type
/// of the group, by a call of `host` with that type.
pub fn render_hosted(spec: &GeneratedSpec, own_groups: usize) -> (r: String)
    ensures
        r@ == rendered_hosted(spec@, own_groups as nat),
{
    let mut writer = Writer::new();
    let ghost iv = views(spec.invocations@);
    let mut groups: usize = 0;
    let mut k: usize = 0;
    while k < spec.invocations.len()
        invariant
            iv == views(spec.invocations@),
            k <= spec.invocations.len(),
            groups == groups_in(iv.take(k as int)),
            groups <= k,
            writer.wf(),
            writer.written@ == hosted_tokens(iv.take(k as int), own_groups as nat),
        decreases spec.invocations.len() - k,
    {
        proof {
            assert(iv.take(k + 1).drop_last() =~= iv.take(k as int));
            assert(iv.take(k + 1).last() == iv[k as int]);
        }
        let ghost before = writer.written@;
        writer.invocation(&spec.invocations[k]);
        match &spec.invocations[k] {
            Invocation::SubcommandGroup(_, ty) => {
                groups += 1;
                if groups > own_groups {
                    writer.host(ty.as_str());
                }
            },
            _ => {},
        }
        assert(writer.written@ =~= hosted_tokens(iv.take(k + 1), own_groups as nat));
        k += 1;
    }
    assert(iv.take(spec.invocations.len() as int) =~= iv);
    into_text(writer.tokens)
}

/// The number of subcommand groups that a declaration fills itself: the one
/// of its variants, where it is a command set.
pub open spec fn own_groups(schema: SchemaView) -> nat {
    if schema.items[schema.root as int].body is Commands {
        1
    } else {
        0
    }
}

/// The generated code of one declaration, or the first fault of its
/// compilation.
pub open spec fn generated_hosted(schema: SchemaView, env: Seq<EnvVarView>) -> Result<
    Seq<char>,
    CompileError,
> {
    match compiled(schema, env) {
        Ok(invocations) => Ok(rendered_hosted(invocations, own_groups(schema))),
        Err(e) => Err(e),
    }
}

/// Compiles the schema of one declaration and writes out the code that
/// builds its parser. The command sets that its subcommand carriers host are
/// declared elsewhere: the code hands the builder over to their types.
pub fn clap_app_hosted(schema: &Schema, env: &Environment) -> (r: Result<String, CompileError>)
    requires
        schema@.wf(),
    ensures
        match r {
            Ok(code) => generated_hosted(schema@, env@) == Ok::<Seq<char>, CompileError>(code@),
            Err(e) => generated_hosted(schema@, env@) == Err::<Seq<char>, CompileError>(e),
        },
{
    assert(schema@.items[schema.root as int] == schema.items@[schema.root as int]@);
    let own: usize = match &schema.items[schema.root].body {
        Body::Commands(_) => 1,
        Body::Options(_) => 0,
    };
    match compile(schema, env) {
        Ok(spec) => Ok(render_hosted(&spec, own)),
        Err(e) => Err(e),
    }
}

/// The generated code of a schema, or the first fault of its compilation.
pub open spec fn generated(schema: SchemaView, env: Seq<EnvVarView>) -> Result<
    Seq<char>,
    CompileError,
> {
    match compiled(schema, env) {
        Ok(invocations) => Ok(rendered(invocations)),
        Err(e) => Err(e),
    }
}

/// Compiles the schema and writes out the code that builds its parser.
pub fn clap_app(schema: &Schema, env: &Environment) -> (r: Result<String, CompileError>)
    requires
        schema@.wf(),
    ensures
        match r {
            Ok(code) => generated(schema@, env@) == Ok::<Seq<char>, CompileError>(code@),
            Err(e) => generated(schema@, env@) == Err::<Seq<char>, CompileError>(e),
        },
{
    match compile(schema, env) {
        Ok(spec) => Ok(render(&spec)),
        Err(e) => Err(e),
    }
}

} // verus!
