//! The macros accept the syntax that they document.

use vstd::prelude::*;

use crate::code::comma;
use crate::code::tokens;
use crate::code::Code;
use crate::fault::Fault;
use crate::init::init_of;
use crate::init::langs_of;
use crate::init::InitArgsModel;
use crate::laws::spelling::asked;
use crate::laws::spelling::asking;
use crate::laws::spelling::first_argument;
use crate::laws::spelling::given;
use crate::laws::spelling::lemma_first_argument;
use crate::laws::spelling::lemma_translated;
use crate::laws::spelling::translated;
use crate::macros::i18n_of;
use crate::macros::t_of;
use crate::macros::ExpansionModel;
use crate::message::after_plural;
use crate::message::content_of;
use crate::message::format_args_of;
use crate::message::literal_first;
use crate::message::message_of;
use crate::message::plural_of;
use crate::message::MessageModel;
use crate::text::unquoted;
use crate::token::after;
use crate::token::after_named;
use crate::token::lemma_run_len_is;
use crate::token::named_value;
use crate::token::punct_is;
use crate::token::run;
use crate::token::starts_named;
use crate::token::trimmed;
use crate::token::Delimiter;
use crate::token::Stop;
use crate::token::Tree;
use crate::token::TreeKind;

verus! {

/// The tokens of an argument `name = value`, and the comma that parts it from the others.
pub struct Argument {
    pub name: Tree,
    pub equals: Tree,
    pub value: Tree,
    pub comma: Tree,
}

impl Argument {
    /// Whether the argument is one for `name`.
    pub open spec fn is_for(self, name: Seq<char>) -> bool {
        &&& self.name.kind == TreeKind::Ident(name)
        &&& punct_is(self.equals, '=')
        &&& punct_is(self.comma, ',')
    }

    /// The tokens `name = value`.
    pub open spec fn body(self) -> Seq<Tree> {
        seq![self.name, self.equals, self.value]
    }
}

/// The value of an argument, if it is given.
pub open spec fn value_of(argument: Option<Argument>) -> Option<Tree> {
    match argument {
        Some(argument) => Some(argument.value),
        None => None,
    }
}

/// The value of an argument as a run of tokens, if it is given.
pub open spec fn values_of(argument: Option<Argument>) -> Option<Seq<Tree>> {
    match argument {
        Some(argument) => Some(seq![argument.value]),
        None => None,
    }
}

/// Tokens, and the punctuation character before them.
pub struct Part {
    pub mark: Tree,
    pub tokens: Seq<Tree>,
}

/// The tokens of a part with its mark, if it is given.
pub open spec fn part(part: Option<Part>) -> Seq<Tree> {
    match part {
        Some(part) => seq![part.mark] + part.tokens,
        None => Seq::empty(),
    }
}

/// The tokens of a part without its mark, if it is given.
pub open spec fn tokens_of(part: Option<Part>) -> Option<Seq<Tree>> {
    match part {
        Some(part) => Some(part.tokens),
        None => None,
    }
}

/// The argument for the context with its comma behind it, if it is given.
pub open spec fn context_part(context: Option<Argument>) -> Seq<Tree> {
    match context {
        Some(argument) => argument.body().push(argument.comma),
        None => Seq::empty(),
    }
}

/// A run ends where its first token to end it is.
pub proof fn lemma_run_is(front: Seq<Tree>, back: Seq<Tree>, stop: Stop)
    requires
        forall|i: int| 0 <= i < front.len() ==> !stop.at(#[trigger] front[i]),
        back.len() > 0 ==> stop.at(back[0]),
    ensures
        run(front + back, stop) == front,
{
    let ts = front + back;
    assert forall|i: int| 0 <= i < front.len() implies !stop.at(#[trigger] ts[i]) by {
        assert(ts[i] == front[i]);
    }
    if back.len() > 0 {
        assert(ts[front.len() as int] == back[0]);
    }
    lemma_run_len_is(ts, stop, front.len() as int);
    assert(run(ts, stop) =~= front);
}

/// The argument `name = value` is read as such, and what is behind the punctuation that follows it
/// is left.
proof fn lemma_named(name: Seq<char>, argument: Argument, back: Seq<Tree>)
    requires
        argument.is_for(name),
        !(argument.value.kind is Punct),
        back.len() > 0 ==> back[0].kind is Punct,
    ensures
        named_value(argument.body() + back, name) == Some(seq![argument.value]),
        after_named(argument.body() + back, name) == after(back, 1),
{
    let ts = argument.body() + back;
    assert(after(ts, 2) =~= seq![argument.value] + back);
    lemma_run_is(seq![argument.value], back, Stop::AnyPunct);
    assert(after_named(ts, name) =~= after(back, 1));
}

/// The context before a message is read as such, and the message and what follows it is left.
proof fn lemma_context(context: Option<Argument>, back: Seq<Tree>)
    requires
        context matches Some(argument) ==> argument.is_for("context"@) && !(
        argument.value.kind is Punct),
        context is None ==> !starts_named(back, "context"@),
    ensures
        named_value(context_part(context) + back, "context"@) == values_of(context),
        after_named(context_part(context) + back, "context"@) == back,
{
    match context {
        Some(argument) => {
            let ts = context_part(context) + back;
            assert(ts =~= argument.body() + (seq![argument.comma] + back));
            lemma_named("context"@, argument, seq![argument.comma] + back);
            assert(after(seq![argument.comma] + back, 1) =~= back);
        },
        None => {
            assert(context_part(context) + back =~= back);
        },
    }
}

/// What follows a message is read as its plural and its format arguments.
proof fn lemma_tail(plural: Option<Part>, format_args: Option<Part>)
    requires
        plural matches Some(part) ==> punct_is(part.mark, ',') && forall|i: int|
            0 <= i < part.tokens.len() ==> !punct_is(#[trigger] part.tokens[i], ';'),
        format_args matches Some(part) ==> punct_is(part.mark, ';'),
        plural is Some && format_args is Some && format_args->0.tokens.len() > 0 ==> !punct_is(
            format_args->0.tokens[0],
            ';',
        ),
    ensures
        plural_of(part(plural) + part(format_args)) == tokens_of(plural),
        format_args_of(after_plural(part(plural) + part(format_args))) == (match format_args {
            Some(part) => part.tokens,
            None => Seq::empty(),
        }),
{
    let args = part(format_args);
    let ts = part(plural) + args;
    match plural {
        Some(p) => {
            assert(ts.skip(1) =~= p.tokens + args);
            lemma_run_is(p.tokens, args, Stop::Semicolon);
            let left = after(p.tokens + args, p.tokens.len() as int + 1);
            match format_args {
                Some(a) => {
                    assert(left =~= a.tokens);
                },
                None => {
                    assert(left =~= Seq::<Tree>::empty());
                },
            }
        },
        None => {
            assert(ts =~= args);
            match format_args {
                Some(a) => {
                    assert(args.skip(1) =~= a.tokens);
                },
                None => {},
            }
        },
    }
}

/// The argument of a call of [`crate::macros::t`]: `context = <context>, <singular>, <plural>`,
/// where the context and the plural may be missing.
pub open spec fn t_call(
    context: Option<Argument>,
    singular: Tree,
    plural: Option<Part>,
) -> Seq<Tree> {
    context_part(context) + (seq![singular] + part(plural))
}

/// A call of [`crate::macros::t`] with literals in the documented syntax names the message that it
/// spells out. It is replaced with the literal, or with the literals for the singular and the plural
/// in a tuple.
pub proof fn law_t_syntax(context: Option<Argument>, singular: Tree, plural: Option<Part>)
    requires
        singular.kind is Literal,
        plural matches Some(part) ==> punct_is(part.mark, ',') && part.tokens.len() == 1
            && part.tokens[0].kind is Literal,
        context matches Some(argument) ==> argument.is_for("context"@)
            && argument.value.kind is Literal,
    ensures
        t_of(t_call(context, singular, plural)) == Ok::<ExpansionModel, Fault>(
            ExpansionModel {
                message: MessageModel {
                    content: seq![singular],
                    plural: tokens_of(plural),
                    context: value_of(context),
                    format_args: Seq::empty(),
                    writable: true,
                },
                code: match plural {
                    Some(part) => seq![
                        Code::Group(
                            Delimiter::Parenthesis,
                            seq![Code::Token(singular), comma(), Code::Token(part.tokens[0])],
                        ),
                    ],
                    None => seq![Code::Token(singular)],
                },
            },
        ),
{
    let tail = part(plural);
    let rest = seq![singular] + tail;
    lemma_context(context, rest);
    assert(after(rest, 1) =~= tail);
    lemma_tail(plural, None);
    assert(part(plural) + part(None) =~= tail);
    match plural {
        Some(p) => {
            assert(tokens(seq![singular]).push(comma()) + tokens(p.tokens) =~= seq![
                Code::Token(singular),
                comma(),
                Code::Token(p.tokens[0]),
            ]);
        },
        None => {
            assert(tokens(seq![singular]) =~= seq![Code::Token(singular)]);
        },
    }
}

/// The argument of a call of [`crate::macros::i18n`]:
/// `<catalog>, context = <context>, <content>, <plural>; <format arguments>`, where the context, the
/// plural and the format arguments may be missing.
pub open spec fn i18n_call(
    catalog: Seq<Tree>,
    comma: Tree,
    context: Option<Argument>,
    content: Seq<Tree>,
    plural: Option<Part>,
    format_args: Option<Part>,
) -> Seq<Tree> {
    catalog + (seq![comma] + (context_part(context) + (content + (part(plural) + part(
        format_args,
    )))))
}

/// The message of a call of [`crate::macros::i18n`] is read as such.
proof fn lemma_message(
    context: Option<Argument>,
    content: Seq<Tree>,
    plural: Option<Part>,
    format_args: Option<Part>,
)
    requires
        context matches Some(argument) ==> argument.is_for("context"@)
            && argument.value.kind is Literal,
        content.len() > 0,
        trimmed(content[0]) is Some,
        context is None ==> !starts_named(content, "context"@),
        forall|i: int| 0 <= i < content.len() ==> !Stop::CommaOrSemicolon.at(#[trigger] content[i]),
        plural matches Some(part) ==> punct_is(part.mark, ',') && forall|i: int|
            0 <= i < part.tokens.len() ==> !punct_is(#[trigger] part.tokens[i], ';'),
        format_args matches Some(part) ==> punct_is(part.mark, ';'),
        plural is Some && format_args is Some && format_args->0.tokens.len() > 0 ==> !punct_is(
            format_args->0.tokens[0],
            ';',
        ),
    ensures
        message_of(
            context_part(context) + (content + (part(plural) + part(format_args))),
            false,
        ) == Ok::<MessageModel, Fault>(
            MessageModel {
                content,
                plural: tokens_of(plural),
                context: value_of(context),
                format_args: match format_args {
                    Some(part) => part.tokens,
                    None => Seq::empty(),
                },
                writable: trimmed(content[0])->0.kind is Literal,
            },
        ),
{
    let tail = part(plural) + part(format_args);
    let rest = content + tail;
    assert(tail.len() > 0 ==> Stop::CommaOrSemicolon.at(tail[0])) by {
        match plural {
            Some(p) => {
                assert(tail[0] == p.mark);
            },
            None => {
                assert(tail =~= part(format_args));
            },
        }
    }
    assert(context is None ==> !starts_named(rest, "context"@)) by {
        assert(rest[0] == content[0]);
        if content.len() > 1 {
            assert(rest[1] == content[1]);
        } else if tail.len() > 0 {
            assert(rest[1] == tail[0]);
        }
    }
    lemma_context(context, rest);
    lemma_run_is(content, tail, Stop::CommaOrSemicolon);
    assert(content_of(rest, false) == Ok::<Seq<Tree>, Fault>(content));
    assert(after(rest, content.len() as int) =~= tail);
    lemma_tail(plural, format_args);
    assert(literal_first(content) == Ok::<bool, Fault>(trimmed(content[0])->0.kind is Literal));
}

/// A call of [`crate::macros::i18n`] in the documented syntax names the message that it spells out,
/// and is replaced with the code that asks the catalog for that message, by its count where there is a
/// plural: by the whole first format argument. The catalog must hold no comma outside a group, the
/// content neither a comma nor a semicolon, and the plural no semicolon. A content that itself begins
/// with `context =` needs a context before it, and format arguments behind a plural do not begin with a
/// semicolon.
pub proof fn law_i18n_syntax(
    catalog: Seq<Tree>,
    comma: Tree,
    context: Option<Argument>,
    content: Seq<Tree>,
    plural: Option<Part>,
    format_args: Option<Part>,
)
    requires
        forall|i: int| 0 <= i < catalog.len() ==> !punct_is(#[trigger] catalog[i], ','),
        punct_is(comma, ','),
        context matches Some(argument) ==> argument.is_for("context"@)
            && argument.value.kind is Literal,
        content.len() > 0,
        trimmed(content[0]) is Some,
        context is None ==> !starts_named(content, "context"@),
        forall|i: int| 0 <= i < content.len() ==> !Stop::CommaOrSemicolon.at(#[trigger] content[i]),
        plural matches Some(part) ==> punct_is(part.mark, ',') && forall|i: int|
            0 <= i < part.tokens.len() ==> !punct_is(#[trigger] part.tokens[i], ';'),
        format_args matches Some(part) ==> punct_is(part.mark, ';'),
        plural is Some && format_args is Some && format_args->0.tokens.len() > 0 ==> !punct_is(
            format_args->0.tokens[0],
            ';',
        ),
    ensures
        ({
            let message = MessageModel {
                content,
                plural: tokens_of(plural),
                context: value_of(context),
                format_args: match format_args {
                    Some(part) => part.tokens,
                    None => Seq::empty(),
                },
                writable: trimmed(content[0])->0.kind is Literal,
            };
            i18n_of(i18n_call(catalog, comma, context, content, plural, format_args)) == Ok::<
                ExpansionModel,
                Fault,
            >(
                ExpansionModel {
                    message,
                    code: translated(
                        given(catalog),
                        asking(message.context, message.plural),
                        asked(
                            message.context,
                            content,
                            message.plural,
                            first_argument(message.format_args),
                        ),
                        given(message.format_args),
                    ),
                },
            )
        }),
{
    let body = context_part(context) + (content + (part(plural) + part(format_args)));
    let input = i18n_call(catalog, comma, context, content, plural, format_args);
    lemma_run_is(catalog, seq![comma] + body, Stop::Comma);
    assert(after(input, catalog.len() as int + 1) =~= body);
    lemma_message(context, content, plural, format_args);
    let message = message_of(body, false)->Ok_0;
    let more = lemma_first_argument(message.format_args);
    lemma_translated(catalog, message, first_argument(message.format_args), more);
}

/// An option with its comma before it, if it is given.
pub open spec fn option_part(option: Option<Argument>) -> Seq<Tree> {
    match option {
        Some(argument) => seq![argument.comma] + argument.body(),
        None => Seq::empty(),
    }
}

/// A language and the comma before it.
pub struct Language {
    pub comma: Tree,
    pub name: Tree,
}

/// Languages, each with its comma before it.
pub open spec fn langs_part(langs: Seq<Language>) -> Seq<Tree>
    decreases langs.len(),
{
    if langs.len() == 0 {
        Seq::empty()
    } else {
        seq![langs[0].comma, langs[0].name] + langs_part(langs.drop_first())
    }
}

/// The names of languages.
pub open spec fn lang_names(langs: Seq<Language>) -> Seq<Seq<char>> {
    Seq::new(langs.len(), |i: int| langs[i].name.kind->Ident_0)
}

/// Whether languages are identifiers behind commas.
pub open spec fn are_langs(langs: Seq<Language>) -> bool {
    forall|i: int|
        0 <= i < langs.len() ==> punct_is((#[trigger] langs[i]).comma, ',')
            && langs[i].name.kind is Ident
}

/// The argument of a call of [`crate::init::init_i18n`]:
/// `<domain>, po = <po>, mo = <mo>, location = <location>, <languages>`, where all but the domain may
/// be missing.
pub open spec fn init_call(
    domain: Tree,
    po: Option<Argument>,
    mo: Option<Argument>,
    location: Option<Argument>,
    langs: Seq<Language>,
) -> Seq<Tree> {
    seq![domain] + (option_part(po) + (option_part(mo) + (option_part(location) + langs_part(
        langs,
    ))))
}

/// A list of languages is read as such.
proof fn lemma_langs(langs: Seq<Language>)
    requires
        are_langs(langs),
    ensures
        langs_of(after(langs_part(langs), 1)) == Ok::<Seq<Seq<char>>, Fault>(lang_names(langs)),
    decreases langs.len(),
{
    let ts = after(langs_part(langs), 1);
    let names = lang_names(langs);
    if langs.len() == 0 {
        assert(ts =~= Seq::<Tree>::empty());
        assert(names =~= Seq::<Seq<char>>::empty());
    } else {
        let more = langs.drop_first();
        assert forall|i: int| 0 <= i < more.len() implies punct_is((#[trigger] more[i]).comma, ',')
            && more[i].name.kind is Ident by {
            assert(more[i] == langs[i + 1]);
        }
        lemma_langs(more);
        assert(punct_is(langs[0].comma, ','));
        assert(ts =~= seq![langs[0].name] + langs_part(more));
        if more.len() > 0 {
            assert(punct_is(more[0].comma, ','));
            assert(ts[1] == more[0].comma);
            assert(ts.skip(2) =~= after(langs_part(more), 1));
            assert(seq![names[0]] + lang_names(more) =~= names);
        } else {
            assert(ts =~= seq![langs[0].name]);
            assert(seq![names[0]] =~= names);
        }
    }
}

/// An option is read as such, and what is behind the comma that follows it is left.
proof fn lemma_option(name: Seq<char>, option: Option<Argument>, back: Seq<Tree>)
    requires
        option matches Some(argument) ==> argument.is_for(name) && !(argument.value.kind is Punct),
        back.len() > 0 ==> punct_is(back[0], ','),
        option is None ==> !starts_named(after(back, 1), name),
    ensures
        named_value(after(option_part(option) + back, 1), name) == values_of(option),
        after_named(after(option_part(option) + back, 1), name) == after(back, 1),
{
    match option {
        Some(argument) => {
            assert(after(option_part(option) + back, 1) =~= argument.body() + back);
            lemma_named(name, argument, back);
        },
        None => {
            assert(option_part(option) + back =~= back);
        },
    }
}

/// A call of [`crate::init::init_i18n`] in the documented syntax gives the domain, the options and
/// the languages that it spells out. Options may be missing, but keep their order. A language may be
/// named like an option.
pub proof fn law_init_syntax(
    domain: Tree,
    po: Option<Argument>,
    mo: Option<Argument>,
    location: Option<Argument>,
    langs: Seq<Language>,
)
    requires
        domain.kind is Literal,
        po matches Some(argument) ==> argument.is_for("po"@) && argument.value.kind is Ident,
        mo matches Some(argument) ==> argument.is_for("mo"@) && argument.value.kind is Ident,
        location matches Some(argument) ==> argument.is_for("location"@)
            && argument.value.kind is Ident,
        are_langs(langs),
    ensures
        init_of(init_call(domain, po, mo, location, langs)) == Ok::<InitArgsModel, Fault>(
            InitArgsModel {
                domain: unquoted(domain.kind->Literal_0),
                po: values_of(po),
                mo: values_of(mo),
                location: values_of(location),
                langs: lang_names(langs),
            },
        ),
{
    reveal_strlit("po");
    reveal_strlit("mo");
    reveal_strlit("location");
    assert("po"@[0] != "mo"@[0]);
    assert("po"@.len() != "location"@.len());
    let l = langs_part(langs);
    let lo = option_part(location) + l;
    let m = option_part(mo) + lo;
    let p = option_part(po) + m;
    assert(init_call(domain, po, mo, location, langs).skip(1) =~= p);
    if langs.len() > 0 {
        assert(l[0] == langs[0].comma);
        assert(l[1] == langs[0].name);
        assert(after(l, 1).len() > 1 ==> !punct_is(after(l, 1)[1], '=')) by {
            reveal_with_fuel(langs_part, 2);
            if langs.len() > 1 {
                assert(punct_is(langs[1].comma, ','));
                assert(langs.drop_first()[0] == langs[1]);
                assert(after(l, 1)[1] == langs[1].comma);
            }
        }
    }
    match location {
        Some(argument) => {
            assert(lo[0] == argument.comma);
            assert(lo[1] == argument.name);
        },
        None => {
            assert(lo =~= l);
        },
    }
    match mo {
        Some(argument) => {
            assert(m[0] == argument.comma);
            assert(m[1] == argument.name);
        },
        None => {
            assert(m =~= lo);
        },
    }
    match po {
        Some(argument) => {
            assert(p[0] == argument.comma);
        },
        None => {
            assert(p =~= m);
        },
    }
    lemma_option("po"@, po, m);
    lemma_option("mo"@, mo, lo);
    lemma_option("location"@, location, l);
    lemma_langs(langs);
    if p.len() == 0 {
        assert(l.len() == 0);
        assert(after(p, 1) =~= after(l, 1));
    } else {
        assert(after(p, 1) =~= p.skip(1));
    }
}

} // verus!
