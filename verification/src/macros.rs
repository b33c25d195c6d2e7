//! What the macros do with their argument.

use vstd::prelude::*;

use crate::code::codes;
use crate::code::comma;
use crate::code::method_call;
use crate::code::path_sep;
use crate::code::tokens;
use crate::code::Code;
use crate::code::Fragment;
use crate::code::Spacing;
use crate::code::Writer;
use crate::config::Config;
use crate::config::ConfigModel;
use crate::fault::Fault;
use crate::message::message_of;
use crate::message::Message;
use crate::message::MessageModel;
use crate::token::after;
use crate::token::run;
use crate::token::skip;
use crate::token::take_run;
use crate::token::trees;
use crate::token::Delimiter;
use crate::token::Stop;
use crate::token::TokenStream;
use crate::token::TokenTree;
use crate::token::Tree;

verus! {

/// What the call of a message macro comes to.
#[derive(Debug, PartialEq, Eq)]
pub struct Expansion {
    /// The message to list in the template of translations.
    pub message: Message,
    /// The code that takes the place of the call.
    pub code: Vec<Fragment>,
}

/// The model of an [`Expansion`].
pub struct ExpansionModel {
    pub message: MessageModel,
    pub code: Seq<Code>,
}

impl View for Expansion {
    type V = ExpansionModel;

    open spec fn view(&self) -> ExpansionModel {
        ExpansionModel { message: self.message@, code: codes(self.code@) }
    }
}

/// What a marked message is replaced with: the message itself, or the singular and the plural in a
/// tuple.
pub open spec fn marked_code(message: MessageModel) -> Seq<Code> {
    match message.plural {
        Some(plural) => seq![
            Code::Group(
                Delimiter::Parenthesis,
                tokens(message.content).push(comma()) + tokens(plural),
            ),
        ],
        None => tokens(message.content),
    }
}

/// What a call of [`t`] comes to.
pub open spec fn t_of(input: Seq<Tree>) -> Result<ExpansionModel, Fault> {
    if input.len() == 0 {
        Err(Fault::ExpectedCatalog)
    } else {
        match message_of(input, true) {
            Ok(message) => Ok(ExpansionModel { message, code: marked_code(message) }),
            Err(fault) => Err(fault),
        }
    }
}

/// Marks a literal as translatable: it is listed in the template of translations, and not
/// translated at run time.
pub fn t(input: &[TokenTree]) -> (res: Result<Expansion, Fault>)
    ensures
        match res {
            Ok(expansion) => t_of(trees(input@)) == Ok::<ExpansionModel, Fault>(expansion@),
            Err(fault) => t_of(trees(input@)) == Err::<ExpansionModel, Fault>(fault),
        },
{
    if input.len() == 0 {
        return Err(Fault::ExpectedCatalog);
    }
    let message = match Message::parse(input, true) {
        Ok(message) => message,
        Err(fault) => {
            return Err(fault);
        },
    };
    let mut out = Writer::new();
    match &message.plural {
        Some(plural) => {
            let mut pair = Writer::new();
            pair.tokens(message.content.as_slice());
            pair.comma();
            pair.tokens(plural.as_slice());
            out.group(Delimiter::Parenthesis, pair);
            assert(pair@ =~= tokens(message@.content).push(comma()) + tokens(trees(plural@)));
        },
        None => {
            out.tokens(message.content.as_slice());
        },
    }
    assert(out@ =~= marked_code(message@));
    Ok(Expansion { message, code: out.fragments })
}

/// The arguments with which a catalog is asked for a message.
pub open spec fn lookup_args(message: MessageModel) -> Seq<Code> {
    (match message.context {
        Some(context) => seq![Code::Token(context), comma()],
        None => Seq::empty(),
    }) + tokens(message.content) + (match message.plural {
        Some(plural) => seq![comma()] + tokens(plural) + seq![comma()] + tokens(
            run(message.format_args, Stop::Comma),
        ) + seq![Code::Word("as"@), Code::Word("u64"@)],
        None => Seq::empty(),
    })
}

/// The method that a catalog is asked for a message with. One that begins with `n` chooses between
/// singular and plural; one with `p` heeds the context.
pub open spec fn lookup_method(message: MessageModel) -> Seq<char> {
    match (message.plural, message.context) {
        (Some(_), Some(_)) => "npgettext"@,
        (Some(_), None) => "ngettext"@,
        (None, Some(_)) => "pgettext"@,
        (None, None) => "gettext"@,
    }
}

/// The expression that asks a catalog for a message.
pub open spec fn lookup_code(catalog: Seq<Tree>, message: MessageModel) -> Seq<Code> {
    tokens(catalog) + method_call(lookup_method(message), lookup_args(message))
}

/// What a translated message is replaced with: a block that asks the catalog for it and formats it
/// with its arguments.
pub open spec fn translated_code(catalog: Seq<Tree>, message: MessageModel) -> Seq<Code> {
    seq![
        Code::Group(
            Delimiter::Brace,
            seq![Code::Word("use"@), Code::Word("runtime_fmt"@)] + path_sep(Spacing::Joint) + seq![
                Code::Punct('*', Spacing::Joint),
                Code::Punct(';', Spacing::Alone),
                Code::Word("rt_format"@),
                Code::Punct('!', Spacing::Alone),
                Code::Group(
                    Delimiter::Parenthesis,
                    lookup_code(catalog, message).push(comma()) + tokens(message.format_args),
                ),
            ] + method_call("expect"@, seq![Code::Str("Error while formatting message"@)]),
        ),
    ]
}

/// What a call of [`i18n`] comes to. The catalog is all up to the first comma.
pub open spec fn i18n_of(input: Seq<Tree>) -> Result<ExpansionModel, Fault> {
    if input.len() == 0 {
        Err(Fault::ExpectedCatalog)
    } else {
        let catalog = run(input, Stop::Comma);
        match message_of(after(input, catalog.len() as int + 1), false) {
            Ok(message) => Ok(
                ExpansionModel { message, code: translated_code(catalog, message) },
            ),
            Err(fault) => Err(fault),
        }
    }
}

/// Writes the expression that asks a catalog for a message.
fn write_lookup(out: &mut Writer, catalog: &TokenStream, message: &Message)
    ensures
        final(out)@ == old(out)@ + lookup_code(trees(catalog@), message@),
{
    let mut args = Writer::new();
    match &message.context {
        Some(context) => {
            args.push(Fragment::Token(context.clone()));
            args.comma();
        },
        None => {},
    }
    args.tokens(message.content.as_slice());
    match &message.plural {
        Some(plural) => {
            args.comma();
            args.tokens(plural.as_slice());
            args.comma();
            let count = take_run(message.format_args.as_slice(), Stop::Comma);
            args.tokens(count.as_slice());
            args.word("as");
            args.word("u64");
        },
        None => {},
    }
    assert(args@ =~= lookup_args(message@));
    let method = match &message.plural {
        Some(_) => match &message.context {
            Some(_) => "npgettext",
            None => "ngettext",
        },
        None => match &message.context {
            Some(_) => "pgettext",
            None => "gettext",
        },
    };
    out.tokens(catalog.as_slice());
    out.method_call(method, args);
    assert(out@ =~= old(out)@ + lookup_code(trees(catalog@), message@));
}

/// Marks a message as translatable and translates it at run time, with a catalog.
pub fn i18n(input: &[TokenTree]) -> (res: Result<Expansion, Fault>)
    ensures
        match res {
            Ok(expansion) => i18n_of(trees(input@)) == Ok::<ExpansionModel, Fault>(expansion@),
            Err(fault) => i18n_of(trees(input@)) == Err::<ExpansionModel, Fault>(fault),
        },
{
    if input.len() == 0 {
        return Err(Fault::ExpectedCatalog);
    }
    let catalog = take_run(input, Stop::Comma);
    assert(trees(catalog@).len() == catalog@.len());
    let message = match Message::parse(skip(input, catalog.len(), 1), false) {
        Ok(message) => message,
        Err(fault) => {
            return Err(fault);
        },
    };

    let mut call = Writer::new();
    write_lookup(&mut call, &catalog, &message);
    call.comma();
    call.tokens(message.format_args.as_slice());
    assert(call@ =~= lookup_code(trees(catalog@), message@).push(comma()) + tokens(
        message@.format_args,
    ));
    let mut failure = Writer::new();
    failure.literal("Error while formatting message");
    assert(failure@ =~= seq![Code::Str("Error while formatting message"@)]);

    let mut block = Writer::new();
    block.word("use");
    block.word("runtime_fmt");
    block.path_sep(Spacing::Joint);
    block.punct('*', Spacing::Joint);
    block.punct(';', Spacing::Alone);
    block.word("rt_format");
    block.punct('!', Spacing::Alone);
    block.group(Delimiter::Parenthesis, call);
    block.method_call("expect", failure);

    let mut out = Writer::new();
    out.group(Delimiter::Brace, block);
    assert(out@ =~= translated_code(trees(catalog@), message@)) by {
        assert(block@ =~= translated_code(trees(catalog@), message@)[0]->Group_1);
    }
    Ok(Expansion { message, code: out.fragments })
}

/// What a call of [`i18n_domain`] is replaced with: the domain as a string literal.
pub open spec fn domain_code(config: ConfigModel) -> Seq<Code> {
    seq![Code::Str(config.domain)]
}

/// Gives the translation domain of a crate.
pub fn i18n_domain(config: &Config) -> (res: Vec<Fragment>)
    ensures
        codes(res@) == domain_code(config@),
{
    let mut out = Writer::new();
    out.literal(config.domain.as_str());
    assert(out@ =~= domain_code(config@));
    out.fragments
}

} // verus!
