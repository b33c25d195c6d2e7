//! Messages: how a macro call names one, and how it is listed in the template of translations.

use vstd::prelude::*;
use vstd::string::StringExecFns;

use crate::config::Config;
use crate::config::ConfigModel;
use crate::fault::Fault;
use crate::text::contains;
use crate::text::decimal;
use crate::text::join3;
use crate::text::occurs;
use crate::text::optional_text;
use crate::text::push_decimal;
use crate::token::after;
use crate::token::after_named;
use crate::token::all_blank;
use crate::token::copy_all;
use crate::token::is_empty_ts;
use crate::token::is_punct;
use crate::token::named_value;
use crate::token::optional_tree;
use crate::token::optional_trees;
use crate::token::punct_is;
use crate::token::run;
use crate::token::skip;
use crate::token::source_text;
use crate::token::take_named;
use crate::token::take_run;
use crate::token::text_of;
use crate::token::text_of_one;
use crate::token::trees;
use crate::token::trim;
use crate::token::trimmed;
use crate::token::Stop;
use crate::token::TokenKind;
use crate::token::TokenStream;
use crate::token::TokenTree;
use crate::token::Tree;

verus! {

/// A message that a macro call asks to have translated.
#[derive(Debug, PartialEq, Eq)]
pub struct Message {
    /// The message, or its singular.
    pub content: TokenStream,
    /// Its plural.
    pub plural: Option<TokenStream>,
    /// What translators are told about it.
    pub context: Option<TokenTree>,
    /// What is put in the place of its parameters.
    pub format_args: TokenStream,
    /// Whether it is a literal, so that it can be listed.
    pub writable: bool,
}

/// The model of a [`Message`].
pub struct MessageModel {
    pub content: Seq<Tree>,
    pub plural: Option<Seq<Tree>>,
    pub context: Option<Tree>,
    pub format_args: Seq<Tree>,
    pub writable: bool,
}

impl View for Message {
    type V = MessageModel;

    open spec fn view(&self) -> MessageModel {
        MessageModel {
            content: trees(self.content@),
            plural: optional_trees(self.plural),
            context: optional_tree(self.context),
            format_args: trees(self.format_args@),
            writable: self.writable,
        }
    }
}

/// The first token of a run, if it has one.
pub open spec fn first(ts: Seq<Tree>) -> Option<Tree> {
    if ts.len() > 0 {
        Some(ts[0])
    } else {
        None
    }
}

/// The message at the front of `ts`. Where only a literal is expected it is one token, taken out of
/// its invisible group; else it is all up to a comma or a semicolon.
pub open spec fn content_of(ts: Seq<Tree>, str_only: bool) -> Result<Seq<Tree>, Fault> {
    if !str_only {
        Ok(run(ts, Stop::CommaOrSemicolon))
    } else if ts.len() == 0 {
        Err(Fault::ExpectedMessage)
    } else {
        match trimmed(ts[0]) {
            Some(t) => Ok(seq![t]),
            None => Err(Fault::EmptyExpression),
        }
    }
}

/// The plural in `ts`, which is what follows the message: behind a comma, up to a semicolon.
pub open spec fn plural_of(ts: Seq<Tree>) -> Option<Seq<Tree>> {
    if ts.len() > 0 && punct_is(ts[0], ',') {
        Some(run(ts.skip(1), Stop::Semicolon))
    } else {
        None
    }
}

/// What follows the plural in `ts` and the semicolon that ends it.
pub open spec fn after_plural(ts: Seq<Tree>) -> Seq<Tree> {
    match plural_of(ts) {
        Some(plural) => after(ts.skip(1), plural.len() as int + 1),
        None => ts,
    }
}

/// The format arguments in `ts`, which is what follows the plural: all of it but for a semicolon
/// at its front.
pub open spec fn format_args_of(ts: Seq<Tree>) -> Seq<Tree> {
    if ts.len() > 0 && punct_is(ts[0], ';') {
        ts.skip(1)
    } else {
        ts
    }
}

/// Whether a message begins with a literal. That cannot be told of one that begins with an empty
/// invisible group.
pub open spec fn literal_first(content: Seq<Tree>) -> Result<bool, Fault> {
    match first(content) {
        Some(t) => match trimmed(t) {
            Some(t) => Ok(t.kind is Literal),
            None => Err(Fault::EmptyExpression),
        },
        None => Ok(false),
    }
}

/// The message that a macro call with the argument
/// `context = <context>, <content>, <plural>; <format arguments>` names. Every part but the content
/// may be missing.
pub open spec fn message_of(input: Seq<Tree>, str_only: bool) -> Result<MessageModel, Fault> {
    let context = named_value(input, "context"@);
    let rest = after_named(input, "context"@);
    match content_of(rest, str_only) {
        Err(fault) => Err(fault),
        Ok(content) => {
            let rest = after(rest, content.len() as int);
            match literal_first(content) {
                Err(fault) => Err(fault),
                Ok(writable) => Ok(
                    MessageModel {
                        content,
                        plural: plural_of(rest),
                        context: match context {
                            Some(value) => first(value),
                            None => None,
                        },
                        format_args: format_args_of(after_plural(rest)),
                        writable,
                    },
                ),
            }
        },
    }
}

/// A place in the source code.
#[derive(Debug, PartialEq, Eq)]
pub struct Location {
    /// The path of the source file.
    pub path: String,
    /// Whether that path is absolute.
    pub absolute: bool,
    /// The line in the file.
    pub line: usize,
}

/// The model of a [`Location`].
pub struct LocationModel {
    pub path: Seq<char>,
    pub absolute: bool,
    pub line: nat,
}

impl View for Location {
    type V = LocationModel;

    open spec fn view(&self) -> LocationModel {
        LocationModel { path: self.path@, absolute: self.absolute, line: self.line as nat }
    }
}

/// The model of an optional location.
pub open spec fn optional_location(location: Option<Location>) -> Option<LocationModel> {
    match location {
        Some(place) => Some(place@),
        None => None,
    }
}

/// The location that an entry gets: none where the configuration turns locations off.
pub open spec fn wanted_location(
    config: ConfigModel,
    location: Option<LocationModel>,
) -> Option<LocationModel> {
    if config.write_loc {
        location
    } else {
        None
    }
}

/// The parts of a message, printed as source text. Only the text of a part that is a group, or
/// more than one token, is looked at: an identifier and a literal are their own text.
#[derive(Debug, PartialEq, Eq)]
pub struct Printed {
    /// The text of the content.
    pub content: String,
    /// The text of the plural.
    pub plural: String,
    /// The text of the context.
    pub context: String,
}

/// The model of a [`Printed`].
pub struct PrintedModel {
    pub content: Seq<char>,
    pub plural: Seq<char>,
    pub context: Seq<char>,
}

impl View for Printed {
    type V = PrintedModel;

    open spec fn view(&self) -> PrintedModel {
        PrintedModel { content: self.content@, plural: self.plural@, context: self.context@ }
    }
}

impl MessageModel {
    /// The source texts of the parts of a message that were printed as `printed`.
    pub open spec fn texts(self, printed: PrintedModel) -> PrintedModel {
        PrintedModel {
            content: source_text(self.content, printed.content),
            plural: match self.plural {
                Some(ts) => source_text(ts, printed.plural),
                None => Seq::empty(),
            },
            context: match self.context {
                Some(t) => source_text(seq![t], printed.context),
                None => Seq::empty(),
            },
        }
    }
}

/// The line that says where a message comes from, if it is to be said: not where the path of the
/// source file is absolute.
pub open spec fn location_line(location: Option<LocationModel>) -> Seq<char> {
    match location {
        Some(place) => if place.absolute {
            Seq::empty()
        } else {
            "#: "@ + place.path + ":"@ + decimal(place.line) + "\n"@
        },
        None => Seq::empty(),
    }
}

/// The text by which an entry is found again: the line for the context, if there is one, and the
/// message.
pub open spec fn entry_key(message: MessageModel, texts: PrintedModel) -> Seq<char> {
    (match message.context {
        Some(_) => "msgctxt "@ + texts.context + "\n"@,
        None => Seq::empty(),
    }) + "msgid "@ + texts.content
}

/// An entry of the template of translations.
pub open spec fn entry_text(
    message: MessageModel,
    texts: PrintedModel,
    location: Option<LocationModel>,
) -> Seq<char> {
    "\n"@ + location_line(location) + entry_key(message, texts) + (match message.plural {
        Some(_) => "\nmsgid_plural "@ + texts.plural + "\nmsgstr[0] \"\"\n"@,
        None => "\nmsgstr \"\"\n"@,
    })
}

/// Whether a message is one to list in a template of translations whose text so far is `pot`: a
/// literal that is not blank and not listed already.
pub open spec fn to_list(message: MessageModel, texts: PrintedModel, pot: Seq<char>) -> bool {
    message.writable && !all_blank(message.content) && !occurs(pot, entry_key(message, texts))
}

/// What is appended to the template of translations for a message.
pub open spec fn listing(
    message: MessageModel,
    texts: PrintedModel,
    pot: Seq<char>,
    location: Option<LocationModel>,
) -> Option<Seq<char>> {
    if to_list(message, texts, pot) {
        Some(entry_text(message, texts, location))
    } else {
        None
    }
}

impl Message {
    /// Reads the message that a macro call names. With `str_only` the message has to be one token.
    pub fn parse(input: &[TokenTree], str_only: bool) -> (res: Result<Message, Fault>)
        ensures
            match res {
                Ok(message) => message_of(trees(input@), str_only) == Ok::<MessageModel, Fault>(
                    message@,
                ),
                Err(fault) => message_of(trees(input@), str_only) == Err::<MessageModel, Fault>(
                    fault,
                ),
            },
    {
        let (context, rest) = take_named(input, "context");

        let content: TokenStream = if str_only {
            if rest.len() == 0 {
                return Err(Fault::ExpectedMessage);
            }
            let mut content: TokenStream = Vec::new();
            match trim(&rest[0]) {
                Ok(t) => {
                    content.push(t);
                    assert(trees(content@) =~= seq![t@]);
                },
                Err(fault) => {
                    return Err(fault);
                },
            }
            content
        } else {
            take_run(rest, Stop::CommaOrSemicolon)
        };
        assert(trees(content@).len() == content@.len());
        let rest = skip(rest, content.len(), 0);

        let mut plural: Option<TokenStream> = None;
        let mut args = rest;
        if rest.len() > 0 && is_punct(&rest[0], ',') {
            let tail = skip(rest, 1, 0);
            let words = take_run(tail, Stop::Semicolon);
            assert(trees(words@).len() == words@.len());
            args = skip(tail, words.len(), 1);
            plural = Some(words);
        }
        assert(optional_trees(plural) == plural_of(trees(rest@)));
        assert(trees(args@) == after_plural(trees(rest@)));

        if args.len() > 0 && is_punct(&args[0], ';') {
            args = skip(args, 1, 0);
        }

        let writable = if content.len() > 0 {
            match trim(&content[0]) {
                Ok(t) => match t.kind {
                    TokenKind::Literal(_) => true,
                    _ => false,
                },
                Err(fault) => {
                    return Err(fault);
                },
            }
        } else {
            false
        };

        let context = match context {
            Some(value) => if value.len() > 0 {
                Some(value[0].clone())
            } else {
                None
            },
            None => None,
        };

        Ok(Message { content, plural, context, format_args: copy_all(args), writable })
    }

    /// Gives the entry to append to the template of translations, whose text so far is `pot`. There
    /// is none where the message is no literal, is blank, or is listed already. The entry says where
    /// the message comes from if the configuration wants that.
    pub fn write(
        &self,
        config: &Config,
        printed: &Printed,
        pot: &str,
        location: &Option<Location>,
    ) -> (res: Option<String>)
        ensures
            optional_text(res) == listing(
                self@,
                self@.texts(printed@),
                pot@,
                wanted_location(config@, optional_location(*location)),
            ),
    {
        if !self.writable {
            return None;
        }
        let ghost texts = self@.texts(printed@);
        let mut key = match &self.context {
            Some(t) => {
                let text = text_of_one(t, printed.context.as_str());
                join3("msgctxt ", text.as_str(), "\n")
            },
            None => String::new(),
        };
        key.append("msgid ");
        let content = text_of(self.content.as_slice(), printed.content.as_str());
        key.append(content.as_str());
        assert(key@ =~= entry_key(self@, texts));
        if is_empty_ts(self.content.as_slice()) || contains(pot, key.as_str()) {
            return None;
        }

        let mut entry = "\n".to_owned();
        match location {
            Some(place) => if config.write_loc && !place.absolute {
                entry.append("#: ");
                entry.append(place.path.as_str());
                entry.append(":");
                push_decimal(&mut entry, place.line);
                entry.append("\n");
            },
            None => {},
        }
        let ghost wanted = wanted_location(config@, optional_location(*location));
        assert(entry@ =~= "\n"@ + location_line(wanted));
        entry.append(key.as_str());
        match &self.plural {
            Some(ts) => {
                let plural = text_of(ts.as_slice(), printed.plural.as_str());
                entry.append("\nmsgid_plural ");
                entry.append(plural.as_str());
                entry.append("\nmsgstr[0] \"\"\n");
            },
            None => {
                entry.append("\nmsgstr \"\"\n");
            },
        }
        assert(entry@ =~= entry_text(self@, texts, wanted));
        Some(entry)
    }

    /// Gives the reason for which the call is refused where the entry cannot be appended.
    pub fn write_fault(&self) -> (res: Fault)
        ensures
            res == if self@.plural is Some {
                Fault::PluralNotWritten
            } else {
                Fault::MessageNotWritten
            },
    {
        match &self.plural {
            Some(_) => Fault::PluralNotWritten,
            None => Fault::MessageNotWritten,
        }
    }
}

/// The file that holds the template of translations of a domain, from the directory of the crate.
pub open spec fn pot_file_of(domain: Seq<char>) -> Seq<char> {
    "po/"@ + domain + "/"@ + domain + ".pot"@
}

/// Names the file that holds the template of translations of a domain.
pub fn pot_file(domain: &str) -> (res: String)
    ensures
        res@ == pot_file_of(domain@),
{
    let mut res = join3("po/", domain, "/");
    res.append(domain);
    res.append(".pot");
    res
}

} // verus!
