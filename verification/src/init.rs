//! Setting up the translation of a crate.

use vstd::prelude::*;

use crate::code::codes;
use crate::code::Code;
use crate::code::Fragment;
use crate::config::Config;
use crate::config::ConfigModel;
use crate::fault::Fault;
use crate::message::pot_file;
use crate::message::pot_file_of;
use crate::text::join2;
use crate::text::join3;
use crate::text::str_eq;
use crate::text::texts;
use crate::text::unquoted;
use crate::text::without_quotes;
use crate::token::after;
use crate::token::after_named;
use crate::token::is_punct;
use crate::token::named_value;
use crate::token::optional_trees;
use crate::token::punct_is;
use crate::token::skip;
use crate::token::source_text;
use crate::token::take_named;
use crate::token::text_of;
use crate::token::trees;
use crate::token::TokenKind;
use crate::token::TokenStream;
use crate::token::TokenTree;
use crate::token::Tree;
use crate::token::TreeKind;

verus! {

/// The argument of [`init_i18n`], taken apart.
#[derive(Debug, PartialEq, Eq)]
pub struct InitArgs {
    /// The translation domain.
    pub domain: String,
    /// The value of the `po` argument.
    pub po: Option<TokenStream>,
    /// The value of the `mo` argument.
    pub mo: Option<TokenStream>,
    /// The value of the `location` argument.
    pub location: Option<TokenStream>,
    /// The languages.
    pub langs: Vec<String>,
}

/// The model of an [`InitArgs`].
#[verifier::ext_equal]
pub struct InitArgsModel {
    pub domain: Seq<char>,
    pub po: Option<Seq<Tree>>,
    pub mo: Option<Seq<Tree>>,
    pub location: Option<Seq<Tree>>,
    pub langs: Seq<Seq<char>>,
}

impl View for InitArgs {
    type V = InitArgsModel;

    open spec fn view(&self) -> InitArgsModel {
        InitArgsModel {
            domain: self.domain@,
            po: optional_trees(self.po),
            mo: optional_trees(self.mo),
            location: optional_trees(self.location),
            langs: texts(self.langs@),
        }
    }
}

/// The named arguments in `ts`, which is what follows the domain, and what follows them. There are
/// none where no comma follows the domain. A token is gone past in either case.
pub open spec fn options_of(ts: Seq<Tree>) -> (
    Option<Seq<Tree>>,
    Option<Seq<Tree>>,
    Option<Seq<Tree>>,
    Seq<Tree>,
) {
    if ts.len() > 0 && punct_is(ts[0], ',') {
        let ts = ts.skip(1);
        let after_po = after_named(ts, "po"@);
        let after_mo = after_named(after_po, "mo"@);
        (
            named_value(ts, "po"@),
            named_value(after_po, "mo"@),
            named_value(after_mo, "location"@),
            after_named(after_mo, "location"@),
        )
    } else {
        (None, None, None, after(ts, 1))
    }
}

/// The languages in `ts`: identifiers with commas between them. The list ends with the tokens, or
/// with one that is no comma where a comma could stand.
pub open spec fn lang_list(ts: Seq<Tree>) -> Result<Seq<Seq<char>>, Fault>
    decreases ts.len(),
{
    if ts.len() == 0 {
        Err(Fault::ExpectedLanguage)
    } else {
        match ts[0].kind {
            TreeKind::Ident(lang) => if ts.len() > 1 && punct_is(ts[1], ',') {
                match lang_list(ts.skip(2)) {
                    Ok(more) => Ok(seq![lang] + more),
                    Err(fault) => Err(fault),
                }
            } else {
                Ok(seq![lang])
            },
            _ => Err(Fault::ExpectedLanguage),
        }
    }
}

/// The languages in `ts`, which is what follows the named arguments. There need be none.
pub open spec fn langs_of(ts: Seq<Tree>) -> Result<Seq<Seq<char>>, Fault> {
    if ts.len() == 0 {
        Ok(Seq::empty())
    } else {
        lang_list(ts)
    }
}

/// The argument of [`init_i18n`], taken apart: the domain, which is a literal without its quotes,
/// the named arguments, and the languages.
pub open spec fn init_of(input: Seq<Tree>) -> Result<InitArgsModel, Fault> {
    if input.len() == 0 {
        Err(Fault::ExpectedDomain)
    } else {
        match input[0].kind {
            TreeKind::Literal(text) => {
                let (po, mo, location, rest) = options_of(input.skip(1));
                match langs_of(rest) {
                    Ok(langs) => Ok(
                        InitArgsModel { domain: unquoted(text), po, mo, location, langs },
                    ),
                    Err(fault) => Err(fault),
                }
            },
            _ => Err(Fault::DomainNotStr),
        }
    }
}

/// Reads the languages.
fn read_langs(input: &[TokenTree]) -> (res: Result<Vec<String>, Fault>)
    ensures
        match res {
            Ok(langs) => langs_of(trees(input@)) == Ok::<Seq<Seq<char>>, Fault>(texts(langs@)),
            Err(fault) => langs_of(trees(input@)) == Err::<Seq<Seq<char>>, Fault>(fault),
        },
{
    let mut langs: Vec<String> = Vec::new();
    if input.len() == 0 {
        assert(texts(langs@) =~= Seq::<Seq<char>>::empty());
        return Ok(langs);
    }
    let mut rest = input;
    loop
        invariant
            input@.len() > 0,
            match lang_list(trees(rest@)) {
                Ok(more) => lang_list(trees(input@)) == Ok::<Seq<Seq<char>>, Fault>(
                    texts(langs@) + more,
                ),
                Err(fault) => lang_list(trees(input@)) == Err::<Seq<Seq<char>>, Fault>(fault),
            },
        decreases rest@.len(),
    {
        if rest.len() == 0 {
            return Err(Fault::ExpectedLanguage);
        }
        let ghost found = texts(langs@);
        match &rest[0].kind {
            TokenKind::Ident(lang) => {
                langs.push(lang.clone());
                assert(texts(langs@) =~= found + seq![lang@]);
            },
            _ => {
                return Err(Fault::ExpectedLanguage);
            },
        }
        if rest.len() < 2 || !is_punct(&rest[1], ',') {
            return Ok(langs);
        }
        let ghost name = trees(rest@)[0].kind->Ident_0;
        rest = skip(rest, 2, 0);
        proof {
            if let Ok(more) = lang_list(trees(rest@)) {
                assert(found + (seq![name] + more) =~= texts(langs@) + more);
            }
            assert(trees(rest@).len() == rest@.len());
        }
    }
}

/// Sets up the translation of a crate: takes the argument apart. [`InitArgs::setup`] does the
/// rest.
pub fn init_i18n(input: &[TokenTree]) -> (res: Result<InitArgs, Fault>)
    ensures
        match res {
            Ok(args) => init_of(trees(input@)) == Ok::<InitArgsModel, Fault>(args@),
            Err(fault) => init_of(trees(input@)) == Err::<InitArgsModel, Fault>(fault),
        },
{
    if input.len() == 0 {
        return Err(Fault::ExpectedDomain);
    }
    let domain = match &input[0].kind {
        TokenKind::Literal(text) => without_quotes(text.as_str()),
        _ => {
            return Err(Fault::DomainNotStr);
        },
    };
    let rest = skip(input, 1, 0);
    let ghost tail = trees(rest@);
    let has_options = rest.len() > 0 && is_punct(&rest[0], ',');
    let rest = skip(rest, 1, 0);
    let (po, mo, location, rest) = if has_options {
        let (po, rest) = take_named(rest, "po");
        let (mo, rest) = take_named(rest, "mo");
        let (location, rest) = take_named(rest, "location");
        (po, mo, location, rest)
    } else {
        (None, None, None, rest)
    };
    assert(options_of(tail) == (
        optional_trees(po),
        optional_trees(mo),
        optional_trees(location),
        trees(rest@),
    ));
    match read_langs(rest) {
        Ok(langs) => Ok(InitArgs { domain, po, mo, location, langs }),
        Err(fault) => Err(fault),
    }
}

/// The values of the named arguments, printed as source text. Only the text of a value that is a
/// group, or more than one token, is looked at: an identifier and a literal are their own text.
#[derive(Debug, PartialEq, Eq)]
pub struct PrintedFlags {
    /// The text of the value of `po`.
    pub po: String,
    /// The text of the value of `mo`.
    pub mo: String,
    /// The text of the value of `location`.
    pub location: String,
}

/// Whether an option is on: where it is missing, and where its value reads `true`.
pub open spec fn flag_of(value: Option<Seq<Tree>>, printed: Seq<char>) -> bool {
    match value {
        Some(ts) => source_text(ts, printed) == "true"@,
        None => true,
    }
}

/// Tells whether an option is on.
fn flag(value: &Option<TokenStream>, printed: &str) -> (res: bool)
    ensures
        res == flag_of(optional_trees(*value), printed@),
{
    match value {
        Some(ts) => {
            let text = text_of(ts.as_slice(), printed);
            str_eq(text.as_str(), "true")
        },
        None => true,
    }
}

/// The configuration that the argument asks for.
pub open spec fn config_for(args: InitArgsModel, printed: PrintedFlags) -> ConfigModel {
    ConfigModel {
        domain: args.domain,
        make_po: flag_of(args.po, printed.po@),
        make_mo: flag_of(args.mo, printed.mo@),
        write_loc: flag_of(args.location, printed.location@),
        langs: args.langs,
    }
}

/// The front of a new template of translations, up to the domain.
pub const POT_HEAD: &'static str = "msgid \"\"\nmsgstr \"\"\n\"Project-Id-Version: ";

/// A new template of translations from the domain on.
pub const POT_TAIL: &'static str = r#"\n"
"Report-Msgid-Bugs-To: \n"
"POT-Creation-Date: 2018-06-15 16:33-0700\n"
"PO-Revision-Date: YEAR-MO-DA HO:MI+ZONE\n"
"Last-Translator: FULL NAME <EMAIL@ADDRESS>\n"
"Language-Team: LANGUAGE <LL@li.org>\n"
"Language: \n"
"MIME-Version: 1.0\n"
"Content-Type: text/plain; charset=UTF-8\n"
"Content-Transfer-Encoding: 8bit\n"
"Plural-Forms: nplurals=INTEGER; plural=EXPRESSION;\n"
"#;

/// A new template of translations, which lists no message yet.
pub open spec fn new_pot(domain: Seq<char>) -> Seq<char> {
    POT_HEAD@ + domain + POT_TAIL@
}

/// What is to be done to set the translation of a crate up.
#[derive(Debug, PartialEq, Eq)]
pub struct Setup {
    /// The configuration to keep for the other macros.
    pub config: Config,
    /// The directory to make, from the directory of the crate.
    pub pot_dir: String,
    /// The file to overwrite, from the directory of the crate.
    pub pot_file: String,
    /// What to write to that file.
    pub pot: String,
    /// The code that takes the place of the call.
    pub code: Vec<Fragment>,
}

impl InitArgs {
    /// Tells what is to be done to set the translation of a crate up.
    pub fn setup(self, printed: &PrintedFlags) -> (res: Setup)
        ensures
            res.config@ == config_for(self@, *printed),
            res.pot_dir@ == "po/"@ + self@.domain,
            res.pot_file@ == pot_file_of(self@.domain),
            res.pot@ == new_pot(self@.domain),
            codes(res.code@) == Seq::<Code>::empty(),
    {
        let make_po = flag(&self.po, printed.po.as_str());
        let make_mo = flag(&self.mo, printed.mo.as_str());
        let write_loc = flag(&self.location, printed.location.as_str());
        let pot_dir = join2("po/", self.domain.as_str());
        let pot_file = pot_file(self.domain.as_str());
        let pot = join3(POT_HEAD, self.domain.as_str(), POT_TAIL);
        let code: Vec<Fragment> = Vec::new();
        assert(codes(code@) =~= Seq::<Code>::empty());
        let config = Config {
            domain: self.domain,
            make_po,
            make_mo,
            write_loc,
            langs: self.langs,
        };
        Setup { config, pot_dir, pot_file, pot, code }
    }
}

} // verus!
