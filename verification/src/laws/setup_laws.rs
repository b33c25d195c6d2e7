//! A crate is set up as the call says, and each setting by its own option.

use vstd::prelude::*;

use crate::code::codes;
use crate::fault::Fault;
use crate::init::init_i18n;
use crate::init::lang_list;
use crate::init::InitArgs;
use crate::init::PrintedFlags;
use crate::init::Setup;
use crate::init::POT_HEAD;
use crate::init::POT_TAIL;
use crate::laws::spelling::holds;
use crate::laws::spelling::lemma_setting;
use crate::laws::spelling::mark;
use crate::laws::spelling::one;
use crate::laws::spelling::set_before;
use crate::laws::spelling::setting_tokens;
use crate::laws::spelling::setting_value;
use crate::laws::spelling::Setting;
use crate::laws::token_laws::reads_as;
use crate::text::texts;
use crate::text::unquoted;
use crate::token::after;
use crate::token::trees;
use crate::token::TokenStream;
use crate::token::TokenTree;
use crate::token::Tree;

verus! {

/// A language and the comma behind it.
pub struct Listed {
    pub name: Tree,
    pub comma: Tree,
}

/// The tokens of languages, each with its comma behind it.
pub open spec fn listed_tokens(listed: Seq<Listed>) -> Seq<Tree>
    decreases listed.len(),
{
    if listed.len() == 0 {
        Seq::empty()
    } else {
        seq![listed[0].name, listed[0].comma] + listed_tokens(listed.drop_first())
    }
}

/// Whether languages are identifiers, each with a comma behind it.
pub open spec fn are_listed(listed: Seq<Listed>) -> bool {
    forall|i: int|
        0 <= i < listed.len() ==> (#[trigger] listed[i]).name.kind is Ident && mark(
            listed[i].comma,
            ',',
        )
}

/// Whether a list of languages goes wrong: behind a comma, or where it should begin, there is no
/// identifier.
pub open spec fn list_broken(listed: Seq<Listed>, behind: Seq<Tree>) -> bool {
    if behind.len() == 0 {
        listed.len() > 0
    } else {
        !(behind[0].kind is Ident)
    }
}

/// The languages of a list: those with a comma behind them, and the last, which has none.
pub open spec fn list_names(listed: Seq<Listed>, behind: Seq<Tree>) -> Seq<Seq<char>> {
    let front = Seq::new(listed.len(), |i: int| listed[i].name.kind->Ident_0);
    if behind.len() == 0 {
        front
    } else {
        front.push(behind[0].kind->Ident_0)
    }
}

/// A list of languages that is not empty is read as it is spelt.
proof fn lemma_listed(listed: Seq<Listed>, behind: Seq<Tree>)
    requires
        are_listed(listed),
        behind.len() > 1 && behind[0].kind is Ident ==> !mark(behind[1], ','),
        listed.len() > 0 || behind.len() > 0,
    ensures
        lang_list(listed_tokens(listed) + behind) == if list_broken(listed, behind) {
            Err::<Seq<Seq<char>>, Fault>(Fault::ExpectedLanguage)
        } else {
            Ok(list_names(listed, behind))
        },
    decreases listed.len(),
{
    let ts = listed_tokens(listed) + behind;
    let names = list_names(listed, behind);
    if listed.len() == 0 {
        assert(ts =~= behind);
        assert(seq![behind[0].kind->Ident_0] =~= names);
    } else {
        let more = listed.drop_first();
        assert(listed[0].name.kind is Ident && mark(listed[0].comma, ','));
        assert(ts[0] == listed[0].name);
        assert(ts[1] == listed[0].comma);
        assert(ts.skip(2) =~= listed_tokens(more) + behind);
        assert forall|i: int| 0 <= i < more.len() implies (#[trigger] more[i]).name.kind is Ident
            && mark(more[i].comma, ',') by {
            assert(more[i] == listed[i + 1]);
        }
        if more.len() == 0 && behind.len() == 0 {
            assert(ts.skip(2).len() == 0);
        } else {
            lemma_listed(more, behind);
            if !list_broken(listed, behind) {
                assert(seq![listed[0].name.kind->Ident_0] + list_names(more, behind) =~= names);
            }
        }
    }
}

/// A text without its double quotes.
pub open spec fn no_quotes(text: Seq<char>) -> Seq<char>
    decreases text.len(),
{
    if text.len() == 0 {
        Seq::empty()
    } else if text[0] == '"' {
        no_quotes(text.drop_first())
    } else {
        seq![text[0]] + no_quotes(text.drop_first())
    }
}

/// The library takes quotes out by the same rule.
proof fn lemma_no_quotes(text: Seq<char>)
    ensures
        unquoted(text) == no_quotes(text),
    decreases text.len(),
{
    reveal_with_fuel(Seq::filter, 2);
    if text.len() > 0 {
        let first = seq![text[0]];
        lemma_no_quotes(text.drop_first());
        Seq::filter_distributes_over_add(first, text.drop_first(), |c: char| c != '"');
        assert(text =~= first + text.drop_first());
        assert(first.drop_last() =~= Seq::<char>::empty());
        assert(unquoted(first) =~= if text[0] == '"' {
            Seq::empty()
        } else {
            first
        });
        assert(unquoted(text) =~= no_quotes(text));
    } else {
        assert(unquoted(text) =~= no_quotes(text));
    }
}

/// How a call of [`init_i18n`] is spelt behind its domain: a token, which is a comma where options may
/// follow, the options, and the languages.
pub struct Options {
    pub lead: Option<Tree>,
    pub po: Option<Setting>,
    pub mo: Option<Setting>,
    pub location: Option<Setting>,
    pub listed: Seq<Listed>,
    pub behind: Seq<Tree>,
}

impl Options {
    /// The tokens of the languages.
    pub open spec fn langs(self) -> Seq<Tree> {
        listed_tokens(self.listed) + self.behind
    }

    /// The tokens from the option `location` on.
    pub open spec fn from_location(self) -> Seq<Tree> {
        setting_tokens(self.location) + self.langs()
    }

    /// The tokens from the option `mo` on.
    pub open spec fn from_mo(self) -> Seq<Tree> {
        setting_tokens(self.mo) + self.from_location()
    }

    /// The tokens from the option `po` on.
    pub open spec fn from_po(self) -> Seq<Tree> {
        setting_tokens(self.po) + self.from_mo()
    }

    /// The tokens.
    pub open spec fn tokens(self) -> Seq<Tree> {
        one(self.lead) + self.from_po()
    }

    /// Whether the parts are cut where they are.
    pub open spec fn cut_right(self) -> bool {
        &&& are_listed(self.listed)
        &&& self.behind.len() > 1 && self.behind[0].kind is Ident ==> !mark(self.behind[1], ',')
        &&& match self.lead {
            Some(lead) => if mark(lead, ',') {
                &&& set_before(self.po, "po"@, self.from_mo())
                &&& set_before(self.mo, "mo"@, self.from_location())
                &&& set_before(self.location, "location"@, self.langs())
            } else {
                self.po is None && self.mo is None && self.location is None
            },
            None => {
                &&& self.po is None && self.mo is None && self.location is None
                &&& self.langs().len() == 0
            },
        }
    }
}

/// A call of [`init_i18n`] gives the domain without its quotes, the options and the languages that it
/// spells out. It is refused where there is no domain, where the domain is no literal, and where
/// something else stands for a language.
pub proof fn law_init_means(
    input: &[TokenTree],
    domain: Tree,
    options: Options,
    res: Result<InitArgs, Fault>,
)
    requires
        call_ensures(init_i18n, (input,), res),
        input@.len() > 0 ==> trees(input@) == seq![domain] + options.tokens(),
        options.cut_right(),
    ensures
        if input@.len() == 0 {
            res matches Err(fault) && fault == Fault::ExpectedDomain
        } else if !(domain.kind is Literal) {
            res matches Err(fault) && fault == Fault::DomainNotStr
        } else if list_broken(options.listed, options.behind) {
            res matches Err(fault) && fault == Fault::ExpectedLanguage
        } else {
            res matches Ok(args) && {
                &&& args.domain@ == no_quotes(domain.kind->Literal_0)
                &&& holds(args.po, setting_value(options.po))
                &&& holds(args.mo, setting_value(options.mo))
                &&& holds(args.location, setting_value(options.location))
                &&& texts(args.langs@) == list_names(options.listed, options.behind)
            }
        },
{
    assert(trees(input@).len() == input@.len());
    if input@.len() > 0 {
        let ts = options.tokens();
        assert(trees(input@).skip(1) =~= ts);
        assert(trees(input@)[0] == domain);
        if domain.kind is Literal {
            lemma_no_quotes(domain.kind->Literal_0);
        }
        let langs = options.langs();
        assert(langs.len() == 0 <==> options.listed.len() == 0 && options.behind.len() == 0);
        if langs.len() > 0 {
            lemma_listed(options.listed, options.behind);
        } else {
            assert(list_names(options.listed, options.behind) =~= Seq::<Seq<char>>::empty());
        }
        match options.lead {
            Some(lead) => {
                assert(ts[0] == lead);
                assert(ts.skip(1) =~= options.from_po());
                assert(after(ts, 1) =~= options.from_po());
                if mark(lead, ',') {
                    lemma_setting(options.po, "po"@, options.from_mo());
                    lemma_setting(options.mo, "mo"@, options.from_location());
                    lemma_setting(options.location, "location"@, langs);
                } else {
                    assert(options.from_po() =~= langs);
                }
            },
            None => {
                assert(ts =~= Seq::<Tree>::empty());
                assert(langs =~= Seq::<Tree>::empty());
            },
        }
    }
}

/// Whether an option is on: it is not given, or reads `true`.
pub open spec fn option_on(value: Option<Seq<Tree>>, printed: Seq<char>) -> bool {
    value matches Some(ts) ==> reads_as(ts, printed, "true"@)
}

/// The tokens of a stream, if there is one.
pub open spec fn stream_tokens(stream: Option<TokenStream>) -> Option<Seq<Tree>> {
    match stream {
        Some(stream) => Some(trees(stream@)),
        None => None,
    }
}

/// What is set up has the domain and the languages of the call. Each setting is decided by its own
/// option alone: it is off if and only if the option is given and does not read `true`. The template
/// is in a directory and a file that are both named like the domain, and the call is replaced with
/// nothing.
pub proof fn law_setup_means(args: InitArgs, printed: &PrintedFlags, res: Setup)
    requires
        call_ensures(InitArgs::setup, (args, printed), res),
    ensures
        res.config.domain@ == args.domain@,
        texts(res.config.langs@) == texts(args.langs@),
        res.config.make_po <==> option_on(stream_tokens(args.po), printed.po@),
        res.config.make_mo <==> option_on(stream_tokens(args.mo), printed.mo@),
        res.config.write_loc <==> option_on(stream_tokens(args.location), printed.location@),
        res.pot_dir@ == "po/"@ + args.domain@,
        res.pot_file@ == "po/"@ + args.domain@ + "/"@ + args.domain@ + ".pot"@,
        codes(res.code@).len() == 0,
{
}

/// From the call to the configuration: each setting is decided by its own option alone, whatever the
/// others are and whether they are given, and the languages are those of the call.
pub proof fn law_options_decide(
    input: &[TokenTree],
    domain: Tree,
    options: Options,
    args: InitArgs,
    printed: &PrintedFlags,
    res: Setup,
)
    requires
        call_ensures(init_i18n, (input,), Ok::<InitArgs, Fault>(args)),
        call_ensures(InitArgs::setup, (args, printed), res),
        trees(input@) == seq![domain] + options.tokens(),
        options.cut_right(),
    ensures
        res.config.make_po <==> option_on(setting_value(options.po), printed.po@),
        res.config.make_mo <==> option_on(setting_value(options.mo), printed.mo@),
        res.config.write_loc <==> option_on(setting_value(options.location), printed.location@),
        texts(res.config.langs@) == list_names(options.listed, options.behind),
        res.config.domain@ == no_quotes(domain.kind->Literal_0),
{
    assert(trees(input@).len() == input@.len());
    law_init_means(input, domain, options, Ok::<InitArgs, Fault>(args));
    law_setup_means(args, printed, res);
}

/// Templates of two crates differ in nothing but the domain, which stands in the line for the project
/// in each of them.
pub proof fn law_templates_alike(
    args: InitArgs,
    printed: &PrintedFlags,
    res: Setup,
    other_args: InitArgs,
    other_printed: &PrintedFlags,
    other: Setup,
)
    requires
        call_ensures(InitArgs::setup, (args, printed), res),
        call_ensures(InitArgs::setup, (other_args, other_printed), other),
    ensures
        ({
            let head = "msgid \"\"\nmsgstr \"\"\n\"Project-Id-Version: "@;
            let n = head.len() as int;
            &&& res.pot@.len() >= n + args.domain@.len()
            &&& res.pot@.take(n) == head
            &&& res.pot@.skip(n).take(args.domain@.len() as int) == args.domain@
            &&& res.pot@.skip(n + args.domain@.len()) == other.pot@.skip(
                n + other_args.domain@.len(),
            )
        }),
{
    let head = "msgid \"\"\nmsgstr \"\"\n\"Project-Id-Version: "@;
    let n = head.len() as int;
    assert(POT_HEAD@ == head);
    let d = args.domain@;
    let tail = POT_TAIL@;
    assert(res.pot@.take(n) =~= head);
    assert(res.pot@.skip(n).take(d.len() as int) =~= d);
    assert(res.pot@.skip(n + d.len()) =~= tail);
    assert(other.pot@.skip(n + other_args.domain@.len()) =~= tail);
}

} // verus!
