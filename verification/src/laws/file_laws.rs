//! The file that holds a configuration, line by line.

use vstd::prelude::*;
use vstd::utf8::decode_utf8;
use vstd::utf8::encode_utf8;
use vstd::utf8::valid_utf8;

use crate::code::codes;
use crate::code::Code;
use crate::code::Fragment;
use crate::config::config_lines;
use crate::config::lemma_line_end_is;
use crate::config::lines;
use crate::config::text_of_lines;
use crate::config::without_return;
use crate::config::written;
use crate::config::Config;
use crate::config::ConfigLine;
use crate::fault::Fault;
use crate::init::init_i18n;
use crate::init::InitArgs;
use crate::init::PrintedFlags;
use crate::init::Setup;
use crate::laws::config_laws::law_config_read_back;
use crate::laws::config_laws::law_settings_read_back;
use crate::laws::config_laws::one_line;
use crate::laws::setup_laws::law_options_decide;
use crate::laws::setup_laws::no_quotes;
use crate::laws::setup_laws::Options;
use crate::macros::i18n_domain;
use crate::text::texts;
use crate::token::trees;
use crate::token::TokenTree;
use crate::token::Tree;

verus! {

/// The word for a setting.
pub open spec fn on_or_off(setting: bool) -> Seq<char> {
    if setting {
        "true"@
    } else {
        "false"@
    }
}

/// The bytes of a text with a newline behind it.
pub open spec fn line_bytes(text: Seq<char>) -> Seq<u8> {
    encode_utf8(text.push('\n'))
}

/// A configuration is written as one line for the domain, one for each setting and one for each
/// language, in this order. Where a line cannot be written, the reason is the one for that line.
pub proof fn law_config_written(config: &Config, res: Vec<ConfigLine>)
    requires
        call_ensures(Config::write, (config,), res),
    ensures
        res@.len() == 4 + config.langs@.len(),
        res@[0].bytes@ == line_bytes(config.domain@),
        res@[0].fault == Fault::DomainNotWritten,
        res@[1].bytes@ == line_bytes(on_or_off(config.make_po)),
        res@[1].fault == Fault::MakePoNotWritten,
        res@[2].bytes@ == line_bytes(on_or_off(config.make_mo)),
        res@[2].fault == Fault::MakeMoNotWritten,
        res@[3].bytes@ == line_bytes(on_or_off(config.write_loc)),
        res@[3].fault == Fault::WriteLocNotWritten,
        forall|i: int|
            0 <= i < config.langs@.len() ==> {
                &&& (#[trigger] res@[4 + i]).bytes@ == line_bytes(config.langs@[i]@)
                &&& res@[4 + i].fault == Fault::LangNotWritten
            },
{
    reveal_strlit("\n");
    let ls = config_lines(config@);
    assert forall|i: int| 0 <= i < ls.len() implies (#[trigger] res@[i]).bytes@ == line_bytes(
        ls[i],
    ) by {
        assert(ls[i] + "\n"@ =~= ls[i].push('\n'));
    }
    assert forall|i: int| 0 <= i < config.langs@.len() implies ({
        &&& (#[trigger] res@[4 + i]).bytes@ == line_bytes(config.langs@[i]@)
        &&& res@[4 + i].fault == Fault::LangNotWritten
    }) by {
        assert(ls[4 + i] == config.langs@[i]@);
    }
}

/// What a file holds that the lines are written to, one behind the other.
pub open spec fn glued(ls: Seq<ConfigLine>) -> Seq<u8>
    decreases ls.len(),
{
    if ls.len() == 0 {
        Seq::empty()
    } else {
        ls[0].bytes@ + glued(ls.drop_first())
    }
}

/// The library puts lines together by the same rule.
proof fn lemma_glued(ls: Seq<ConfigLine>)
    ensures
        written(ls) == glued(ls),
    decreases ls.len(),
{
    if ls.len() == 1 {
        reveal_with_fuel(glued, 2);
        reveal_with_fuel(written, 2);
        assert(written(ls) =~= glued(ls));
    } else if ls.len() > 1 {
        lemma_glued_last(ls);
        lemma_glued(ls.drop_last());
    }
}

/// The last line stands behind all others.
proof fn lemma_glued_last(ls: Seq<ConfigLine>)
    requires
        ls.len() > 0,
    ensures
        glued(ls) == glued(ls.drop_last()) + ls.last().bytes@,
    decreases ls.len(),
{
    if ls.len() == 1 {
        reveal_with_fuel(glued, 2);
        assert(glued(ls) =~= glued(ls.drop_last()) + ls.last().bytes@);
    } else {
        lemma_glued_last(ls.drop_first());
        assert(ls.drop_first().drop_last() =~= ls.drop_last().drop_first());
        assert(glued(ls) =~= glued(ls.drop_last()) + ls.last().bytes@);
    }
}

/// A configuration that is written to a file and read from it again is the same, if the domain and
/// the languages each fit on a line. Its domain and its settings are the same if the domain does,
/// whatever the languages are.
pub proof fn law_config_kept(
    config: &Config,
    ls: Vec<ConfigLine>,
    contents: &[u8],
    res: Result<Config, Fault>,
)
    requires
        call_ensures(Config::write, (config,), ls),
        call_ensures(Config::read, (contents,), res),
        contents@ == glued(ls@),
        one_line(config.domain@),
    ensures
        res matches Ok(found) && {
            &&& found.domain@ == config.domain@
            &&& found.make_po == config.make_po
            &&& found.make_mo == config.make_mo
            &&& found.write_loc == config.write_loc
        },
        (forall|i: int| 0 <= i < config.langs@.len() ==> one_line(#[trigger] config.langs@[i]@))
            ==> texts(res->Ok_0.langs@) == texts(config.langs@),
{
    lemma_glued(ls@);
    law_settings_read_back(config@);
    if forall|i: int| 0 <= i < config.langs@.len() ==> one_line(#[trigger] config.langs@[i]@) {
        assert forall|i: int| 0 <= i < config@.langs.len() implies one_line(
            #[trigger] config@.langs[i],
        ) by {
            assert(one_line(config.langs@[i]@));
        }
        law_config_read_back(config@);
    }
}

/// The domain of the call that set a crate up is what a call for it is replaced with, by way of the
/// file: as a string literal, without the quotes it had.
pub proof fn law_domain_kept(
    input: &[TokenTree],
    domain: Tree,
    options: Options,
    args: InitArgs,
    printed: &PrintedFlags,
    setup: Setup,
    ls: Vec<ConfigLine>,
    contents: &[u8],
    found: Config,
    res: Vec<Fragment>,
)
    requires
        call_ensures(init_i18n, (input,), Ok::<InitArgs, Fault>(args)),
        call_ensures(InitArgs::setup, (args, printed), setup),
        call_ensures(Config::write, (&setup.config,), ls),
        call_ensures(Config::read, (contents,), Ok::<Config, Fault>(found)),
        call_ensures(i18n_domain, (&found,), res),
        trees(input@) == seq![domain] + options.tokens(),
        options.cut_right(),
        contents@ == glued(ls@),
        one_line(no_quotes(domain.kind->Literal_0)),
    ensures
        codes(res@) == seq![Code::Str(no_quotes(domain.kind->Literal_0))],
{
    law_options_decide(input, domain, options, args, printed, setup);
    law_config_kept(&setup.config, ls, contents, Ok::<Config, Fault>(found));
}

/// A call for the domain is replaced with one string literal, which stands for the domain.
pub proof fn law_domain_means(config: &Config, res: Vec<Fragment>)
    requires
        call_ensures(i18n_domain, (config,), res),
    ensures
        codes(res@) == seq![Code::Str(config.domain@)],
{
}

/// A line of a file that a newline ends, with a carriage return before it or without.
pub struct EndedLine {
    pub text: Seq<u8>,
    pub with_return: bool,
}

impl EndedLine {
    /// Whether the line is cut at its end.
    pub open spec fn cut_right(self) -> bool {
        &&& forall|i: int| 0 <= i < self.text.len() ==> #[trigger] self.text[i] != 10
        &&& !self.with_return && self.text.len() > 0 ==> self.text.last() != 13
    }

    /// The bytes.
    pub open spec fn bytes(self) -> Seq<u8> {
        if self.with_return {
            self.text + seq![13u8, 10u8]
        } else {
            self.text + seq![10u8]
        }
    }
}

/// The bytes of a file with the given lines, and what stands behind the last newline.
pub open spec fn file_bytes(ended: Seq<EndedLine>, last: Seq<u8>) -> Seq<u8>
    decreases ended.len(),
{
    if ended.len() == 0 {
        last
    } else {
        ended[0].bytes() + file_bytes(ended.drop_first(), last)
    }
}

/// Whether the lines of a file are cut at its newlines.
pub open spec fn file_cut(ended: Seq<EndedLine>, last: Seq<u8>) -> bool {
    &&& forall|i: int| 0 <= i < ended.len() ==> (#[trigger] ended[i]).cut_right()
    &&& forall|i: int| 0 <= i < last.len() ==> #[trigger] last[i] != 10
}

/// The texts of the lines of a file. What stands behind the last newline is a line if it is not
/// empty.
pub open spec fn file_texts(ended: Seq<EndedLine>, last: Seq<u8>) -> Seq<Seq<u8>> {
    let front = Seq::new(ended.len(), |i: int| ended[i].text);
    if last.len() > 0 {
        front.push(last)
    } else {
        front
    }
}

/// A file is cut into its lines.
proof fn lemma_file_lines(ended: Seq<EndedLine>, last: Seq<u8>)
    requires
        file_cut(ended, last),
    ensures
        lines(file_bytes(ended, last)) == file_texts(ended, last),
    decreases ended.len(),
{
    let bytes = file_bytes(ended, last);
    let found = file_texts(ended, last);
    if ended.len() == 0 {
        if last.len() > 0 {
            lemma_line_end_is(last, last.len() as int);
        }
        assert(lines(bytes) =~= found);
    } else {
        let more = ended.drop_first();
        let rest = file_bytes(more, last);
        let first = ended[0];
        assert(first.cut_right());
        assert forall|i: int| 0 <= i < more.len() implies (#[trigger] more[i]).cut_right() by {
            assert(more[i] == ended[i + 1]);
        }
        lemma_file_lines(more, last);
        let head = if first.with_return {
            first.text.push(13u8)
        } else {
            first.text
        };
        assert(bytes =~= head + seq![10u8] + rest);
        assert forall|i: int| 0 <= i < head.len() implies bytes[i] != 10 by {
            if i < first.text.len() {
                assert(first.text[i] != 10);
            }
        }
        lemma_line_end_is(bytes, head.len() as int);
        assert(bytes.take(head.len() as int) =~= head);
        assert(bytes.skip(head.len() as int + 1) =~= rest);
        assert(without_return(head) =~= first.text);
        assert(seq![first.text] + file_texts(more, last) =~= found);
    }
}

/// What is wrong with line `i` of a configuration, if anything is: it is missing, or is not text.
pub open spec fn text_fault(ls: Seq<Seq<u8>>, i: int) -> Option<Fault> {
    if i >= ls.len() {
        Some(Fault::InvalidConfig)
    } else if !valid_utf8(ls[i]) {
        Some(Fault::UnreadableConfig)
    } else {
        None
    }
}

/// What is wrong with line `i` of a configuration, which holds a setting, if anything is: it is
/// missing, is not text, or is neither `true` nor `false`.
pub open spec fn setting_fault(ls: Seq<Seq<u8>>, i: int, other: Fault) -> Option<Fault> {
    if text_fault(ls, i) is Some {
        text_fault(ls, i)
    } else if decode_utf8(ls[i]) != "true"@ && decode_utf8(ls[i]) != "false"@ {
        Some(other)
    } else {
        None
    }
}

/// A file is read as a configuration line by line: the domain, the three settings and the languages.
/// It is refused for the first line that is wrong. Lines may end with a carriage return and a newline.
pub proof fn law_config_read(
    contents: &[u8],
    ended: Seq<EndedLine>,
    last: Seq<u8>,
    res: Result<Config, Fault>,
)
    requires
        call_ensures(Config::read, (contents,), res),
        contents@ == file_bytes(ended, last),
        file_cut(ended, last),
    ensures
        ({
            let ls = file_texts(ended, last);
            let po = setting_fault(ls, 1, Fault::BadMakePo);
            let mo = setting_fault(ls, 2, Fault::BadMakeMo);
            let location = setting_fault(ls, 3, Fault::BadWriteLoc);
            if text_fault(ls, 0) is Some {
                res matches Err(fault) && Some(fault) == text_fault(ls, 0)
            } else if po is Some {
                res matches Err(fault) && Some(fault) == po
            } else if mo is Some {
                res matches Err(fault) && Some(fault) == mo
            } else if location is Some {
                res matches Err(fault) && Some(fault) == location
            } else if exists|i: int| 4 <= i < ls.len() && !valid_utf8(#[trigger] ls[i]) {
                res matches Err(fault) && fault == Fault::UnreadableConfig
            } else {
                res matches Ok(config) && {
                    &&& config.domain@ == decode_utf8(ls[0])
                    &&& config.make_po <==> decode_utf8(ls[1]) == "true"@
                    &&& config.make_mo <==> decode_utf8(ls[2]) == "true"@
                    &&& config.write_loc <==> decode_utf8(ls[3]) == "true"@
                    &&& config.langs@.len() == ls.len() - 4
                    &&& forall|i: int|
                        0 <= i < config.langs@.len() ==> (#[trigger] config.langs@[i])@
                            == decode_utf8(ls[4 + i])
                }
            }
        }),
{
    lemma_file_lines(ended, last);
    reveal_strlit("true");
    reveal_strlit("false");
    assert("true"@ != "false"@) by {
        assert("true"@.len() != "false"@.len());
    }
    if res is Ok {
        let config = res->Ok_0;
        assert(config@.langs.len() == config.langs@.len());
        assert forall|i: int| 0 <= i < config.langs@.len() implies (#[trigger] config.langs@[i])@
            == config@.langs[i] by {}
    }
}

/// Lines put together are one text behind the other, each with a newline.
pub proof fn law_lines_together(a: Seq<Seq<char>>, line: Seq<char>)
    ensures
        text_of_lines(Seq::empty()) == Seq::<char>::empty(),
        text_of_lines(a.push(line)) == text_of_lines(a) + line.push('\n'),
{
    reveal_strlit("\n");
    assert(a.push(line).drop_last() =~= a);
    assert(text_of_lines(a.push(line)) =~= text_of_lines(a) + line.push('\n'));
}

} // verus!
