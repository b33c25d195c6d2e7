//! A configuration is read back as it was written.

use vstd::prelude::*;
use vstd::utf8::decode_utf8;
use vstd::utf8::encode_scalar;
use vstd::utf8::encode_utf8;
use vstd::utf8::encode_utf8_decode_utf8;
use vstd::utf8::encode_utf8_valid_utf8;
use vstd::utf8::last_continuation_byte;
use vstd::utf8::leading_byte_width_1;
use vstd::utf8::leading_byte_width_2;
use vstd::utf8::leading_byte_width_3;
use vstd::utf8::leading_byte_width_4;
use vstd::utf8::second_last_continuation_byte;
use vstd::utf8::third_last_continuation_byte;
use vstd::utf8::valid_utf8;

use crate::code::Code;
use crate::config::config_lines;
use crate::config::config_of;
use crate::config::lemma_encode_concat;
use crate::config::lemma_line_end_is;
use crate::config::line_flag;
use crate::config::line_text;
use crate::config::lines;
use crate::config::lines_from;
use crate::config::text_of_lines;
use crate::config::without_return;
use crate::config::ConfigModel;
use crate::fault::Fault;
use crate::init::config_for;
use crate::init::flag_of;
use crate::init::init_of;
use crate::init::InitArgsModel;
use crate::init::PrintedFlags;
use crate::macros::domain_code;
use crate::text::unquoted;
use crate::token::Tree;
use crate::token::TreeKind;

verus! {

/// Whether a text can stand on a line of its own: it holds no newline, and does not end with a
/// carriage return.
pub open spec fn one_line(text: Seq<char>) -> bool {
    &&& forall|i: int| 0 <= i < text.len() ==> #[trigger] text[i] != '\n'
    &&& text.len() > 0 ==> text.last() != '\r'
}

/// Only a newline is encoded with the byte of a newline, and only a carriage return with that of a
/// carriage return.
proof fn lemma_encoded_char(c: char)
    ensures
        encode_scalar(c as u32).len() > 0,
        forall|i: int|
            0 <= i < encode_scalar(c as u32).len() ==> ((#[trigger] encode_scalar(c as u32)[i]
                == 10 ==> c == '\n') && (encode_scalar(c as u32)[i] == 13 ==> c == '\r')),
{
    let u = c as u32;
    assert(u <= 0x7f ==> leading_byte_width_1(u) == u) by (bit_vector);
    assert(leading_byte_width_2(u) >= 0x80) by (bit_vector);
    assert(leading_byte_width_3(u) >= 0x80) by (bit_vector);
    assert(leading_byte_width_4(u) >= 0x80) by (bit_vector);
    assert(last_continuation_byte(u) >= 0x80) by (bit_vector);
    assert(second_last_continuation_byte(u) >= 0x80) by (bit_vector);
    assert(third_last_continuation_byte(u) >= 0x80) by (bit_vector);
}

/// A text without a newline is encoded without one, and with a carriage return at the end only if it
/// ends with one.
proof fn lemma_encoded_line(text: Seq<char>)
    requires
        forall|i: int| 0 <= i < text.len() ==> #[trigger] text[i] != '\n',
    ensures
        forall|i: int| 0 <= i < encode_utf8(text).len() ==> encode_utf8(text)[i] != 10,
        encode_utf8(text).len() > 0 && encode_utf8(text).last() == 13 ==> text.len() > 0
            && text.last() == '\r',
    decreases text.len(),
{
    if text.len() > 0 {
        lemma_encoded_char(text[0]);
        let rest = text.drop_first();
        assert forall|i: int| 0 <= i < rest.len() implies #[trigger] rest[i] != '\n' by {
            assert(rest[i] == text[i + 1]);
        }
        lemma_encoded_line(rest);
        if rest.len() > 0 {
            lemma_encoded_char(rest[0]);
        }
    }
}

/// A newline is encoded as one byte, and so is a carriage return.
proof fn lemma_encoded_ends()
    ensures
        encode_utf8("\n"@) == seq![10u8],
        encode_utf8(seq!['\r']) == seq![13u8],
{
    reveal_strlit("\n");
    reveal_with_fuel(encode_utf8, 2);
    assert(leading_byte_width_1(10) == 10) by (bit_vector);
    assert(leading_byte_width_1(13) == 13) by (bit_vector);
    assert(encode_utf8("\n"@) =~= seq![10u8]);
    assert(encode_utf8(seq!['\r']) =~= seq![13u8]);
}

/// The lines of a text that begins with a line: that line, without a carriage return at its end, and
/// those of the rest.
proof fn lemma_first_line(line: Seq<char>, rest: Seq<char>)
    requires
        forall|i: int| 0 <= i < line.len() ==> #[trigger] line[i] != '\n',
    ensures
        lines(encode_utf8(line + "\n"@ + rest)) == seq![without_return(encode_utf8(line))] + lines(
            encode_utf8(rest),
        ),
{
    let bytes = encode_utf8(line + "\n"@ + rest);
    let head = encode_utf8(line);
    lemma_encode_concat(line + "\n"@, rest);
    lemma_encode_concat(line, "\n"@);
    lemma_encoded_ends();
    lemma_encoded_line(line);
    assert(bytes =~= head + seq![10u8] + encode_utf8(rest));
    lemma_line_end_is(bytes, head.len() as int);
    assert(bytes.take(head.len() as int) =~= head);
    assert(bytes.skip(head.len() as int + 1) =~= encode_utf8(rest));
}

/// Finds the first newline of a text, or its end.
proof fn lemma_find_newline(text: Seq<char>) -> (at: int)
    ensures
        0 <= at <= text.len(),
        forall|i: int| 0 <= i < at ==> #[trigger] text[i] != '\n',
        at < text.len() ==> text[at] == '\n',
    decreases text.len(),
{
    if text.len() == 0 || text[0] == '\n' {
        0
    } else {
        let rest = text.drop_first();
        let at = lemma_find_newline(rest);
        assert forall|i: int| 0 <= i < at + 1 implies #[trigger] text[i] != '\n' by {
            if i > 0 {
                assert(rest[i - 1] == text[i]);
            }
        }
        at + 1
    }
}

/// Each line of a text is text.
proof fn lemma_lines_are_text(text: Seq<char>)
    ensures
        forall|i: int|
            0 <= i < lines(encode_utf8(text)).len() ==> valid_utf8(
                #[trigger] lines(encode_utf8(text))[i],
            ),
    decreases text.len(),
{
    let at = lemma_find_newline(text);
    let line = text.take(at);
    assert forall|i: int| 0 <= i < line.len() implies #[trigger] line[i] != '\n' by {
        assert(line[i] == text[i]);
    }
    lemma_encoded_line(line);
    encode_utf8_valid_utf8(line);
    if at < text.len() {
        let rest = text.skip(at + 1);
        reveal_strlit("\n");
        assert(text =~= line + "\n"@ + rest);
        lemma_first_line(line, rest);
        lemma_lines_are_text(rest);
        if line.len() > 0 && line.last() == '\r' {
            let kept = line.drop_last();
            assert(line =~= kept + seq!['\r']);
            lemma_encode_concat(kept, seq!['\r']);
            lemma_encoded_ends();
            assert(without_return(encode_utf8(line)) =~= encode_utf8(kept));
            encode_utf8_valid_utf8(kept);
        }
    } else {
        assert(line =~= text);
        lemma_line_end_is(encode_utf8(text), encode_utf8(text).len() as int);
    }
}

/// Lines as one text: the first line, a newline, and the others.
proof fn lemma_text_of_lines(ls: Seq<Seq<char>>)
    requires
        ls.len() > 0,
    ensures
        text_of_lines(ls) == ls[0] + "\n"@ + text_of_lines(ls.drop_first()),
    decreases ls.len(),
{
    if ls.len() == 1 {
        assert(ls.drop_last() =~= Seq::empty());
        assert(ls.drop_first() =~= Seq::empty());
        assert(text_of_lines(ls) =~= ls[0] + "\n"@ + text_of_lines(ls.drop_first()));
    } else {
        lemma_text_of_lines(ls.drop_last());
        assert(ls.drop_last().drop_first() =~= ls.drop_first().drop_last());
        assert(text_of_lines(ls) =~= ls[0] + "\n"@ + text_of_lines(ls.drop_first()));
    }
}

/// Lines that were written are read again one by one.
proof fn lemma_lines_read_back(ls: Seq<Seq<char>>)
    requires
        forall|i: int| 0 <= i < ls.len() ==> one_line(#[trigger] ls[i]),
    ensures
        lines(encode_utf8(text_of_lines(ls))) == ls.map_values(|l: Seq<char>| encode_utf8(l)),
    decreases ls.len(),
{
    if ls.len() == 0 {
        assert(lines(encode_utf8(text_of_lines(ls))) =~= ls.map_values(
            |l: Seq<char>| encode_utf8(l),
        ));
    } else {
        let tail = ls.drop_first();
        assert forall|i: int| 0 <= i < tail.len() implies one_line(#[trigger] tail[i]) by {
            assert(tail[i] == ls[i + 1]);
        }
        lemma_lines_read_back(tail);
        lemma_text_of_lines(ls);
        lemma_first_line(ls[0], text_of_lines(tail));
        lemma_encoded_line(ls[0]);
        assert(lines(encode_utf8(text_of_lines(ls))) =~= ls.map_values(
            |l: Seq<char>| encode_utf8(l),
        ));
    }
}

/// The first lines that were written are read again one by one, whatever follows them.
proof fn lemma_front_read_back(ls: Seq<Seq<char>>, n: int)
    requires
        0 <= n <= ls.len(),
        forall|i: int| 0 <= i < n ==> one_line(#[trigger] ls[i]),
    ensures
        lines(encode_utf8(text_of_lines(ls))).len() >= n,
        forall|i: int|
            0 <= i < n ==> #[trigger] lines(encode_utf8(text_of_lines(ls)))[i] == encode_utf8(ls[i]),
    decreases n,
{
    if n > 0 {
        let tail = ls.drop_first();
        assert forall|i: int| 0 <= i < n - 1 implies one_line(#[trigger] tail[i]) by {
            assert(tail[i] == ls[i + 1]);
        }
        lemma_front_read_back(tail, n - 1);
        lemma_text_of_lines(ls);
        lemma_first_line(ls[0], text_of_lines(tail));
        lemma_encoded_line(ls[0]);
        let read = lines(encode_utf8(text_of_lines(ls)));
        assert forall|i: int| 0 <= i < n implies #[trigger] read[i] == encode_utf8(ls[i]) by {
            if i > 0 {
                assert(read[i] == lines(encode_utf8(text_of_lines(tail)))[i - 1]);
                assert(ls[i] == tail[i - 1]);
            }
        }
    }
}

/// A configuration that is written to a file and read again is the same, if the domain and the
/// languages each fit on a line.
pub proof fn law_config_read_back(config: ConfigModel)
    requires
        one_line(config.domain),
        forall|i: int| 0 <= i < config.langs.len() ==> one_line(#[trigger] config.langs[i]),
    ensures
        config_of(encode_utf8(text_of_lines(config_lines(config)))) == Ok::<ConfigModel, Fault>(
            config,
        ),
{
    let ls = config_lines(config);
    reveal_strlit("true");
    reveal_strlit("false");
    assert("true"@ != "false"@) by {
        assert("true"@.len() != "false"@.len());
    }
    assert forall|i: int| 0 <= i < ls.len() implies one_line(#[trigger] ls[i]) by {
        if i >= 4 {
            assert(ls[i] == config.langs[i - 4]);
        }
    }
    lemma_lines_read_back(ls);
    let bs = lines(encode_utf8(text_of_lines(ls)));
    assert forall|i: int| 0 <= i < bs.len() implies valid_utf8(#[trigger] bs[i]) && decode_utf8(
        bs[i],
    ) == ls[i] by {
        encode_utf8_valid_utf8(ls[i]);
        encode_utf8_decode_utf8(ls[i]);
    }
    assert(line_text(bs, 0) == Ok::<Seq<char>, Fault>(config.domain));
    assert(line_flag(bs, 1, Fault::BadMakePo) == Ok::<bool, Fault>(config.make_po));
    assert(line_flag(bs, 2, Fault::BadMakeMo) == Ok::<bool, Fault>(config.make_mo));
    assert(line_flag(bs, 3, Fault::BadWriteLoc) == Ok::<bool, Fault>(config.write_loc));
    assert(lines_from(bs, 4) is Ok);
    assert(lines_from(bs, 4)->Ok_0 =~= config.langs);
}

/// The domain and the settings are read as they were written, whatever the languages are, if the
/// domain fits on a line.
pub proof fn law_settings_read_back(config: ConfigModel)
    requires
        one_line(config.domain),
    ensures
        config_of(encode_utf8(text_of_lines(config_lines(config)))) matches Ok(found) && {
            &&& found.domain == config.domain
            &&& found.make_po == config.make_po
            &&& found.make_mo == config.make_mo
            &&& found.write_loc == config.write_loc
        },
{
    let ls = config_lines(config);
    let bs = lines(encode_utf8(text_of_lines(ls)));
    reveal_strlit("true");
    reveal_strlit("false");
    assert("true"@ != "false"@) by {
        assert("true"@.len() != "false"@.len());
    }
    lemma_lines_are_text(text_of_lines(ls));
    assert forall|i: int| 0 <= i < 4 implies one_line(#[trigger] ls[i]) by {}
    lemma_front_read_back(ls, 4);
    assert forall|i: int| 0 <= i < 4 implies decode_utf8(#[trigger] bs[i]) == ls[i] by {
        encode_utf8_decode_utf8(ls[i]);
    }
    assert(line_text(bs, 0) == Ok::<Seq<char>, Fault>(config.domain));
    assert(line_flag(bs, 1, Fault::BadMakePo) == Ok::<bool, Fault>(config.make_po));
    assert(line_flag(bs, 2, Fault::BadMakeMo) == Ok::<bool, Fault>(config.make_mo));
    assert(line_flag(bs, 3, Fault::BadWriteLoc) == Ok::<bool, Fault>(config.write_loc));
    assert(lines_from(bs, 4) is Ok);
}

/// What sets the translation of a crate up is what the other macros read, whatever the options.
pub proof fn law_setup_kept(args: InitArgsModel, printed: PrintedFlags)
    requires
        one_line(args.domain),
        forall|i: int| 0 <= i < args.langs.len() ==> one_line(#[trigger] args.langs[i]),
    ensures
        ({
            let config = config_for(args, printed);
            &&& config.domain == args.domain
            &&& config.langs == args.langs
            &&& config_of(encode_utf8(text_of_lines(config_lines(config)))) == Ok::<
                ConfigModel,
                Fault,
            >(config)
        }),
{
    law_config_read_back(config_for(args, printed));
}

/// A text without quotes stays the same when quotes are taken out.
proof fn lemma_unquoted_same(text: Seq<char>)
    requires
        forall|i: int| 0 <= i < text.len() ==> #[trigger] text[i] != '"',
    ensures
        unquoted(text) == text,
    decreases text.len(),
{
    reveal(Seq::filter);
    if text.len() > 0 {
        let front = text.drop_last();
        assert forall|i: int| 0 <= i < front.len() implies #[trigger] front[i] != '"' by {
            assert(front[i] == text[i]);
        }
        lemma_unquoted_same(front);
        assert(front.push(text.last()) =~= text);
    }
}

/// A string literal without its quotes.
proof fn lemma_unquoted_literal(text: Seq<char>)
    requires
        forall|i: int| 0 <= i < text.len() ==> #[trigger] text[i] != '"',
    ensures
        unquoted(seq!['"'] + text + seq!['"']) == text,
{
    let quote = seq!['"'];
    let keep = |c: char| c != '"';
    assert(unquoted(quote) =~= Seq::<char>::empty()) by {
        reveal_with_fuel(Seq::filter, 2);
        assert(quote.drop_last() =~= Seq::<char>::empty());
    }
    lemma_unquoted_same(text);
    Seq::filter_distributes_over_add(quote, text, keep);
    Seq::filter_distributes_over_add(quote + text, quote, keep);
    assert(Seq::<char>::empty() + text + Seq::<char>::empty() =~= text);
}

/// The domain that a crate is set up with is the one that it is given back: a call of
/// [`i18n_domain`](crate::i18n_domain) is replaced with it as a string literal, whatever the options
/// and the languages are.
pub proof fn law_domain_given_back(input: Seq<Tree>, printed: PrintedFlags, domain: Seq<char>)
    requires
        init_of(input) is Ok,
        input[0].kind == TreeKind::Literal(seq!['"'] + domain + seq!['"']),
        forall|i: int| 0 <= i < domain.len() ==> #[trigger] domain[i] != '"',
        one_line(domain),
    ensures
        ({
            let config = config_for(init_of(input)->Ok_0, printed);
            config_of(encode_utf8(text_of_lines(config_lines(config)))) matches Ok(found)
                && domain_code(found) == seq![Code::Str(domain)]
        }),
{
    let config = config_for(init_of(input)->Ok_0, printed);
    assert(config.domain == domain) by {
        lemma_unquoted_literal(domain);
    }
    law_settings_read_back(config);
}

/// An option that is not given is on.
pub proof fn law_option_default(printed: Seq<char>)
    ensures
        flag_of(None, printed),
{
}

/// An option with a single identifier for its value is on if that is `true`, and else off.
pub proof fn law_option_given(value: Tree, printed: Seq<char>)
    requires
        value.kind is Ident,
    ensures
        flag_of(Some(seq![value]), printed) <==> value.kind == TreeKind::Ident("true"@),
{
}

} // verus!
