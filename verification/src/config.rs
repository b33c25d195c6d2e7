//! The configuration that one macro call leaves for the others, and where it is kept.

use vstd::prelude::*;
use vstd::slice::slice_subrange;
use vstd::slice::slice_to_vec;
use vstd::string::StrSliceExecFns;
use vstd::utf8::decode_utf8;
use vstd::utf8::encode_utf8;
use vstd::utf8::valid_utf8;

use crate::fault::Fault;
use crate::text::decode;
use crate::text::join2;
use crate::text::str_eq;
use crate::text::texts;

verus! {

/// How a crate is translated.
#[derive(Debug, PartialEq, Eq)]
pub struct Config {
    /// The translation domain.
    pub domain: String,
    /// Whether `.po` files are made from the template of translations.
    pub make_po: bool,
    /// Whether `.mo` files are made from the `.po` files.
    pub make_mo: bool,
    /// Whether the template says where each message comes from.
    pub write_loc: bool,
    /// The languages that the crate is translated into.
    pub langs: Vec<String>,
}

/// The model of a [`Config`].
#[verifier::ext_equal]
pub struct ConfigModel {
    pub domain: Seq<char>,
    pub make_po: bool,
    pub make_mo: bool,
    pub write_loc: bool,
    pub langs: Seq<Seq<char>>,
}

impl View for Config {
    type V = ConfigModel;

    open spec fn view(&self) -> ConfigModel {
        ConfigModel {
            domain: self.domain@,
            make_po: self.make_po,
            make_mo: self.make_mo,
            write_loc: self.write_loc,
            langs: texts(self.langs@),
        }
    }
}

/// The position of the first newline, or the end where there is none.
pub open spec fn line_end(bytes: Seq<u8>) -> nat
    decreases bytes.len(),
{
    if bytes.len() == 0 || bytes[0] == 10 {
        0
    } else {
        1 + line_end(bytes.drop_first())
    }
}

/// A line that a newline ended, without the carriage return before that newline.
pub open spec fn without_return(line: Seq<u8>) -> Seq<u8> {
    if line.len() > 0 && line.last() == 13 {
        line.drop_last()
    } else {
        line
    }
}

/// The lines of a file. Each ends with a newline, or with a carriage return and a newline; the last
/// may end with the file.
pub open spec fn lines(bytes: Seq<u8>) -> Seq<Seq<u8>>
    decreases bytes.len(),
{
    if bytes.len() == 0 {
        Seq::empty()
    } else if line_end(bytes) < bytes.len() {
        seq![without_return(bytes.take(line_end(bytes) as int))] + lines(
            bytes.skip(line_end(bytes) as int + 1),
        )
    } else {
        seq![bytes]
    }
}

/// The text of line `i`. There has to be one, and it has to be valid UTF-8.
pub open spec fn line_text(ls: Seq<Seq<u8>>, i: int) -> Result<Seq<char>, Fault> {
    if i >= ls.len() {
        Err(Fault::InvalidConfig)
    } else if !valid_utf8(ls[i]) {
        Err(Fault::UnreadableConfig)
    } else {
        Ok(decode_utf8(ls[i]))
    }
}

/// The setting on line `i`, which is `true` or `false`; `fault` is for any other text.
pub open spec fn line_flag(ls: Seq<Seq<u8>>, i: int, fault: Fault) -> Result<bool, Fault> {
    match line_text(ls, i) {
        Err(other) => Err(other),
        Ok(text) => if text == "true"@ {
            Ok(true)
        } else if text == "false"@ {
            Ok(false)
        } else {
            Err(fault)
        },
    }
}

/// The texts of all lines from line `i` on.
pub open spec fn lines_from(ls: Seq<Seq<u8>>, i: int) -> Result<Seq<Seq<char>>, Fault> {
    if exists|j: int| i <= j < ls.len() && !valid_utf8(#[trigger] ls[j]) {
        Err(Fault::UnreadableConfig)
    } else if i < ls.len() {
        Ok(Seq::new((ls.len() - i) as nat, |j: int| decode_utf8(ls[i + j])))
    } else {
        Ok(Seq::empty())
    }
}

/// The configuration that a file holds: the domain, the three settings and the languages, each on a
/// line of its own. The first line that is missing or wrong is what the file is refused for.
pub open spec fn config_of(bytes: Seq<u8>) -> Result<ConfigModel, Fault> {
    let ls = lines(bytes);
    match (
        line_text(ls, 0),
        line_flag(ls, 1, Fault::BadMakePo),
        line_flag(ls, 2, Fault::BadMakeMo),
        line_flag(ls, 3, Fault::BadWriteLoc),
        lines_from(ls, 4),
    ) {
        (Err(fault), _, _, _, _) => Err(fault),
        (_, Err(fault), _, _, _) => Err(fault),
        (_, _, Err(fault), _, _) => Err(fault),
        (_, _, _, Err(fault), _) => Err(fault),
        (_, _, _, _, Err(fault)) => Err(fault),
        (Ok(domain), Ok(make_po), Ok(make_mo), Ok(write_loc), Ok(langs)) => Ok(
            ConfigModel { domain, make_po, make_mo, write_loc, langs },
        ),
    }
}

/// The word for a setting.
pub open spec fn flag_text(flag: bool) -> Seq<char> {
    if flag {
        "true"@
    } else {
        "false"@
    }
}

/// The lines of the file that holds a configuration.
pub open spec fn config_lines(config: ConfigModel) -> Seq<Seq<char>> {
    seq![
        config.domain,
        flag_text(config.make_po),
        flag_text(config.make_mo),
        flag_text(config.write_loc),
    ] + config.langs
}

/// Lines as one text, each with a newline behind it.
pub open spec fn text_of_lines(ls: Seq<Seq<char>>) -> Seq<char>
    decreases ls.len(),
{
    if ls.len() == 0 {
        Seq::empty()
    } else {
        text_of_lines(ls.drop_last()) + ls.last() + "\n"@
    }
}

/// The bytes of each line.
pub open spec fn byte_lines(ls: Seq<Vec<u8>>) -> Seq<Seq<u8>> {
    Seq::new(ls.len(), |i: int| ls[i]@)
}

pub proof fn lemma_line_end_is(bytes: Seq<u8>, n: int)
    requires
        0 <= n <= bytes.len(),
        forall|i: int| 0 <= i < n ==> bytes[i] != 10,
        n < bytes.len() ==> bytes[n] == 10,
    ensures
        line_end(bytes) == n,
    decreases bytes.len(),
{
    if n > 0 {
        assert forall|i: int| 0 <= i < n - 1 implies bytes.drop_first()[i] != 10 by {
            assert(bytes.drop_first()[i] == bytes[i + 1]);
        }
        lemma_line_end_is(bytes.drop_first(), n - 1);
    }
}

/// Splits a file into its lines.
fn split_lines(contents: &[u8]) -> (res: Vec<Vec<u8>>)
    ensures
        byte_lines(res@) == lines(contents@),
{
    let mut res: Vec<Vec<u8>> = Vec::new();
    let mut start: usize = 0;
    let len = contents.len();
    assert(contents@.skip(0) =~= contents@);
    while start < len
        invariant
            start <= len,
            len == contents@.len(),
            lines(contents@) =~= byte_lines(res@) + lines(contents@.skip(start as int)),
        decreases len - start,
    {
        let mut end: usize = start;
        while end < len && contents[end] != 10
            invariant
                start <= end <= len,
                len == contents@.len(),
                forall|i: int| start <= i < end ==> contents@[i] != 10,
            decreases len - end,
        {
            end = end + 1;
        }
        let ghost rest = contents@.skip(start as int);
        let ghost before = res@;
        proof {
            lemma_line_end_is(rest, end - start);
            assert(rest.take(end - start) =~= contents@.subrange(start as int, end as int));
        }
        if end < len {
            let stop = if end > start && contents[end - 1] == 13 {
                end - 1
            } else {
                end
            };
            let line = slice_to_vec(slice_subrange(contents, start, stop));
            assert(line@ =~= without_return(rest.take(end - start)));
            assert(rest.skip(end - start + 1) =~= contents@.skip(end + 1));
            res.push(line);
            assert(byte_lines(res@) =~= byte_lines(before).push(line@));
            start = end + 1;
        } else {
            let line = slice_to_vec(slice_subrange(contents, start, end));
            assert(line@ =~= rest);
            res.push(line);
            assert(byte_lines(res@) =~= byte_lines(before).push(line@));
            assert(contents@.skip(end as int) =~= Seq::<u8>::empty());
            start = end;
        }
    }
    assert(contents@.skip(start as int) =~= Seq::<u8>::empty());
    res
}

/// Reads the text of line `i`.
fn read_text(ls: &Vec<Vec<u8>>, i: usize) -> (res: Result<String, Fault>)
    ensures
        match res {
            Ok(text) => line_text(byte_lines(ls@), i as int) == Ok::<Seq<char>, Fault>(text@),
            Err(fault) => line_text(byte_lines(ls@), i as int) == Err::<Seq<char>, Fault>(fault),
        },
{
    if i >= ls.len() {
        return Err(Fault::InvalidConfig);
    }
    match decode(slice_to_vec(ls[i].as_slice())) {
        Some(text) => Ok(text),
        None => Err(Fault::UnreadableConfig),
    }
}

/// Reads the setting on line `i`.
fn read_flag(ls: &Vec<Vec<u8>>, i: usize, fault: Fault) -> (res: Result<bool, Fault>)
    ensures
        res == line_flag(byte_lines(ls@), i as int, fault),
{
    match read_text(ls, i) {
        Err(other) => Err(other),
        Ok(text) => if str_eq(text.as_str(), "true") {
            Ok(true)
        } else if str_eq(text.as_str(), "false") {
            Ok(false)
        } else {
            Err(fault)
        },
    }
}

/// Reads the texts of all lines from line `first` on.
fn read_texts(ls: &Vec<Vec<u8>>, first: usize) -> (res: Result<Vec<String>, Fault>)
    ensures
        match res {
            Ok(found) => lines_from(byte_lines(ls@), first as int) == Ok::<Seq<Seq<char>>, Fault>(
                texts(found@),
            ),
            Err(fault) => lines_from(byte_lines(ls@), first as int) == Err::<Seq<Seq<char>>, Fault>(
                fault,
            ),
        },
{
    let mut found: Vec<String> = Vec::new();
    let mut i: usize = first;
    while i < ls.len()
        invariant
            first <= i,
            i <= ls@.len() || i == first,
            found@.len() == i - first,
            forall|j: int| first <= j < i ==> valid_utf8(#[trigger] byte_lines(ls@)[j]),
            forall|j: int|
                0 <= j < found@.len() ==> (#[trigger] found@[j])@ == decode_utf8(
                    byte_lines(ls@)[first + j],
                ),
        decreases ls@.len() - i,
    {
        match read_text(ls, i) {
            Ok(text) => {
                found.push(text);
            },
            Err(fault) => {
                assert(!valid_utf8(byte_lines(ls@)[i as int]));
                return Err(fault);
            },
        }
        i = i + 1;
    }
    assert(texts(found@) =~= lines_from(byte_lines(ls@), first as int)->Ok_0);
    Ok(found)
}

/// A line to write to the file that holds a configuration.
#[derive(Debug, PartialEq, Eq)]
pub struct ConfigLine {
    /// The bytes of the line and its newline.
    pub bytes: Vec<u8>,
    /// The reason for which the call is refused where they cannot be written.
    pub fault: Fault,
}

/// What a file holds once lines are written to it, one behind the other.
pub open spec fn written(ls: Seq<ConfigLine>) -> Seq<u8>
    decreases ls.len(),
{
    if ls.len() == 0 {
        Seq::empty()
    } else {
        written(ls.drop_last()) + ls.last().bytes@
    }
}

/// The reason for which a call is refused where line `i` of a configuration cannot be written.
pub open spec fn line_fault(i: int) -> Fault {
    if i == 0 {
        Fault::DomainNotWritten
    } else if i == 1 {
        Fault::MakePoNotWritten
    } else if i == 2 {
        Fault::MakeMoNotWritten
    } else if i == 3 {
        Fault::WriteLocNotWritten
    } else {
        Fault::LangNotWritten
    }
}

/// Whether `out` are the lines to write for `ls`.
pub open spec fn lines_for(out: Seq<ConfigLine>, ls: Seq<Seq<char>>) -> bool {
    &&& out.len() == ls.len()
    &&& forall|i: int|
        0 <= i < out.len() ==> (#[trigger] out[i]).bytes@ == encode_utf8(ls[i] + "\n"@)
            && out[i].fault == line_fault(i)
}

/// One text behind another is encoded as the one encoding behind the other.
pub proof fn lemma_encode_concat(a: Seq<char>, b: Seq<char>)
    ensures
        encode_utf8(a + b) == encode_utf8(a) + encode_utf8(b),
    decreases a.len(),
{
    if a.len() == 0 {
        assert(a + b =~= b);
        assert(encode_utf8(a) + encode_utf8(b) =~= encode_utf8(b));
    } else {
        assert((a + b).drop_first() =~= a.drop_first() + b);
        lemma_encode_concat(a.drop_first(), b);
        assert(encode_utf8(a + b) =~= encode_utf8(a) + encode_utf8(b));
    }
}

/// Lines that are written one by one give the file with all of them.
proof fn lemma_written(out: Seq<ConfigLine>, ls: Seq<Seq<char>>)
    requires
        lines_for(out, ls),
    ensures
        written(out) == encode_utf8(text_of_lines(ls)),
    decreases ls.len(),
{
    if ls.len() > 0 {
        lemma_written(out.drop_last(), ls.drop_last());
        lemma_encode_concat(text_of_lines(ls.drop_last()), ls.last() + "\n"@);
        assert(text_of_lines(ls) =~= text_of_lines(ls.drop_last()) + (ls.last() + "\n"@));
    } else {
        assert(written(out) =~= encode_utf8(text_of_lines(ls)));
    }
}

/// Adds a line to those to write.
fn push_line(
    out: &mut Vec<ConfigLine>,
    line: &str,
    fault: Fault,
    Ghost(done): Ghost<Seq<Seq<char>>>,
)
    requires
        lines_for(old(out)@, done),
        fault == line_fault(done.len() as int),
    ensures
        lines_for(final(out)@, done.push(line@)),
{
    let text = join2(line, "\n");
    out.push(ConfigLine { bytes: text.as_str().as_bytes_vec(), fault });
}

/// Gives the word for a setting.
fn flag_word(flag: bool) -> (res: &'static str)
    ensures
        res@ == flag_text(flag),
{
    if flag {
        "true"
    } else {
        "false"
    }
}

impl Config {
    /// Reads the configuration that a file holds.
    pub fn read(contents: &[u8]) -> (res: Result<Config, Fault>)
        ensures
            match res {
                Ok(config) => config_of(contents@) == Ok::<ConfigModel, Fault>(config@),
                Err(fault) => config_of(contents@) == Err::<ConfigModel, Fault>(fault),
            },
    {
        let ls = split_lines(contents);
        let domain = match read_text(&ls, 0) {
            Ok(text) => text,
            Err(fault) => {
                return Err(fault);
            },
        };
        let make_po = match read_flag(&ls, 1, Fault::BadMakePo) {
            Ok(flag) => flag,
            Err(fault) => {
                return Err(fault);
            },
        };
        let make_mo = match read_flag(&ls, 2, Fault::BadMakeMo) {
            Ok(flag) => flag,
            Err(fault) => {
                return Err(fault);
            },
        };
        let write_loc = match read_flag(&ls, 3, Fault::BadWriteLoc) {
            Ok(flag) => flag,
            Err(fault) => {
                return Err(fault);
            },
        };
        let langs = match read_texts(&ls, 4) {
            Ok(found) => found,
            Err(fault) => {
                return Err(fault);
            },
        };
        Ok(Config { domain, make_po, make_mo, write_loc, langs })
    }

    /// Gives the lines of the file that holds the configuration, in the order in which they are to
    /// be written.
    pub fn write(&self) -> (res: Vec<ConfigLine>)
        ensures
            lines_for(res@, config_lines(self@)),
            written(res@) == encode_utf8(text_of_lines(config_lines(self@))),
    {
        let ghost ls = config_lines(self@);
        let mut out: Vec<ConfigLine> = Vec::new();
        push_line(&mut out, self.domain.as_str(), Fault::DomainNotWritten, Ghost(ls.take(0)));
        assert(ls.take(0).push(self.domain@) =~= ls.take(1));
        push_line(&mut out, flag_word(self.make_po), Fault::MakePoNotWritten, Ghost(ls.take(1)));
        assert(ls.take(1).push(flag_text(self.make_po)) =~= ls.take(2));
        push_line(&mut out, flag_word(self.make_mo), Fault::MakeMoNotWritten, Ghost(ls.take(2)));
        assert(ls.take(2).push(flag_text(self.make_mo)) =~= ls.take(3));
        push_line(&mut out, flag_word(self.write_loc), Fault::WriteLocNotWritten, Ghost(ls.take(3)));
        assert(ls.take(3).push(flag_text(self.write_loc)) =~= ls.take(4));
        let mut i: usize = 0;
        while i < self.langs.len()
            invariant
                i <= self.langs@.len(),
                ls == config_lines(self@),
                lines_for(out@, ls.take(4 + i)),
            decreases self.langs@.len() - i,
        {
            push_line(&mut out, self.langs[i].as_str(), Fault::LangNotWritten, Ghost(ls.take(4 + i)));
            assert(ls.take(4 + i).push(self.langs@[i as int]@) =~= ls.take(4 + i + 1));
            i = i + 1;
        }
        assert(ls.take(4 + i) =~= ls);
        proof {
            lemma_written(out@, ls);
        }
        out
    }
}

} // verus!
