//! What is listed for a message, line by line.

use vstd::prelude::*;

use crate::config::Config;
use crate::fault::Fault;
use crate::laws::text_laws::is_digit;
use crate::laws::text_laws::number;
use crate::laws::token_laws::lemma_all_blank;
use crate::laws::token_laws::reads_as;
use crate::laws::token_laws::says_nothing;
use crate::message::entry_key;
use crate::message::entry_text;
use crate::message::location_line;
use crate::message::optional_location;
use crate::message::pot_file;
use crate::message::wanted_location;
use crate::message::Location;
use crate::message::LocationModel;
use crate::message::Message;
use crate::message::Printed;
use crate::message::PrintedModel;
use crate::text::decimal;
use crate::text::occurs;
use crate::text::occurs_at;
use crate::token::trees;

verus! {

/// Lines as one text, each with a newline behind it.
pub open spec fn as_lines(ls: Seq<Seq<char>>) -> Seq<char>
    decreases ls.len(),
{
    if ls.len() == 0 {
        Seq::empty()
    } else {
        ls[0].push('\n') + as_lines(ls.drop_first())
    }
}

/// Lines behind lines are one text behind the other.
pub proof fn lemma_as_lines(a: Seq<Seq<char>>, b: Seq<Seq<char>>)
    ensures
        as_lines(a + b) == as_lines(a) + as_lines(b),
    decreases a.len(),
{
    if a.len() == 0 {
        assert(a + b =~= b);
    } else {
        assert((a + b).drop_first() =~= a.drop_first() + b);
        lemma_as_lines(a.drop_first(), b);
        assert(as_lines(a + b) =~= as_lines(a) + as_lines(b));
    }
}

/// One line with a newline behind it.
pub proof fn lemma_as_line(line: Seq<char>)
    ensures
        as_lines(seq![line]) == line.push('\n'),
{
    reveal_with_fuel(as_lines, 2);
    assert(seq![line].drop_first() =~= Seq::<Seq<char>>::empty());
    assert(as_lines(seq![line]) =~= line.push('\n'));
}

/// Whether digits are the decimal notation of a number.
pub open spec fn notes(digits: Seq<char>, n: int) -> bool {
    &&& digits.len() > 0
    &&& forall|i: int| 0 <= i < digits.len() ==> is_digit(#[trigger] digits[i])
    &&& digits[0] == '0' ==> digits.len() == 1
    &&& number(digits) == n
}

/// A number has one decimal notation.
proof fn lemma_notes(digits: Seq<char>, n: nat)
    requires
        notes(digits, n as int),
    ensures
        digits == decimal(n),
    decreases digits.len(),
{
    let front = digits.drop_last();
    assert(is_digit(digits.last()));
    if digits.len() == 1 {
        assert(front =~= Seq::<char>::empty());
        assert(digits =~= decimal(n));
    } else {
        let m = number(front);
        assert forall|i: int| 0 <= i < front.len() implies is_digit(#[trigger] front[i]) by {
            assert(front[i] == digits[i]);
        }
        lemma_number_positive(front);
        assert(n == 10 * m + (digits.last() as int - '0' as int));
        assert(n / 10 == m && n % 10 == digits.last() as int - '0' as int);
        lemma_notes(front, (n / 10) as nat);
        assert(digits =~= front.push(digits.last()));
        assert(digits =~= decimal(n));
    }
}

/// Digits without a leading zero stand for a number above zero.
proof fn lemma_number_positive(digits: Seq<char>)
    requires
        digits.len() > 0,
        forall|i: int| 0 <= i < digits.len() ==> is_digit(#[trigger] digits[i]),
        digits[0] != '0',
    ensures
        number(digits) > 0,
    decreases digits.len(),
{
    reveal_with_fuel(number, 2);
    assert(is_digit(digits.last()));
    if digits.len() > 1 {
        let front = digits.drop_last();
        assert forall|i: int| 0 <= i < front.len() implies is_digit(#[trigger] front[i]) by {
            assert(front[i] == digits[i]);
        }
        lemma_number_positive(front);
    } else {
        assert(is_digit(digits[0]));
        assert(digits.drop_last() =~= Seq::<char>::empty());
    }
}

/// The line that tells where a message comes from, where that is to be told: the configuration wants
/// it, and the path is not absolute.
pub open spec fn place_lines(
    config: Config,
    location: Option<Location>,
    digits: Seq<char>,
) -> Seq<Seq<char>> {
    match location {
        Some(place) => if config.write_loc && !place.absolute {
            seq!["#: "@ + place.path@ + ":"@ + digits]
        } else {
            Seq::empty()
        },
        None => Seq::empty(),
    }
}

/// The lines for the context of a message, if it has one.
pub open spec fn context_lines(message: Message, context: Seq<char>) -> Seq<Seq<char>> {
    if message.context is Some {
        seq!["msgctxt "@ + context]
    } else {
        Seq::empty()
    }
}

/// The lines for the translation of a message, which is left open: for its plural too, if it has one.
pub open spec fn translation_lines(message: Message, plural: Seq<char>) -> Seq<Seq<char>> {
    if message.plural is Some {
        seq!["msgid_plural "@ + plural, "msgstr[0] \"\""@]
    } else {
        seq!["msgstr \"\""@]
    }
}

/// Whether a text holds another.
pub open spec fn text_in(whole: Seq<char>, part: Seq<char>) -> bool {
    exists|before: Seq<char>, behind: Seq<char>| whole == #[trigger] (before + part + behind)
}

/// The library finds texts by the same rule.
proof fn lemma_text_in(whole: Seq<char>, part: Seq<char>)
    ensures
        occurs(whole, part) <==> text_in(whole, part),
{
    if occurs(whole, part) {
        let i = choose|i: int| occurs_at(whole, part, i);
        assert(whole =~= whole.take(i) + part + whole.skip(i + part.len()));
    }
    if text_in(whole, part) {
        let (before, behind) = choose|before: Seq<char>, behind: Seq<char>|
            whole == #[trigger] (before + part + behind);
        assert(whole.subrange(before.len() as int, (before.len() + part.len()) as int) =~= part);
        assert(occurs_at(whole, part, before.len() as int));
    }
}

/// The entry of a message is these lines: an empty one, where the message comes from, its context, the
/// message, and its plural with an open translation for each form. Which of them there are depends on
/// nothing but whether the message has that part. A message is listed if and only if it is a literal
/// that says something, and the lines for its context and the message itself are not in the template
/// already.
pub proof fn law_entry_lines(
    message: &Message,
    config: &Config,
    printed: &Printed,
    pot: &str,
    location: &Option<Location>,
    content: Seq<char>,
    plural: Seq<char>,
    context: Seq<char>,
    digits: Seq<char>,
    res: Option<String>,
)
    requires
        call_ensures(Message::write, (message, config, printed, pot, location), res),
        reads_as(trees(message.content@), printed.content@, content),
        message.plural matches Some(ts) ==> reads_as(trees(ts@), printed.plural@, plural),
        message.context matches Some(t) ==> reads_as(seq![t@], printed.context@, context),
        location matches Some(place) ==> notes(digits, place.line as int),
    ensures
        res is Some <==> {
            &&& message.writable
            &&& exists|i: int|
                0 <= i < message.content@.len() && !says_nothing(
                    #[trigger] trees(message.content@)[i],
                )
            &&& !text_in(pot@, as_lines(context_lines(*message, context)) + "msgid "@ + content)
        },
        res matches Some(entry) ==> entry@ == as_lines(
            seq![Seq::<char>::empty()] + place_lines(*config, *location, digits) + context_lines(
                *message,
                context,
            ) + seq!["msgid "@ + content] + translation_lines(*message, plural),
        ),
{
    let texts = message@.texts(printed@);
    let wanted = wanted_location(config@, optional_location(*location));
    let p = place_lines(*config, *location, digits);
    assert(trees(message.content@).len() == message.content@.len());
    lemma_all_blank(trees(message.content@));
    if let Some(place) = location {
        lemma_notes(digits, place.line as nat);
    }
    assert(texts.content == content);
    lemma_place(p, wanted, digits);
    lemma_context_lines(*message, context, texts);
    lemma_text_in(pot@, entry_key(message@, texts));
    lemma_entry(*message, texts, p, wanted, plural, context);
}

/// The lines of an entry as text.
#[verifier::spinoff_prover]
proof fn lemma_entry(
    message: Message,
    texts: PrintedModel,
    p: Seq<Seq<char>>,
    wanted: Option<LocationModel>,
    plural: Seq<char>,
    context: Seq<char>,
)
    requires
        as_lines(p) == location_line(wanted),
        message.context is Some ==> texts.context == context,
        message.plural is Some ==> texts.plural == plural,
    ensures
        entry_text(message@, texts, wanted) == as_lines(
            seq![Seq::<char>::empty()] + p + context_lines(message, context) + seq![
                "msgid "@ + texts.content,
            ] + translation_lines(message, plural),
        ),
{
    reveal_strlit("\n");
    let e = seq![Seq::<char>::empty()];
    let c = context_lines(message, context);
    let m = seq!["msgid "@ + texts.content];
    let t = translation_lines(message, plural);
    let key = entry_key(message@, texts);
    lemma_as_lines(e, p);
    lemma_as_lines(e + p, c);
    lemma_as_lines(e + p + c, m);
    lemma_as_lines(e + p + c + m, t);
    lemma_as_line(Seq::<char>::empty());
    lemma_as_line("msgid "@ + texts.content);
    lemma_context_lines(message, context, texts);
    lemma_translation_lines(message, plural);
    let front = "\n"@ + location_line(wanted) + key;
    assert(as_lines(e) =~= "\n"@);
    assert(as_lines(e + p + c + m) =~= front + seq!['\n']);
    assert(as_lines(e + p + c + m + t) =~= front + (seq!['\n'] + as_lines(t)));
    assert(entry_text(message@, texts, wanted) =~= front + (seq!['\n'] + as_lines(t)));
}

/// The line for a place is the one that the library writes.
proof fn lemma_place(p: Seq<Seq<char>>, wanted: Option<LocationModel>, digits: Seq<char>)
    requires
        p == match wanted {
            Some(place) => if place.absolute {
                Seq::empty()
            } else {
                seq!["#: "@ + place.path + ":"@ + digits]
            },
            None => Seq::empty(),
        },
        wanted matches Some(place) ==> digits == decimal(place.line),
    ensures
        as_lines(p) == location_line(wanted),
{
    reveal_strlit("\n");
    if p.len() > 0 {
        lemma_as_line(p[0]);
        assert(p =~= seq![p[0]]);
    }
    assert(as_lines(p) =~= location_line(wanted));
}

/// The lines for a context and the message are the key of the entry.
proof fn lemma_context_lines(message: Message, context: Seq<char>, texts: PrintedModel)
    requires
        message.context is Some ==> texts.context == context,
    ensures
        entry_key(message@, texts) == as_lines(context_lines(message, context)) + "msgid "@
            + texts.content,
{
    reveal_strlit("\n");
    lemma_as_line("msgctxt "@ + context);
    assert(entry_key(message@, texts) =~= as_lines(context_lines(message, context)) + "msgid "@
        + texts.content);
}

/// The lines for the translation, with the newline before them, as text.
proof fn lemma_translation_lines(message: Message, plural: Seq<char>)
    ensures
        message.plural is Some ==> seq!['\n'] + as_lines(translation_lines(message, plural))
            == "\nmsgid_plural "@ + plural + "\nmsgstr[0] \"\"\n"@,
        message.plural is None ==> seq!['\n'] + as_lines(translation_lines(message, plural))
            == "\nmsgstr \"\"\n"@,
{
    reveal_strlit("\nmsgid_plural ");
    reveal_strlit("msgid_plural ");
    reveal_strlit("\nmsgstr[0] \"\"\n");
    reveal_strlit("msgstr[0] \"\"");
    reveal_strlit("\nmsgstr \"\"\n");
    reveal_strlit("msgstr \"\"");
    lemma_as_line("msgstr \"\""@);
    lemma_as_line("msgstr[0] \"\""@);
    lemma_as_line("msgid_plural "@ + plural);
    lemma_as_lines(seq!["msgid_plural "@ + plural], seq!["msgstr[0] \"\""@]);
    let ls = translation_lines(message, plural);
    if message.plural is Some {
        assert(ls =~= seq!["msgid_plural "@ + plural] + seq!["msgstr[0] \"\""@]);
        assert(seq!['\n'] + as_lines(ls) =~= "\nmsgid_plural "@ + plural
            + "\nmsgstr[0] \"\"\n"@);
    } else {
        assert(seq!['\n'] + as_lines(ls) =~= "\nmsgstr \"\"\n"@);
    }
}

/// Whether a text ends with another.
pub open spec fn ends_with(whole: Seq<char>, end: Seq<char>) -> bool {
    exists|front: Seq<char>| whole == #[trigger] (front + end)
}

/// Where a message is listed, its entry ends with the plural and an open translation for it if and
/// only if the message has a plural, whatever its context and its location are. Else it ends with one
/// open translation.
pub proof fn law_plural_listed(
    message: &Message,
    config: &Config,
    printed: &Printed,
    pot: &str,
    location: &Option<Location>,
    plural: Seq<char>,
    res: Option<String>,
)
    requires
        call_ensures(Message::write, (message, config, printed, pot, location), res),
        message.plural matches Some(ts) ==> reads_as(trees(ts@), printed.plural@, plural),
        res is Some,
    ensures
        ends_with(res->0@, "\nmsgid_plural "@ + plural + "\nmsgstr[0] \"\"\n"@)
            <==> message.plural is Some,
        ends_with(res->0@, "\nmsgstr \"\"\n"@) <==> message.plural is None,
{
    let texts = message@.texts(printed@);
    let wanted = wanted_location(config@, optional_location(*location));
    let entry = res->0@;
    let front = "\n"@ + location_line(wanted) + entry_key(message@, texts);
    let one = "\nmsgstr \"\"\n"@;
    let two = "\nmsgid_plural "@ + plural + "\nmsgstr[0] \"\"\n"@;
    reveal_strlit("\nmsgstr \"\"\n");
    reveal_strlit("\nmsgstr[0] \"\"\n");
    assert(entry == entry_text(message@, texts, wanted));
    if message.plural is Some {
        assert(entry =~= front + two);
        assert(!ends_with(entry, one)) by {
            if ends_with(entry, one) {
                let f = choose|f: Seq<char>| entry == #[trigger] (f + one);
                assert((f + one)[entry.len() - 5] == one[one.len() - 5]);
                assert((front + two)[entry.len() - 5] == two[two.len() - 5]);
                assert(two[two.len() - 5] == "\nmsgstr[0] \"\"\n"@["\nmsgstr[0] \"\"\n"@.len() - 5]);
            }
        }
    } else {
        assert(entry =~= front + one);
        assert(!ends_with(entry, two)) by {
            if ends_with(entry, two) {
                let f = choose|f: Seq<char>| entry == #[trigger] (f + two);
                assert((f + two)[entry.len() - 5] == two[two.len() - 5]);
                assert((front + one)[entry.len() - 5] == one[one.len() - 5]);
                assert(two[two.len() - 5] == "\nmsgstr[0] \"\"\n"@["\nmsgstr[0] \"\"\n"@.len() - 5]);
            }
        }
    }
}

/// A refusal to write tells a message with a plural from one without.
pub proof fn law_write_fault_told(message: &Message, res: Fault)
    requires
        call_ensures(Message::write_fault, (message,), res),
    ensures
        message.plural is Some ==> res == Fault::PluralNotWritten,
        message.plural is None ==> res == Fault::MessageNotWritten,
{
}

/// The template of a domain is in a directory and a file that are both named like the domain.
pub proof fn law_template_named(domain: &str, res: String)
    requires
        call_ensures(pot_file, (domain,), res),
    ensures
        res@ == "po/"@ + domain@ + "/"@ + domain@ + ".pot"@,
{
}

} // verus!
