//! The template of translations lists each message once.

use vstd::prelude::*;
use vstd::utf8::encode_utf8;

use crate::config::ConfigModel;
use crate::message::entry_key;
use crate::message::entry_text;
use crate::message::first;
use crate::message::listing;
use crate::message::location_line;
use crate::message::message_of;
use crate::message::to_list;
use crate::message::wanted_location;
use crate::message::LocationModel;
use crate::message::MessageModel;
use crate::message::PrintedModel;
use crate::text::occurs;
use crate::text::occurs_at;
use crate::token::blank;
use crate::token::trimmed;
use crate::token::Tree;
use crate::token::TreeKind;

verus! {

/// A text between two others stands in the three together.
proof fn lemma_occurs_between(before: Seq<char>, part: Seq<char>, behind: Seq<char>)
    ensures
        occurs(before + part + behind, part),
{
    let whole = before + part + behind;
    let i = before.len() as int;
    assert(whole.subrange(i, i + part.len()) =~= part);
    assert(occurs_at(whole, part, i));
}

/// A message that was listed is not listed again, wherever it is met again and whatever else was
/// listed in between.
pub proof fn law_listed_once(
    message: MessageModel,
    texts: PrintedModel,
    pot: Seq<char>,
    location: Option<LocationModel>,
    more: Seq<char>,
    other_location: Option<LocationModel>,
)
    requires
        listing(message, texts, pot, location) is Some,
    ensures
        listing(
            message,
            texts,
            pot + listing(message, texts, pot, location)->0 + more,
            other_location,
        ) is None,
{
    let entry = entry_text(message, texts, location);
    let key = entry_key(message, texts);
    let before = "\n"@ + location_line(location);
    let behind = entry.skip(before.len() as int + key.len());
    assert(entry =~= before + key + behind);
    assert(pot + entry + more =~= (pot + before) + key + (behind + more));
    lemma_occurs_between(pot + before, key, behind + more);
}

/// A message that is listed stays listed: what is appended later does not make it one to list again.
pub proof fn law_listed_stays(
    message: MessageModel,
    texts: PrintedModel,
    pot: Seq<char>,
    more: Seq<char>,
)
    requires
        occurs(pot, entry_key(message, texts)),
    ensures
        !to_list(message, texts, pot + more),
{
    let key = entry_key(message, texts);
    let i = choose|i: int| occurs_at(pot, key, i);
    assert((pot + more).subrange(i, i + key.len()) =~= pot.subrange(i, i + key.len()));
    assert(occurs_at(pot + more, key, i));
}

/// A message that does not begin with a literal is never listed.
pub proof fn law_expression_not_listed(
    input: Seq<Tree>,
    str_only: bool,
    texts: PrintedModel,
    pot: Seq<char>,
    location: Option<LocationModel>,
)
    requires
        message_of(input, str_only) is Ok,
        match first(message_of(input, str_only)->Ok_0.content) {
            Some(t) => !(trimmed(t)->0.kind is Literal),
            None => true,
        },
    ensures
        listing(message_of(input, str_only)->Ok_0, texts, pot, location) is None,
{
}

/// The empty string literal is never listed: it would collide with the head of the template.
pub proof fn law_empty_not_listed(
    message: MessageModel,
    handle: usize,
    texts: PrintedModel,
    pot: Seq<char>,
    location: Option<LocationModel>,
)
    requires
        message.content == seq![Tree { handle, kind: TreeKind::Literal("\"\""@) }],
    ensures
        listing(message, texts, pot, location) is None,
{
    reveal_strlit("\"\"");
    reveal_with_fuel(encode_utf8, 3);
    assert(blank(message.content[0]));
}

/// A message that is spelt with literals is listed by the text of those literals, whatever they were
/// printed as.
pub proof fn law_literals_listed_as_written(message: MessageModel, printed: PrintedModel)
    requires
        message.content.len() == 1,
        message.content[0].kind is Literal,
        message.plural matches Some(ts) ==> ts.len() == 1 && ts[0].kind is Literal,
        message.context matches Some(t) ==> t.kind is Literal,
    ensures
        message.texts(printed).content == message.content[0].kind->Literal_0,
        message.plural matches Some(ts) ==> message.texts(printed).plural
            == ts[0].kind->Literal_0,
        message.context matches Some(t) ==> message.texts(printed).context
            == t.kind->Literal_0,
{
}

/// Where the configuration turns locations off, what is listed does not depend on where a message
/// comes from, and says nothing of it.
pub proof fn law_no_locations(
    message: MessageModel,
    texts: PrintedModel,
    pot: Seq<char>,
    config: ConfigModel,
    location: Option<LocationModel>,
)
    requires
        !config.write_loc,
    ensures
        location_line(wanted_location(config, location)) == Seq::<char>::empty(),
        listing(message, texts, pot, wanted_location(config, location)) == listing(
            message,
            texts,
            pot,
            None,
        ),
{
}

} // verus!
