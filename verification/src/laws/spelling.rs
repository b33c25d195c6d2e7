//! A call of a message macro means what it spells out, whatever tokens it is made of.

use vstd::prelude::*;

use crate::code::codes;
use crate::code::tokens;
use crate::code::Code;
use crate::code::Spacing;
use crate::fault::Fault;
use crate::laws::syntax_laws::lemma_run_is;
use crate::laws::syntax_laws::part;
use crate::laws::syntax_laws::tokens_of;
use crate::laws::syntax_laws::Part;
use crate::macros::i18n;
use crate::macros::lookup_args;
use crate::macros::lookup_code;
use crate::macros::t;
use crate::macros::translated_code;
use crate::macros::Expansion;
use crate::message::after_plural;
use crate::message::content_of;
use crate::message::format_args_of;
use crate::message::message_of;
use crate::message::plural_of;
use crate::message::Message;
use crate::message::MessageModel;
use crate::token::after;
use crate::token::after_named;
use crate::token::lemma_run_len;
use crate::token::named_value;
use crate::token::run_len;
use crate::token::trees;
use crate::token::Delimiter;
use crate::token::Stop;
use crate::token::TokenStream;
use crate::token::TokenTree;
use crate::token::Tree;
use crate::token::TreeKind;

verus! {

/// Whether a token is the punctuation character `ch`.
pub open spec fn mark(t: Tree, ch: char) -> bool {
    t.kind == TreeKind::Punct(ch)
}

/// Whether no token is the punctuation character `ch`. What groups hold does not matter.
pub open spec fn free_of(ts: Seq<Tree>, ch: char) -> bool {
    forall|i: int| 0 <= i < ts.len() ==> !mark(#[trigger] ts[i], ch)
}

/// Whether no token is punctuation.
pub open spec fn no_marks(ts: Seq<Tree>) -> bool {
    forall|i: int| 0 <= i < ts.len() ==> !((#[trigger] ts[i]).kind is Punct)
}

/// Whether tokens begin with `name =`.
pub open spec fn begins_named(ts: Seq<Tree>, name: Seq<char>) -> bool {
    ts.len() >= 2 && ts[0].kind == TreeKind::Ident(name) && mark(ts[1], '=')
}

/// A token, if there is one.
pub open spec fn one(t: Option<Tree>) -> Seq<Tree> {
    match t {
        Some(t) => seq![t],
        None => Seq::empty(),
    }
}

/// The tokens `name = value`, and the punctuation that ends them, if the call does not end there.
pub struct Setting {
    pub name: Tree,
    pub equals: Tree,
    pub value: Seq<Tree>,
    pub end: Option<Tree>,
}

impl Setting {
    /// The tokens.
    pub open spec fn tokens(self) -> Seq<Tree> {
        seq![self.name, self.equals] + self.value + one(self.end)
    }

    /// Whether `name` is set.
    pub open spec fn sets(self, name: Seq<char>) -> bool {
        &&& self.name.kind == TreeKind::Ident(name)
        &&& mark(self.equals, '=')
        &&& no_marks(self.value)
        &&& self.end matches Some(t) ==> t.kind is Punct
    }
}

/// The tokens of a setting, if it is given.
pub open spec fn setting_tokens(setting: Option<Setting>) -> Seq<Tree> {
    match setting {
        Some(setting) => setting.tokens(),
        None => Seq::empty(),
    }
}

/// The value of a setting, if it is given.
pub open spec fn setting_value(setting: Option<Setting>) -> Option<Seq<Tree>> {
    match setting {
        Some(setting) => Some(setting.value),
        None => None,
    }
}

/// Whether `setting` is all that sets `name` before `back`.
pub open spec fn set_before(setting: Option<Setting>, name: Seq<char>, back: Seq<Tree>) -> bool {
    match setting {
        Some(setting) => setting.sets(name) && (setting.end is None ==> back.len() == 0),
        None => !begins_named(back, name),
    }
}

/// A setting is read as such, and what follows it is left.
pub proof fn lemma_setting(setting: Option<Setting>, name: Seq<char>, back: Seq<Tree>)
    requires
        set_before(setting, name, back),
    ensures
        named_value(setting_tokens(setting) + back, name) == setting_value(setting),
        after_named(setting_tokens(setting) + back, name) == back,
{
    let ts = setting_tokens(setting) + back;
    match setting {
        Some(s) => {
            let behind = one(s.end) + back;
            assert(after(ts, 2) =~= s.value + behind);
            assert forall|i: int| 0 <= i < s.value.len() implies !Stop::AnyPunct.at(
                #[trigger] s.value[i],
            ) by {}
            lemma_run_is(s.value, behind, Stop::AnyPunct);
            assert(after_named(ts, name) =~= back);
        },
        None => {
            assert(ts =~= back);
        },
    }
}

/// What follows a message: a plural behind a comma, if it has one, and the rest.
pub struct Tail {
    pub plural: Option<Part>,
    pub rest: Seq<Tree>,
}

impl Tail {
    /// The tokens.
    pub open spec fn tokens(self) -> Seq<Tree> {
        part(self.plural) + self.rest
    }

    /// Whether the plural is all behind the comma, up to a semicolon or the end.
    pub open spec fn cut_right(self) -> bool {
        match self.plural {
            Some(part) => {
                &&& mark(part.mark, ',')
                &&& free_of(part.tokens, ';')
                &&& self.rest.len() > 0 ==> mark(self.rest[0], ';')
            },
            None => self.rest.len() > 0 ==> !mark(self.rest[0], ','),
        }
    }

    /// The format arguments: the rest without the semicolon before it. Behind a plural a second
    /// semicolon is dropped as well.
    pub open spec fn args(self) -> Seq<Tree> {
        match self.plural {
            Some(_) => unled(unled(self.rest)),
            None => unled(self.rest),
        }
    }
}

/// Tokens without a semicolon in front.
pub open spec fn unled(ts: Seq<Tree>) -> Seq<Tree> {
    if ts.len() > 0 && mark(ts[0], ';') {
        ts.skip(1)
    } else {
        ts
    }
}

/// What follows a message is read as its plural and its format arguments.
proof fn lemma_tail_read(tail: Tail)
    requires
        tail.cut_right(),
    ensures
        plural_of(tail.tokens()) == tokens_of(tail.plural),
        format_args_of(after_plural(tail.tokens())) == tail.args(),
{
    let ts = tail.tokens();
    match tail.plural {
        Some(p) => {
            assert(ts.skip(1) =~= p.tokens + tail.rest);
            assert forall|i: int| 0 <= i < p.tokens.len() implies !Stop::Semicolon.at(
                #[trigger] p.tokens[i],
            ) by {}
            lemma_run_is(p.tokens, tail.rest, Stop::Semicolon);
            assert(after(ts.skip(1), p.tokens.len() as int + 1) =~= unled(tail.rest));
        },
        None => {
            assert(ts =~= tail.rest);
        },
    }
}

/// How a call names a message: `context = <context>, <content>, <plural>; <format arguments>`.
pub struct Spelling {
    pub context: Option<Setting>,
    pub content: Seq<Tree>,
    pub tail: Tail,
}

impl Spelling {
    /// The tokens.
    pub open spec fn tokens(self) -> Seq<Tree> {
        setting_tokens(self.context) + (self.content + self.tail.tokens())
    }

    /// Whether the parts are cut where they are: the context is what stands before the content, and
    /// the plural what stands behind it.
    pub open spec fn cut_right(self) -> bool {
        &&& set_before(self.context, "context"@, self.content + self.tail.tokens())
        &&& self.tail.cut_right()
    }

    /// Whether the content is all up to a comma or a semicolon.
    pub open spec fn expression(self) -> bool {
        &&& free_of(self.content, ',')
        &&& free_of(self.content, ';')
        &&& self.tail.plural is None && self.tail.rest.len() > 0 ==> mark(self.tail.rest[0], ';')
    }

    /// The token that the context is, if it is given and not empty.
    pub open spec fn context_token(self) -> Option<Tree> {
        match self.context {
            Some(setting) => if setting.value.len() > 0 {
                Some(setting.value[0])
            } else {
                None
            },
            None => None,
        }
    }
}

/// Whether `outer` is `inner`, or a macro variable that begins with it.
pub open spec fn stands_for(outer: Tree, inner: Tree) -> bool {
    match outer.kind {
        TreeKind::Group(Delimiter::Invisible, ts) => ts.len() > 0 && ts[0] == inner,
        _ => outer == inner,
    }
}

/// Whether a token is a macro variable that stands for nothing.
pub open spec fn empty_variable(t: Tree) -> bool {
    t.kind matches TreeKind::Group(Delimiter::Invisible, ts) && ts.len() == 0
}

/// Whether a token is a literal, or a macro variable that begins with one.
pub open spec fn literal_in(t: Tree) -> bool {
    match t.kind {
        TreeKind::Literal(_) => true,
        TreeKind::Group(Delimiter::Invisible, ts) => ts.len() > 0 && ts[0].kind is Literal,
        _ => false,
    }
}

/// Whether a stream holds the given tokens, if any are given.
pub open spec fn holds(stream: Option<TokenStream>, ts: Option<Seq<Tree>>) -> bool {
    match (stream, ts) {
        (Some(stream), Some(ts)) => trees(stream@) == ts,
        (None, None) => true,
        _ => false,
    }
}

/// Whether a message has the given content, and the other parts of a spelling.
pub open spec fn says(message: Message, content: Seq<Tree>, spelling: Spelling) -> bool {
    &&& trees(message.content@) == content
    &&& holds(message.plural, tokens_of(spelling.tail.plural))
    &&& match (message.context, spelling.context_token()) {
        (Some(token), Some(t)) => token@ == t,
        (None, None) => true,
        _ => false,
    }
    &&& trees(message.format_args@) == spelling.tail.args()
    &&& message.writable <==> content.len() > 0 && literal_in(content[0])
}

/// The context and what follows the content are read as such.
proof fn lemma_around(spelling: Spelling)
    requires
        spelling.cut_right(),
    ensures
        ({
            let ts = spelling.tokens();
            let rest = spelling.content + spelling.tail.tokens();
            &&& named_value(ts, "context"@) == setting_value(spelling.context)
            &&& after_named(ts, "context"@) == rest
            &&& after(rest, spelling.content.len() as int) == spelling.tail.tokens()
            &&& plural_of(spelling.tail.tokens()) == tokens_of(spelling.tail.plural)
            &&& format_args_of(after_plural(spelling.tail.tokens())) == spelling.tail.args()
        }),
{
    let rest = spelling.content + spelling.tail.tokens();
    lemma_setting(spelling.context, "context"@, rest);
    lemma_tail_read(spelling.tail);
    assert(after(rest, spelling.content.len() as int) =~= spelling.tail.tokens());
}

/// The content of an expression is read as such.
proof fn lemma_content(spelling: Spelling)
    requires
        spelling.cut_right(),
        spelling.expression(),
    ensures
        content_of(spelling.content + spelling.tail.tokens(), false) == Ok::<Seq<Tree>, Fault>(
            spelling.content,
        ),
{
    let tail = spelling.tail.tokens();
    match spelling.tail.plural {
        Some(p) => {
            assert(tail[0] == p.mark);
        },
        None => {
            assert(tail =~= spelling.tail.rest);
        },
    }
    assert forall|i: int| 0 <= i < spelling.content.len() implies !Stop::CommaOrSemicolon.at(
        #[trigger] spelling.content[i],
    ) by {
        assert(!mark(spelling.content[i], ','));
        assert(!mark(spelling.content[i], ';'));
    }
    lemma_run_is(spelling.content, tail, Stop::CommaOrSemicolon);
}

/// A message that may be an expression is read as it is spelt. It is refused only where it begins
/// with a macro variable that stands for nothing.
pub proof fn law_expression_read(
    input: &[TokenTree],
    spelling: Spelling,
    res: Result<Message, Fault>,
)
    requires
        call_ensures(Message::parse, (input, false), res),
        trees(input@) == spelling.tokens(),
        spelling.cut_right(),
        spelling.expression(),
    ensures
        if spelling.content.len() > 0 && empty_variable(spelling.content[0]) {
            res matches Err(fault) && fault == Fault::EmptyExpression
        } else {
            res matches Ok(message) && says(message, spelling.content, spelling)
        },
{
    lemma_around(spelling);
    lemma_content(spelling);
}

/// A message that has to be one token is read as it is spelt: it is the token, or what the macro
/// variable there stands for. It is refused where it is missing, or stands for nothing.
pub proof fn law_literal_read(
    input: &[TokenTree],
    spelling: Spelling,
    inner: Tree,
    res: Result<Message, Fault>,
)
    requires
        call_ensures(Message::parse, (input, true), res),
        trees(input@) == spelling.tokens(),
        spelling.cut_right(),
        spelling.content.len() == 0 ==> spelling.tail.tokens().len() == 0,
        spelling.content.len() <= 1,
        spelling.content.len() == 1 && !empty_variable(spelling.content[0]) ==> stands_for(
            spelling.content[0],
            inner,
        ),
    ensures
        if spelling.content.len() == 0 {
            res matches Err(fault) && fault == Fault::ExpectedMessage
        } else if empty_variable(spelling.content[0]) || empty_variable(inner) {
            res matches Err(fault) && fault == Fault::EmptyExpression
        } else {
            res matches Ok(message) && says(message, seq![inner], spelling)
        },
{
    lemma_around(spelling);
    let rest = spelling.content + spelling.tail.tokens();
    if spelling.content.len() == 1 {
        assert(rest[0] == spelling.content[0]);
    }
}

/// Tokens of a call as code.
pub open spec fn given(ts: Seq<Tree>) -> Seq<Code> {
    Seq::new(ts.len(), |i: int| Code::Token(ts[i]))
}

/// A word as code.
pub open spec fn word(text: &str) -> Code {
    Code::Word(text@)
}

/// A punctuation character that stands alone as code.
pub open spec fn alone(ch: char) -> Code {
    Code::Punct(ch, Spacing::Alone)
}

/// A punctuation character that another follows as code.
pub open spec fn joint(ch: char) -> Code {
    Code::Punct(ch, Spacing::Joint)
}

/// Code in parentheses.
pub open spec fn paren(inner: Seq<Code>) -> Code {
    Code::Group(Delimiter::Parenthesis, inner)
}

/// A call of [`t`] is replaced with the message itself: with its token, or with the tokens of the
/// singular and the plural in a tuple. The message is read as it is spelt.
pub proof fn law_t_means(
    input: &[TokenTree],
    spelling: Spelling,
    inner: Tree,
    res: Result<Expansion, Fault>,
)
    requires
        call_ensures(t, (input,), res),
        trees(input@) == spelling.tokens(),
        spelling.cut_right(),
        spelling.content.len() == 0 ==> spelling.tail.tokens().len() == 0,
        spelling.content.len() <= 1,
        spelling.content.len() == 1 && !empty_variable(spelling.content[0]) ==> stands_for(
            spelling.content[0],
            inner,
        ),
    ensures
        if input@.len() == 0 {
            res matches Err(fault) && fault == Fault::ExpectedCatalog
        } else if spelling.content.len() == 0 {
            res matches Err(fault) && fault == Fault::ExpectedMessage
        } else if empty_variable(spelling.content[0]) || empty_variable(inner) {
            res matches Err(fault) && fault == Fault::EmptyExpression
        } else {
            res matches Ok(expansion) && {
                &&& says(expansion.message, seq![inner], spelling)
                &&& spelling.tail.plural is None ==> codes(expansion.code@) == seq![
                    Code::Token(inner),
                ]
                &&& spelling.tail.plural matches Some(plural) ==> codes(expansion.code@) == seq![
                    paren(seq![Code::Token(inner), alone(',')] + given(plural.tokens)),
                ]
            }
        },
{
    assert(trees(input@).len() == input@.len());
    lemma_around(spelling);
    let rest = spelling.content + spelling.tail.tokens();
    if spelling.content.len() == 1 {
        assert(rest[0] == spelling.content[0]);
        if res is Ok {
            let code = codes(res->Ok_0.code@);
            match spelling.tail.plural {
                Some(plural) => {
                    assert(code[0]->Group_1 =~= seq![Code::Token(inner), alone(',')] + given(
                        plural.tokens,
                    ));
                    assert(code =~= seq![
                        paren(seq![Code::Token(inner), alone(',')] + given(plural.tokens)),
                    ]);
                },
                None => {
                    assert(code =~= seq![Code::Token(inner)]);
                },
            }
        }
    }
}

/// The arguments of a lookup: the context, the content, and the plural with the count, each behind a
/// comma.
pub open spec fn asked(
    context: Option<Tree>,
    content: Seq<Tree>,
    plural: Option<Seq<Tree>>,
    count: Seq<Tree>,
) -> Seq<Code> {
    let front = match context {
        Some(t) => seq![Code::Token(t), alone(',')] + given(content),
        None => given(content),
    };
    match plural {
        Some(plural) => front + seq![alone(',')] + given(plural) + seq![alone(',')] + given(count)
            + seq![word("as"), word("u64")],
        None => front,
    }
}

/// The method of a lookup.
pub open spec fn asking(context: Option<Tree>, plural: Option<Seq<Tree>>) -> Code {
    if plural is Some && context is Some {
        word("npgettext")
    } else if plural is Some {
        word("ngettext")
    } else if context is Some {
        word("pgettext")
    } else {
        word("gettext")
    }
}

/// The block that a translated message is replaced with: it looks the message up in `catalog` with
/// `method` and `args`, and formats what it finds with `format_args`.
pub open spec fn translated(
    catalog: Seq<Code>,
    method: Code,
    args: Seq<Code>,
    format_args: Seq<Code>,
) -> Seq<Code> {
    let lookup = seq![alone('.'), method, paren(args)];
    seq![
        Code::Group(
            Delimiter::Brace,
            seq![
                word("use"),
                word("runtime_fmt"),
                joint(':'),
                joint(':'),
                joint('*'),
                alone(';'),
                word("rt_format"),
                alone('!'),
                paren(catalog + lookup + seq![alone(',')] + format_args),
                alone('.'),
                word("expect"),
                paren(seq![Code::Str("Error while formatting message"@)]),
            ],
        ),
    ]
}

/// The code for a message, spelt out.
#[verifier::spinoff_prover]
pub proof fn lemma_translated(
    catalog: Seq<Tree>,
    message: MessageModel,
    count: Seq<Tree>,
    more: Option<Part>,
)
    requires
        message.format_args == count + part(more),
        free_of(count, ','),
        more matches Some(part) ==> mark(part.mark, ','),
    ensures
        translated_code(catalog, message) == translated(
            given(catalog),
            asking(message.context, message.plural),
            asked(message.context, message.content, message.plural, count),
            given(message.format_args),
        ),
{
    assert forall|i: int| 0 <= i < count.len() implies !Stop::Comma.at(#[trigger] count[i]) by {
        assert(!mark(count[i], ','));
    }
    lemma_run_is(count, part(more), Stop::Comma);
    let args = asked(message.context, message.content, message.plural, count);
    assert(lookup_args(message) =~= args);
    let call = given(catalog) + seq![
        alone('.'),
        asking(message.context, message.plural),
        paren(args),
    ] + seq![alone(',')] + given(message.format_args);
    assert(lookup_code(catalog, message).push(alone(',')) + tokens(message.format_args) =~= call);
    let block = translated_code(catalog, message)[0]->Group_1;
    assert(block =~= seq![
        word("use"),
        word("runtime_fmt"),
        joint(':'),
        joint(':'),
        joint('*'),
        alone(';'),
        word("rt_format"),
        alone('!'),
        paren(call),
        alone('.'),
        word("expect"),
        paren(seq![Code::Str("Error while formatting message"@)]),
    ]);
}

/// A call of [`i18n`] is replaced with a block that asks the catalog for the message and formats it.
/// The catalog is all up to the first comma. A message with a plural is looked up by its count, which
/// is the whole first format argument: all up to a comma, whatever else it holds. The message is read
/// as it is spelt, and is empty where there is no comma.
pub proof fn law_i18n_means(
    input: &[TokenTree],
    catalog: Seq<Tree>,
    comma: Option<Tree>,
    spelling: Spelling,
    count: Seq<Tree>,
    more: Option<Part>,
    res: Result<Expansion, Fault>,
)
    requires
        call_ensures(i18n, (input,), res),
        trees(input@) == catalog + (one(comma) + spelling.tokens()),
        free_of(catalog, ','),
        comma matches Some(t) ==> mark(t, ','),
        comma is None ==> spelling.tokens().len() == 0,
        spelling.cut_right(),
        spelling.expression(),
        spelling.tail.args() == count + part(more),
        free_of(count, ','),
        more matches Some(part) ==> mark(part.mark, ','),
    ensures
        if input@.len() == 0 {
            res matches Err(fault) && fault == Fault::ExpectedCatalog
        } else if spelling.content.len() > 0 && empty_variable(spelling.content[0]) {
            res matches Err(fault) && fault == Fault::EmptyExpression
        } else {
            res matches Ok(expansion) && {
                let context = spelling.context_token();
                let plural = tokens_of(spelling.tail.plural);
                &&& says(expansion.message, spelling.content, spelling)
                &&& codes(expansion.code@) == translated(
                    given(catalog),
                    asking(context, plural),
                    asked(context, spelling.content, plural, count),
                    given(spelling.tail.args()),
                )
            }
        },
{
    assert(trees(input@).len() == input@.len());
    let behind = one(comma) + spelling.tokens();
    let ts = catalog + behind;
    assert forall|i: int| 0 <= i < catalog.len() implies !Stop::Comma.at(#[trigger] catalog[i]) by {
        assert(!mark(catalog[i], ','));
    }
    if comma is None {
        assert(behind =~= Seq::<Tree>::empty());
    }
    lemma_run_is(catalog, behind, Stop::Comma);
    assert(after(ts, catalog.len() as int + 1) =~= spelling.tokens());
    lemma_around(spelling);
    lemma_content(spelling);
    if res is Ok {
        lemma_translated(catalog, message_of(spelling.tokens(), false)->Ok_0, count, more);
    }
}

/// The count by which a message with a plural is looked up is the whole first format argument: in the
/// arguments of the lookup, the tokens between the comma behind the plural and `as u64` are exactly
/// those before the first comma of the format arguments, whatever punctuation they hold, and whatever
/// follows that comma.
pub proof fn law_count_is_first_argument(
    input: &[TokenTree],
    catalog: Seq<Tree>,
    comma: Tree,
    spelling: Spelling,
    count: Seq<Tree>,
    more: Option<Part>,
    res: Expansion,
)
    requires
        call_ensures(i18n, (input,), Ok::<Expansion, Fault>(res)),
        trees(input@) == catalog + (seq![comma] + spelling.tokens()),
        free_of(catalog, ','),
        mark(comma, ','),
        spelling.cut_right(),
        spelling.expression(),
        spelling.tail.plural is Some,
        spelling.tail.args() == count + part(more),
        free_of(count, ','),
        more matches Some(part) ==> mark(part.mark, ','),
    ensures
        ({
            let block = codes(res.code@)[0]->Group_1;
            let call = block[8]->Group_1;
            let args = call[catalog.len() as int + 2]->Group_1;
            let n = args.len() as int;
            &&& n >= count.len() + 3
            &&& args[n - 2] == Code::Word("as"@)
            &&& args[n - 1] == Code::Word("u64"@)
            &&& args[n - 3 - count.len()] == Code::Punct(',', Spacing::Alone)
            &&& forall|i: int|
                0 <= i < count.len() ==> args[n - 2 - count.len() + i] == Code::Token(
                    #[trigger] count[i],
                )
        }),
{
    law_i18n_means(
        input,
        catalog,
        Some(comma),
        spelling,
        count,
        more,
        Ok::<Expansion, Fault>(res),
    );
    let context = spelling.context_token();
    let plural = tokens_of(spelling.tail.plural);
    let args = asked(context, spelling.content, plural, count);
    lemma_call_place(
        given(catalog),
        asking(context, plural),
        args,
        given(spelling.tail.args()),
    );
    lemma_count_place(context, spelling.content, plural->0, count);
}

/// Where the arguments of the lookup are in the block for a message.
proof fn lemma_call_place(
    catalog: Seq<Code>,
    method: Code,
    args: Seq<Code>,
    format_args: Seq<Code>,
)
    ensures
        translated(catalog, method, args, format_args)[0]->Group_1[8]->Group_1[catalog.len() as int
            + 2] == paren(args),
{
}

/// Where the count is in the arguments of a lookup.
proof fn lemma_count_place(
    context: Option<Tree>,
    content: Seq<Tree>,
    plural: Seq<Tree>,
    count: Seq<Tree>,
)
    ensures
        ({
            let args = asked(context, content, Some(plural), count);
            let n = args.len() as int;
            &&& n >= count.len() + 3
            &&& args[n - 2] == Code::Word("as"@)
            &&& args[n - 1] == Code::Word("u64"@)
            &&& args[n - 3 - count.len()] == Code::Punct(',', Spacing::Alone)
            &&& forall|i: int|
                0 <= i < count.len() ==> args[n - 2 - count.len() + i] == Code::Token(
                    #[trigger] count[i],
                )
        }),
{
}

/// The first of format arguments: all tokens up to a comma.
pub open spec fn first_argument(ts: Seq<Tree>) -> Seq<Tree>
    decreases ts.len(),
{
    if ts.len() == 0 || mark(ts[0], ',') {
        Seq::empty()
    } else {
        seq![ts[0]] + first_argument(ts.drop_first())
    }
}

/// Behind the first of format arguments there is a comma, or nothing.
pub proof fn lemma_first_argument(ts: Seq<Tree>) -> (more: Option<Part>)
    ensures
        ts == first_argument(ts) + part(more),
        free_of(first_argument(ts), ','),
        more matches Some(part) ==> mark(part.mark, ','),
    decreases ts.len(),
{
    if ts.len() == 0 {
        assert(ts =~= first_argument(ts) + part(None));
        None
    } else if mark(ts[0], ',') {
        let more = Some(Part { mark: ts[0], tokens: ts.drop_first() });
        assert(ts =~= seq![ts[0]] + ts.drop_first());
        assert(first_argument(ts) + part(more) =~= part(more));
        more
    } else {
        let rest = ts.drop_first();
        let more = lemma_first_argument(rest);
        assert(ts =~= seq![ts[0]] + rest);
        assert(first_argument(ts) + part(more) =~= seq![ts[0]] + (first_argument(rest) + part(
            more,
        )));
        more
    }
}

/// Cuts tokens at the first that `stop` ends a run at.
proof fn lemma_cut(ts: Seq<Tree>, stop: Stop) -> (cut: (Seq<Tree>, Seq<Tree>))
    ensures
        ts == cut.0 + cut.1,
        forall|i: int| 0 <= i < cut.0.len() ==> !stop.at(#[trigger] cut.0[i]),
        cut.1.len() > 0 ==> stop.at(cut.1[0]),
{
    lemma_run_len(ts, stop);
    let n = run_len(ts, stop) as int;
    let front = ts.take(n);
    assert forall|i: int| 0 <= i < front.len() implies !stop.at(#[trigger] front[i]) by {
        assert(front[i] == ts[i]);
    }
    assert(ts =~= front + ts.skip(n));
    (front, ts.skip(n))
}

/// Every sequence of tokens spells a message in one way or another, so that there is no call of which
/// these laws do not speak.
pub proof fn law_every_message_spelt(ts: Seq<Tree>) -> (spelling: Spelling)
    ensures
        spelling.tokens() == ts,
        spelling.cut_right(),
        spelling.expression(),
{
    let (context, body) = if begins_named(ts, "context"@) {
        let (value, behind) = lemma_cut(ts.skip(2), Stop::AnyPunct);
        assert(no_marks(value));
        let end = if behind.len() > 0 {
            Some(behind[0])
        } else {
            None
        };
        let setting = Setting { name: ts[0], equals: ts[1], value, end };
        let body = if behind.len() > 0 {
            behind.skip(1)
        } else {
            behind
        };
        assert(one(end) + body =~= behind);
        assert(setting.tokens() + body =~= ts) by {
            assert(ts =~= seq![ts[0], ts[1]] + ts.skip(2));
        }
        (Some(setting), body)
    } else {
        assert(setting_tokens(None) + ts =~= ts);
        (None, ts)
    };
    let (content, behind) = lemma_cut(body, Stop::CommaOrSemicolon);
    assert(free_of(content, ',') && free_of(content, ';')) by {
        assert forall|i: int| 0 <= i < content.len() implies !mark(#[trigger] content[i], ',')
            && !mark(content[i], ';') by {
            assert(!Stop::CommaOrSemicolon.at(content[i]));
        }
    }
    let tail = if behind.len() > 0 && mark(behind[0], ',') {
        let (plural, rest) = lemma_cut(behind.skip(1), Stop::Semicolon);
        assert(free_of(plural, ';')) by {
            assert forall|i: int| 0 <= i < plural.len() implies !mark(#[trigger] plural[i], ';') by {
                assert(!Stop::Semicolon.at(plural[i]));
            }
        }
        let tail = Tail { plural: Some(Part { mark: behind[0], tokens: plural }), rest };
        assert(behind =~= seq![behind[0]] + behind.skip(1));
        assert(tail.tokens() =~= behind);
        tail
    } else {
        let tail = Tail { plural: None, rest: behind };
        assert(tail.tokens() =~= behind);
        tail
    };
    Spelling { context, content, tail }
}

} // verus!
