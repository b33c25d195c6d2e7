//! What the operations on tokens are for.

use vstd::prelude::*;
use vstd::utf8::encode_utf8;

use crate::fault::Fault;
use crate::laws::spelling::empty_variable;
use crate::laws::spelling::holds;
use crate::laws::spelling::lemma_setting;
use crate::laws::spelling::mark;
use crate::laws::spelling::set_before;
use crate::laws::spelling::setting_tokens;
use crate::laws::spelling::setting_value;
use crate::laws::spelling::stands_for;
use crate::laws::spelling::Setting;
use crate::laws::syntax_laws::lemma_run_is;
use crate::token::all_blank;
use crate::token::blank;
use crate::token::copy_all;
use crate::token::count_run;
use crate::token::is_empty;
use crate::token::is_empty_ts;
use crate::token::is_punct;
use crate::token::named_arg;
use crate::token::lemma_run_len;
use crate::token::run;
use crate::token::run_len;
use crate::token::skip;
use crate::token::source_text;
use crate::token::take_named;
use crate::token::take_run;
use crate::token::text_of;
use crate::token::text_of_one;
use crate::token::trees;
use crate::token::trim;
use crate::token::Delimiter;
use crate::token::Stop;
use crate::token::TokenStream;
use crate::token::TokenTree;
use crate::token::Tree;
use crate::token::TreeKind;

verus! {

/// A token is a punctuation character only if it is punctuation, and that character.
pub proof fn law_punctuation_told(t: &TokenTree, ch: char, res: bool)
    requires
        call_ensures(is_punct, (t, ch), res),
    ensures
        res <==> (t@.kind matches TreeKind::Punct(c) && c == ch),
{
}

/// Copies of tokens are made of the same tokens.
pub proof fn law_copies(
    t: &TokenTree,
    ts: &[TokenTree],
    copy: TokenTree,
    copies: TokenStream,
)
    requires
        call_ensures(<TokenTree as Clone>::clone, (t,), copy),
        call_ensures(copy_all, (ts,), copies),
    ensures
        copy@ == t@,
        trees(copies@) == trees(ts@),
{
}

/// Whether a run that ends at `stop` ends before the token `t`.
pub open spec fn ends(stop: Stop, t: Tree) -> bool {
    match stop {
        Stop::Comma => mark(t, ','),
        Stop::Semicolon => mark(t, ';'),
        Stop::CommaOrSemicolon => mark(t, ',') || mark(t, ';'),
        Stop::AnyPunct => t.kind is Punct,
    }
}

/// A run is tested for its end at each token.
pub proof fn law_end_told(stop: Stop, t: &TokenTree, res: bool)
    requires
        call_ensures(Stop::test, (stop, t), res),
    ensures
        res <==> ends(stop, t@),
{
}

/// The front of a run of tokens up to its end is taken, counted and gone past, and nothing else.
pub proof fn law_run_cut(
    ts: &[TokenTree],
    stop: Stop,
    front: Seq<Tree>,
    back: Seq<Tree>,
    count: usize,
    taken: TokenStream,
)
    requires
        call_ensures(count_run, (ts, stop), count),
        call_ensures(take_run, (ts, stop), taken),
        trees(ts@) == front + back,
        forall|i: int| 0 <= i < front.len() ==> !ends(stop, #[trigger] front[i]),
        back.len() > 0 ==> ends(stop, back[0]),
    ensures
        count == front.len(),
        trees(taken@) == front,
{
    assert forall|i: int| 0 <= i < front.len() implies !stop.at(#[trigger] front[i]) by {
        assert(!ends(stop, front[i]));
    }
    lemma_run_is(front, back, stop);
    lemma_run_len(front + back, stop);
    assert(run(front + back, stop).len() == run_len(front + back, stop));
}

/// Going past tokens leaves those behind them, and none where there are too few.
pub proof fn law_tokens_skipped(
    ts: &[TokenTree],
    n: usize,
    more: usize,
    front: Seq<Tree>,
    back: Seq<Tree>,
    res: &[TokenTree],
)
    requires
        call_ensures(skip, (ts, n, more), res),
        trees(ts@) == front + back,
        n + more == front.len() || n + more > front.len() && back.len() == 0,
    ensures
        trees(res@) == back,
{
    assert(trees(res@) =~= back);
}

/// A macro variable is taken away around its first token, and any other token stays. A macro variable
/// that stands for nothing is refused.
pub proof fn law_variable_trimmed(t: &TokenTree, inner: Tree, res: Result<TokenTree, Fault>)
    requires
        call_ensures(trim, (t,), res),
        !empty_variable(t@) ==> stands_for(t@, inner),
    ensures
        if empty_variable(t@) {
            res matches Err(fault) && fault == Fault::EmptyExpression
        } else {
            res matches Ok(token) && token@ == inner
        },
{
}

/// Whether a token says nothing: it is a literal of two bytes, as the empty string literal is, or a
/// macro variable that begins with a token that says nothing.
pub open spec fn says_nothing(t: Tree) -> bool
    decreases t,
{
    match t.kind {
        TreeKind::Literal(text) => encode_utf8(text).len() == 2,
        TreeKind::Group(delimiter, ts) => {
            &&& delimiter == Delimiter::Invisible
            &&& ts.len() > 0
            &&& says_nothing(ts[0])
        },
        TreeKind::Ident(_) => false,
        TreeKind::Punct(_) => false,
    }
}

/// The library tells by the same rule which tokens are blank.
pub proof fn lemma_blank(t: Tree)
    ensures
        blank(t) == says_nothing(t),
    decreases t,
{
    if let TreeKind::Group(delimiter, ts) = t.kind {
        if ts.len() > 0 {
            lemma_blank(ts[0]);
        }
    }
}

/// A token is told to say nothing, or to say something.
pub proof fn law_empty_told(t: &TokenTree, res: bool)
    requires
        call_ensures(is_empty, (t,), res),
    ensures
        res <==> says_nothing(t@),
{
    lemma_blank(t@);
}

/// Tokens say something where any of them does.
pub proof fn lemma_all_blank(ts: Seq<Tree>)
    ensures
        all_blank(ts) <==> forall|i: int| 0 <= i < ts.len() ==> says_nothing(#[trigger] ts[i]),
{
    assert forall|i: int| 0 <= i < ts.len() implies blank(#[trigger] ts[i]) == says_nothing(
        ts[i],
    ) by {
        lemma_blank(ts[i]);
    }
    if all_blank(ts) {
        assert forall|i: int| 0 <= i < ts.len() implies says_nothing(#[trigger] ts[i]) by {
            assert(blank(ts[i]));
        }
    }
}

/// Tokens are told to say nothing only where each of them does.
pub proof fn law_all_empty_told(ts: &[TokenTree], res: bool)
    requires
        call_ensures(is_empty_ts, (ts,), res),
    ensures
        res <==> forall|i: int|
            0 <= i < ts@.len() ==> says_nothing(#[trigger] trees(ts@)[i]),
{
    lemma_all_blank(trees(ts@));
    assert(trees(ts@).len() == ts@.len());
}

/// Whether `text` is the source text of tokens that were printed as `printed`. A single identifier or
/// literal is its own text.
pub open spec fn reads_as(ts: Seq<Tree>, printed: Seq<char>, text: Seq<char>) -> bool {
    if ts.len() == 1 && ts[0].kind is Ident {
        text == ts[0].kind->Ident_0
    } else if ts.len() == 1 && ts[0].kind is Literal {
        text == ts[0].kind->Literal_0
    } else {
        text == printed
    }
}

/// The library has the source text of tokens by the same rule.
pub proof fn lemma_reads_as(ts: Seq<Tree>, printed: Seq<char>)
    ensures
        reads_as(ts, printed, source_text(ts, printed)),
{
}

/// Tokens are given their source text.
pub proof fn law_source_text(
    ts: &[TokenTree],
    t: &TokenTree,
    printed: &str,
    text: String,
    text_of_t: String,
)
    requires
        call_ensures(text_of, (ts, printed), text),
        call_ensures(text_of_one, (t, printed), text_of_t),
    ensures
        reads_as(trees(ts@), printed@, text@),
        reads_as(seq![t@], printed@, text_of_t@),
{
}

/// The argument `name = value` at the front is read, and gone past with the punctuation that ends it.
/// Where there is none, nothing is.
pub proof fn law_named_read(
    input: &[TokenTree],
    name: &str,
    setting: Option<Setting>,
    back: Seq<Tree>,
    value: Option<TokenStream>,
    taken: (Option<TokenStream>, &[TokenTree]),
)
    requires
        call_ensures(named_arg, (input, name), value),
        call_ensures(take_named, (input, name), taken),
        trees(input@) == setting_tokens(setting) + back,
        set_before(setting, name@, back),
    ensures
        holds(value, setting_value(setting)),
        holds(taken.0, setting_value(setting)),
        trees(taken.1@) == back,
{
    lemma_setting(setting, name@, back);
}

} // verus!
