//! Tokens of a macro call, and the ways the macros cut them apart.
//!
//! A macro reads its argument as a sequence of [`TokenTree`]s. The contracts speak of
//! [`Tree`]s: the same tokens with mathematical sequences in place of `Vec` and `String`.

use vstd::prelude::*;
use vstd::slice::slice_subrange;
use vstd::utf8::encode_utf8;

use crate::fault::Fault;
use crate::text::str_eq;

verus! {

/// How the tokens of a group are enclosed.
#[derive(Clone, Copy, Debug, PartialEq, Eq, Structural)]
pub enum Delimiter {
    /// `( ... )`
    Parenthesis,
    /// `{ ... }`
    Brace,
    /// `[ ... ]`
    Bracket,
    /// No visible delimiter: what a macro variable was replaced with.
    Invisible,
}

/// One token, or a delimited group of tokens.
#[derive(Debug, PartialEq, Eq)]
pub struct TokenTree {
    /// Tells the caller which of its own tokens this one stands for. It is carried along and
    /// never looked at.
    pub handle: usize,
    /// What the token is.
    pub kind: TokenKind,
}

/// The kinds of tokens.
#[derive(Debug, PartialEq, Eq)]
pub enum TokenKind {
    /// A group and the tokens in it.
    Group(Delimiter, Vec<TokenTree>),
    /// An identifier or a keyword, by its text.
    Ident(String),
    /// One punctuation character.
    Punct(char),
    /// A literal, by its source text: a string literal with its quotes.
    Literal(String),
}

/// The argument of a macro call, or a part of it.
pub type TokenStream = Vec<TokenTree>;

/// The model of a [`TokenTree`].
pub struct Tree {
    pub handle: usize,
    pub kind: TreeKind,
}

/// The model of a [`TokenKind`].
pub enum TreeKind {
    Group(Delimiter, Seq<Tree>),
    Ident(Seq<char>),
    Punct(char),
    Literal(Seq<char>),
}

/// The model of one token.
pub open spec fn tree(t: TokenTree) -> Tree
    decreases t,
{
    Tree {
        handle: t.handle,
        kind: match t.kind {
            TokenKind::Group(d, ts) => TreeKind::Group(d, trees(ts@)),
            TokenKind::Ident(s) => TreeKind::Ident(s@),
            TokenKind::Punct(c) => TreeKind::Punct(c),
            TokenKind::Literal(s) => TreeKind::Literal(s@),
        },
    }
}

/// The models of a sequence of tokens.
pub open spec fn trees(ts: Seq<TokenTree>) -> Seq<Tree>
    decreases ts,
{
    Seq::new(
        ts.len(),
        |i: int|
            if 0 <= i < ts.len() {
                tree(ts[i])
            } else {
                arbitrary()
            },
    )
}

impl View for TokenTree {
    type V = Tree;

    open spec fn view(&self) -> Tree {
        tree(*self)
    }
}

/// The model of an optional token stream.
pub open spec fn optional_trees(ts: Option<TokenStream>) -> Option<Seq<Tree>> {
    match ts {
        Some(ts) => Some(trees(ts@)),
        None => None,
    }
}

/// The model of an optional token.
pub open spec fn optional_tree(t: Option<TokenTree>) -> Option<Tree> {
    match t {
        Some(t) => Some(t@),
        None => None,
    }
}

impl Clone for TokenTree {
    fn clone(&self) -> (res: Self)
        ensures
            res@ == self@,
        decreases self, 1nat,
    {
        let kind = match &self.kind {
            TokenKind::Group(d, ts) => TokenKind::Group(*d, copy_all(ts.as_slice())),
            TokenKind::Ident(s) => TokenKind::Ident(s.clone()),
            TokenKind::Punct(c) => TokenKind::Punct(*c),
            TokenKind::Literal(s) => TokenKind::Literal(s.clone()),
        };
        TokenTree { handle: self.handle, kind }
    }
}

/// Copies a run of tokens.
pub fn copy_all(ts: &[TokenTree]) -> (res: TokenStream)
    ensures
        trees(res@) == trees(ts@),
    decreases ts@, 0nat,
{
    let mut res: TokenStream = Vec::new();
    let mut i: usize = 0;
    while i < ts.len()
        invariant
            i <= ts@.len(),
            trees(res@) == trees(ts@).take(i as int),
        decreases ts@.len() - i,
    {
        let ghost done = res@;
        let next = ts[i].clone();
        res.push(next);
        i = i + 1;
        proof {
            lemma_trees_push(done, next);
            assert(trees(ts@).take(i as int) =~= trees(ts@).take(i - 1).push(next@));
        }
    }
    assert(trees(ts@).take(i as int) =~= trees(ts@));
    res
}

/// The models of a run with one more token.
pub proof fn lemma_trees_push(ts: Seq<TokenTree>, t: TokenTree)
    ensures
        trees(ts.push(t)) == trees(ts).push(t@),
{
    assert(trees(ts.push(t)) =~= trees(ts).push(t@));
}

/// The models of a part of a run.
pub proof fn lemma_trees_subrange(ts: Seq<TokenTree>, i: int, j: int)
    requires
        0 <= i <= j <= ts.len(),
    ensures
        trees(ts.subrange(i, j)) == trees(ts).subrange(i, j),
{
    assert(trees(ts.subrange(i, j)) =~= trees(ts).subrange(i, j));
}

/// Where a run of tokens ends.
#[derive(Clone, Copy, Debug, PartialEq, Eq, Structural)]
pub enum Stop {
    /// At a comma.
    Comma,
    /// At a semicolon.
    Semicolon,
    /// At a comma or a semicolon.
    CommaOrSemicolon,
    /// At any punctuation.
    AnyPunct,
}

impl Stop {
    /// Whether a run ends before the token `t`.
    pub open spec fn at(self, t: Tree) -> bool {
        match self {
            Stop::Comma => punct_is(t, ','),
            Stop::Semicolon => punct_is(t, ';'),
            Stop::CommaOrSemicolon => punct_is(t, ',') || punct_is(t, ';'),
            Stop::AnyPunct => t.kind is Punct,
        }
    }

    /// Whether a run ends before the token `t`.
    pub fn test(self, t: &TokenTree) -> (res: bool)
        ensures
            res == self.at(t@),
    {
        match self {
            Stop::Comma => is_punct(t, ','),
            Stop::Semicolon => is_punct(t, ';'),
            Stop::CommaOrSemicolon => is_punct(t, ',') || is_punct(t, ';'),
            Stop::AnyPunct => match &t.kind {
                TokenKind::Punct(_) => true,
                _ => false,
            },
        }
    }
}

/// The number of tokens before the first at which `stop` ends a run.
pub open spec fn run_len(ts: Seq<Tree>, stop: Stop) -> nat
    decreases ts.len(),
{
    if ts.len() == 0 || stop.at(ts[0]) {
        0
    } else {
        1 + run_len(ts.drop_first(), stop)
    }
}

/// The tokens before the first at which `stop` ends a run.
pub open spec fn run(ts: Seq<Tree>, stop: Stop) -> Seq<Tree> {
    ts.take(run_len(ts, stop) as int)
}

/// What is left after the first `n` tokens, or nothing where there are fewer.
pub open spec fn after(ts: Seq<Tree>, n: int) -> Seq<Tree> {
    if n <= ts.len() {
        ts.skip(n)
    } else {
        Seq::empty()
    }
}

/// A run holds no token that ends it, and the token behind it does.
pub proof fn lemma_run_len(ts: Seq<Tree>, stop: Stop)
    ensures
        run_len(ts, stop) <= ts.len(),
        forall|i: int| 0 <= i < run_len(ts, stop) ==> !stop.at(#[trigger] ts[i]),
        run_len(ts, stop) < ts.len() ==> stop.at(ts[run_len(ts, stop) as int]),
    decreases ts.len(),
{
    if ts.len() != 0 && !stop.at(ts[0]) {
        let rest = ts.drop_first();
        lemma_run_len(rest, stop);
        assert forall|i: int| 0 <= i < run_len(ts, stop) implies !stop.at(#[trigger] ts[i]) by {
            if i > 0 {
                assert(rest[i - 1] == ts[i]);
            }
        }
    }
}

/// The length of a run is the only number with the properties of [`lemma_run_len`].
pub proof fn lemma_run_len_is(ts: Seq<Tree>, stop: Stop, n: int)
    requires
        0 <= n <= ts.len(),
        forall|i: int| 0 <= i < n ==> !stop.at(#[trigger] ts[i]),
        n < ts.len() ==> stop.at(ts[n]),
    ensures
        run_len(ts, stop) == n,
{
    lemma_run_len(ts, stop);
}

/// Counts the tokens before the first at which `stop` ends a run.
pub fn count_run(ts: &[TokenTree], stop: Stop) -> (res: usize)
    ensures
        res == run_len(trees(ts@), stop),
        res <= ts@.len(),
{
    let mut n: usize = 0;
    while n < ts.len() && !stop.test(&ts[n])
        invariant
            n <= ts@.len(),
            forall|i: int| 0 <= i < n ==> !stop.at(#[trigger] trees(ts@)[i]),
        decreases ts@.len() - n,
    {
        n = n + 1;
    }
    proof {
        lemma_run_len_is(trees(ts@), stop, n as int);
    }
    n
}

/// Copies the tokens before the first at which `stop` ends a run.
pub fn take_run(ts: &[TokenTree], stop: Stop) -> (res: TokenStream)
    ensures
        trees(res@) == run(trees(ts@), stop),
        res@.len() <= ts@.len(),
{
    let n = count_run(ts, stop);
    let res = copy_all(slice_subrange(ts, 0, n));
    proof {
        lemma_trees_subrange(ts@, 0, n as int);
        assert(trees(res@).len() == res@.len());
    }
    res
}

/// Goes past `n` tokens and `more` more, or to the end where there are fewer.
pub fn skip<'a>(ts: &'a [TokenTree], n: usize, more: usize) -> (res: &'a [TokenTree])
    ensures
        trees(res@) == after(trees(ts@), n + more),
        res@.len() <= ts@.len(),
{
    let len = ts.len();
    let from = if n <= len && more <= len - n {
        n + more
    } else {
        len
    };
    proof {
        lemma_trees_subrange(ts@, from as int, len as int);
        assert(trees(ts@).subrange(from as int, len as int) =~= after(trees(ts@), n + more));
    }
    slice_subrange(ts, from, len)
}

/// Whether `t` is the punctuation character `ch`.
pub open spec fn punct_is(t: Tree, ch: char) -> bool {
    t.kind == TreeKind::Punct(ch)
}

/// Tests whether `t` is the punctuation character `ch`.
pub fn is_punct(t: &TokenTree, ch: char) -> (res: bool)
    ensures
        res == punct_is(t@, ch),
{
    match &t.kind {
        TokenKind::Punct(p) => *p == ch,
        _ => false,
    }
}

/// Whether `t` is a literal of two bytes, which the empty string literal is, or an invisible
/// group that begins with one.
pub open spec fn blank(t: Tree) -> bool
    decreases t,
{
    match t.kind {
        TreeKind::Literal(text) => encode_utf8(text).len() == 2,
        TreeKind::Group(Delimiter::Invisible, ts) => ts.len() > 0 && blank(ts[0]),
        _ => false,
    }
}

/// Tests whether `t` is a literal of two bytes, or an invisible group that begins with one.
pub fn is_empty(t: &TokenTree) -> (res: bool)
    ensures
        res == blank(t@),
    decreases t,
{
    match &t.kind {
        TokenKind::Literal(text) => text.as_str().as_bytes().len() == 2,
        TokenKind::Group(Delimiter::Invisible, ts) => {
            if ts.len() > 0 {
                assert(decreases_to!(ts => ts@));
                is_empty(&ts[0])
            } else {
                false
            }
        },
        _ => false,
    }
}

/// Whether every token is blank.
pub open spec fn all_blank(ts: Seq<Tree>) -> bool {
    forall|i: int| 0 <= i < ts.len() ==> blank(#[trigger] ts[i])
}

/// Tests whether every token is blank.
pub fn is_empty_ts(ts: &[TokenTree]) -> (res: bool)
    ensures
        res == all_blank(trees(ts@)),
{
    let mut i: usize = 0;
    while i < ts.len()
        invariant
            i <= ts@.len(),
            forall|j: int| 0 <= j < i ==> blank(#[trigger] trees(ts@)[j]),
        decreases ts@.len() - i,
    {
        if !is_empty(&ts[i]) {
            assert(!blank(trees(ts@)[i as int]));
            return false;
        }
        i = i + 1;
    }
    true
}

/// A token without the invisible group around it: the first token of the group. There is none
/// where the group is empty.
pub open spec fn trimmed(t: Tree) -> Option<Tree> {
    match t.kind {
        TreeKind::Group(Delimiter::Invisible, ts) => if ts.len() > 0 {
            Some(ts[0])
        } else {
            None
        },
        _ => Some(t),
    }
}

/// Takes the invisible group around a token away.
pub fn trim(t: &TokenTree) -> (res: Result<TokenTree, Fault>)
    ensures
        match trimmed(t@) {
            Some(inner) => res matches Ok(r) && r@ == inner,
            None => res == Err::<TokenTree, Fault>(Fault::EmptyExpression),
        },
{
    match &t.kind {
        TokenKind::Group(Delimiter::Invisible, ts) => {
            if ts.len() > 0 {
                Ok(ts[0].clone())
            } else {
                Err(Fault::EmptyExpression)
            }
        },
        _ => Ok(t.clone()),
    }
}

/// The source text of a run of tokens that is a single identifier or literal.
pub open spec fn own_text(ts: Seq<Tree>) -> Option<Seq<char>> {
    if ts.len() == 1 {
        match ts[0].kind {
            TreeKind::Ident(text) => Some(text),
            TreeKind::Literal(text) => Some(text),
            _ => None,
        }
    } else {
        None
    }
}

/// The source text of a run of tokens: that of its token where it is a single identifier or
/// literal, else the text that it was printed as.
pub open spec fn source_text(ts: Seq<Tree>, printed: Seq<char>) -> Seq<char> {
    match own_text(ts) {
        Some(text) => text,
        None => printed,
    }
}

/// Gives the source text of a run of tokens, which was printed as `printed`.
pub fn text_of(ts: &[TokenTree], printed: &str) -> (res: String)
    ensures
        res@ == source_text(trees(ts@), printed@),
{
    if ts.len() == 1 {
        text_of_one(&ts[0], printed)
    } else {
        printed.to_owned()
    }
}

/// Gives the source text of one token, which was printed as `printed`.
pub fn text_of_one(t: &TokenTree, printed: &str) -> (res: String)
    ensures
        res@ == source_text(seq![t@], printed@),
{
    match &t.kind {
        TokenKind::Ident(text) => text.clone(),
        TokenKind::Literal(text) => text.clone(),
        _ => printed.to_owned(),
    }
}

/// Whether `ts` begins with an argument `name = value`.
pub open spec fn starts_named(ts: Seq<Tree>, name: Seq<char>) -> bool {
    ts.len() > 1 && ts[0].kind == TreeKind::Ident(name) && punct_is(ts[1], '=')
}

/// The value of the argument `name = value` at the front of `ts`: the tokens behind the equals
/// sign, up to the next punctuation. There is none where `ts` does not begin with that argument.
pub open spec fn named_value(ts: Seq<Tree>, name: Seq<char>) -> Option<Seq<Tree>> {
    if starts_named(ts, name) {
        Some(run(after(ts, 2), Stop::AnyPunct))
    } else {
        None
    }
}

/// What follows the argument `name = value` and the token that ends it: all of `ts` where it does
/// not begin with that argument.
pub open spec fn after_named(ts: Seq<Tree>, name: Seq<char>) -> Seq<Tree> {
    match named_value(ts, name) {
        Some(value) => after(ts, value.len() as int + 3),
        None => ts,
    }
}

/// Reads the value of the argument `name = value` at the front of `input`.
pub fn named_arg(input: &[TokenTree], name: &str) -> (res: Option<TokenStream>)
    ensures
        optional_trees(res) == named_value(trees(input@), name@),
        res matches Some(value) ==> value@.len() <= input@.len(),
{
    if input.len() < 2 || !is_punct(&input[1], '=') {
        return None;
    }
    match &input[0].kind {
        TokenKind::Ident(text) => {
            if str_eq(text.as_str(), name) {
                Some(take_run(skip(input, 2, 0), Stop::AnyPunct))
            } else {
                None
            }
        },
        _ => None,
    }
}

/// Reads the argument `name = value` at the front of `input`, and goes past it and the token that
/// ends it.
pub fn take_named<'a>(input: &'a [TokenTree], name: &str) -> (res: (
    Option<TokenStream>,
    &'a [TokenTree],
))
    ensures
        optional_trees(res.0) == named_value(trees(input@), name@),
        trees(res.1@) == after_named(trees(input@), name@),
{
    let value = named_arg(input, name);
    let rest = match &value {
        Some(value) => {
            assert(trees(value@).len() == value@.len());
            skip(input, value.len(), 3)
        },
        None => input,
    };
    (value, rest)
}

} // verus!
