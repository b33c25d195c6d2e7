//! The code that a macro call is replaced with.
//!
//! It is made of tokens of the call and of new ones. The contracts speak of [`Code`]: the same with
//! mathematical sequences in place of `Vec` and `String`.

use vstd::prelude::*;

use crate::token::trees;
use crate::token::Delimiter;
use crate::token::TokenTree;
use crate::token::Tree;

verus! {

/// Whether a punctuation character is read together with the one behind it.
#[derive(Clone, Copy, Debug, PartialEq, Eq, Structural)]
pub enum Spacing {
    /// It stands alone.
    Alone,
    /// Another punctuation character follows at once.
    Joint,
}

/// A piece of code.
#[derive(Debug, PartialEq, Eq)]
pub enum Fragment {
    /// A token of the macro call.
    Token(TokenTree),
    /// A new group.
    Group(Delimiter, Vec<Fragment>),
    /// A new identifier or keyword.
    Word(String),
    /// A new punctuation character.
    Punct(char, Spacing),
    /// A new string literal, by the text that it stands for.
    Str(String),
}

/// The model of a [`Fragment`].
pub enum Code {
    Token(Tree),
    Group(Delimiter, Seq<Code>),
    Word(Seq<char>),
    Punct(char, Spacing),
    Str(Seq<char>),
}

/// The model of one piece of code.
pub open spec fn code(f: Fragment) -> Code
    decreases f,
{
    match f {
        Fragment::Token(t) => Code::Token(t@),
        Fragment::Group(d, fs) => Code::Group(d, codes(fs@)),
        Fragment::Word(s) => Code::Word(s@),
        Fragment::Punct(c, spacing) => Code::Punct(c, spacing),
        Fragment::Str(s) => Code::Str(s@),
    }
}

/// The models of a sequence of pieces.
pub open spec fn codes(fs: Seq<Fragment>) -> Seq<Code>
    decreases fs,
{
    Seq::new(
        fs.len(),
        |i: int|
            if 0 <= i < fs.len() {
                code(fs[i])
            } else {
                arbitrary()
            },
    )
}

/// Tokens of the macro call as code.
pub open spec fn tokens(ts: Seq<Tree>) -> Seq<Code> {
    Seq::new(ts.len(), |i: int| Code::Token(ts[i]))
}

/// A comma.
pub open spec fn comma() -> Code {
    Code::Punct(',', Spacing::Alone)
}

/// A call of the method `name`.
pub open spec fn method_call(name: Seq<char>, args: Seq<Code>) -> Seq<Code> {
    seq![
        Code::Punct('.', Spacing::Alone),
        Code::Word(name),
        Code::Group(Delimiter::Parenthesis, args),
    ]
}

/// Code that is being written.
pub struct Writer {
    /// What is written so far.
    pub fragments: Vec<Fragment>,
}

impl View for Writer {
    type V = Seq<Code>;

    open spec fn view(&self) -> Seq<Code> {
        codes(self.fragments@)
    }
}

impl Writer {
    /// Begins with no code.
    pub fn new() -> (res: Writer)
        ensures
            res@ == Seq::<Code>::empty(),
    {
        let res = Writer { fragments: Vec::new() };
        assert(res@ =~= Seq::<Code>::empty());
        res
    }

    /// Writes one piece.
    pub fn push(&mut self, f: Fragment)
        ensures
            final(self)@ == old(self)@.push(code(f)),
    {
        self.fragments.push(f);
        assert(self@ =~= old(self)@.push(code(f)));
    }

    /// Writes tokens of the macro call.
    pub fn tokens(&mut self, ts: &[TokenTree])
        ensures
            final(self)@ == old(self)@ + tokens(trees(ts@)),
    {
        let mut i: usize = 0;
        while i < ts.len()
            invariant
                i <= ts@.len(),
                self@ =~= old(self)@ + tokens(trees(ts@)).take(i as int),
            decreases ts@.len() - i,
        {
            self.push(Fragment::Token(ts[i].clone()));
            i = i + 1;
        }
    }

    /// Writes an identifier or a keyword.
    pub fn word(&mut self, text: &str)
        ensures
            final(self)@ == old(self)@.push(Code::Word(text@)),
    {
        self.push(Fragment::Word(text.to_owned()));
    }

    /// Writes a punctuation character.
    pub fn punct(&mut self, ch: char, spacing: Spacing)
        ensures
            final(self)@ == old(self)@.push(Code::Punct(ch, spacing)),
    {
        self.push(Fragment::Punct(ch, spacing));
    }

    /// Writes a string literal.
    pub fn literal(&mut self, text: &str)
        ensures
            final(self)@ == old(self)@.push(Code::Str(text@)),
    {
        self.push(Fragment::Str(text.to_owned()));
    }

    /// Writes a comma.
    pub fn comma(&mut self)
        ensures
            final(self)@ == old(self)@.push(comma()),
    {
        self.punct(',', Spacing::Alone);
    }

    /// Writes a group with `inner` in it.
    pub fn group(&mut self, delimiter: Delimiter, inner: Writer)
        ensures
            final(self)@ == old(self)@.push(Code::Group(delimiter, inner@)),
    {
        self.push(Fragment::Group(delimiter, inner.fragments));
    }

    /// Writes a call of the method `name`.
    pub fn method_call(&mut self, name: &str, args: Writer)
        ensures
            final(self)@ == old(self)@ + method_call(name@, args@),
    {
        self.punct('.', Spacing::Alone);
        self.word(name);
        self.group(Delimiter::Parenthesis, args);
        assert(self@ =~= old(self)@ + method_call(name@, args@));
    }

    /// Writes two colons, the second with `spacing` behind it.
    pub fn path_sep(&mut self, spacing: Spacing)
        ensures
            final(self)@ == old(self)@ + path_sep(spacing),
    {
        self.punct(':', Spacing::Joint);
        self.punct(':', spacing);
        assert(self@ =~= old(self)@ + path_sep(spacing));
    }
}

/// Two colons, the second with `spacing` behind it.
pub open spec fn path_sep(spacing: Spacing) -> Seq<Code> {
    seq![Code::Punct(':', Spacing::Joint), Code::Punct(':', spacing)]
}

} // verus!
