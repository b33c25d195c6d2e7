//! Text: what the library needs of strings.

use vstd::prelude::*;
use vstd::string::StringExecFns;
use vstd::utf8::decode_utf8;
use vstd::utf8::valid_utf8;

verus! {

/// `String::push` of std: appends the given character to the end of the string.
pub assume_specification[ String::push ](s: &mut String, ch: char)
    ensures
        final(s)@ == old(s)@.push(ch),
;

/// Reads bytes as text, by `String::from_utf8` of std: the bytes give a string if and only if they
/// are valid UTF-8, and the string then holds the characters that they encode.
#[verifier::external_body]
pub(crate) fn decode(bytes: Vec<u8>) -> (res: Option<String>)
    ensures
        match res {
            Some(s) => valid_utf8(bytes@) && s@ == decode_utf8(bytes@),
            None => !valid_utf8(bytes@),
        },
{
    String::from_utf8(bytes).ok()
}

/// The characters of each string.
pub open spec fn texts(s: Seq<String>) -> Seq<Seq<char>> {
    Seq::new(s.len(), |i: int| s[i]@)
}

/// The characters of an optional string.
pub open spec fn optional_text(s: Option<String>) -> Option<Seq<char>> {
    match s {
        Some(s) => Some(s@),
        None => None,
    }
}

/// The characters of a string.
pub fn chars_of(s: &str) -> (res: Vec<char>)
    ensures
        res@ == s@,
{
    let mut res: Vec<char> = Vec::new();
    for c in iter: s.chars()
        invariant
            iter.seq() == s@,
            res@ == s@.take(iter.index() as int),
    {
        res.push(c);
    }
    res
}

/// Tests whether two strings are equal.
pub fn str_eq(a: &str, b: &str) -> (res: bool)
    ensures
        res == (a@ == b@),
{
    let a = a.to_owned();
    let b = b.to_owned();
    a == b
}

/// Two strings, one behind the other.
pub fn join2(a: &str, b: &str) -> (res: String)
    ensures
        res@ == a@ + b@,
{
    let mut res = a.to_owned();
    res.append(b);
    res
}

/// Three strings, one behind the other.
pub fn join3(a: &str, b: &str, c: &str) -> (res: String)
    ensures
        res@ == a@ + b@ + c@,
{
    let mut res = a.to_owned();
    res.append(b);
    res.append(c);
    res
}

/// Copies a run of strings.
pub fn copy_texts(s: &[String]) -> (res: Vec<String>)
    ensures
        res@ == s@,
{
    let mut res: Vec<String> = Vec::new();
    let mut i: usize = 0;
    while i < s.len()
        invariant
            i <= s@.len(),
            res@ == s@.take(i as int),
        decreases s@.len() - i,
    {
        res.push(s[i].clone());
        i = i + 1;
    }
    res
}

/// Whether `part` stands in `whole` from position `i` on.
pub open spec fn occurs_at(whole: Seq<char>, part: Seq<char>, i: int) -> bool {
    0 <= i && i + part.len() <= whole.len() && whole.subrange(i, i + part.len()) == part
}

/// Whether `part` stands anywhere in `whole`.
pub open spec fn occurs(whole: Seq<char>, part: Seq<char>) -> bool {
    exists|i: int| occurs_at(whole, part, i)
}

/// Tests whether `part` stands anywhere in `whole`.
pub fn contains(whole: &str, part: &str) -> (res: bool)
    ensures
        res == occurs(whole@, part@),
{
    let w = chars_of(whole);
    let p = chars_of(part);
    if p.len() > w.len() {
        return false;
    }
    let last = w.len() - p.len();
    let mut i: usize = 0;
    loop
        invariant
            i <= last,
            w@ == whole@,
            p@ == part@,
            last + p@.len() == w@.len(),
            w@.len() <= usize::MAX,
            forall|j: int| 0 <= j < i ==> !occurs_at(w@, p@, j),
        decreases last - i,
    {
        let mut k: usize = 0;
        while k < p.len() && w[i + k] == p[k]
            invariant
                k <= p@.len(),
                i + p@.len() <= w@.len(),
                w@.len() <= usize::MAX,
                forall|j: int| 0 <= j < k ==> w@[i + j] == #[trigger] p@[j],
            decreases p@.len() - k,
        {
            k = k + 1;
        }
        if k == p.len() {
            assert(w@.subrange(i as int, i + p@.len()) =~= p@);
            assert(occurs_at(w@, p@, i as int));
            return true;
        }
        assert(!occurs_at(w@, p@, i as int)) by {
            if occurs_at(w@, p@, i as int) {
                assert(w@.subrange(i as int, i + p@.len())[k as int] == p@[k as int]);
            }
        }
        if i == last {
            assert forall|j: int| !occurs_at(w@, p@, j) by {}
            return false;
        }
        i = i + 1;
    }
}

/// A text without its double quotes.
pub open spec fn unquoted(s: Seq<char>) -> Seq<char> {
    s.filter(|c: char| c != '"')
}

/// Takes the double quotes out of a text.
pub fn without_quotes(s: &str) -> (res: String)
    ensures
        res@ == unquoted(s@),
{
    let mut res = String::new();
    let cs = chars_of(s);
    let mut i: usize = 0;
    proof {
        reveal(Seq::filter);
    }
    while i < cs.len()
        invariant
            i <= cs@.len(),
            res@ == unquoted(cs@.take(i as int)),
        decreases cs@.len() - i,
    {
        proof {
            reveal(Seq::filter);
            assert(cs@.take(i + 1).drop_last() =~= cs@.take(i as int));
        }
        if cs[i] != '"' {
            res.push(cs[i]);
        }
        i = i + 1;
    }
    assert(cs@.take(i as int) =~= cs@);
    res
}

/// The decimal digit of a number below ten.
pub open spec fn digit(n: nat) -> char {
    (('0' as nat) + n) as char
}

/// A number in decimal notation.
pub open spec fn decimal(n: nat) -> Seq<char>
    decreases n,
{
    if n < 10 {
        seq![digit(n)]
    } else {
        decimal(n / 10).push(digit(n % 10))
    }
}

/// Writes a number in decimal notation behind a text.
pub fn push_decimal(out: &mut String, n: usize)
    ensures
        final(out)@ == old(out)@ + decimal(n as nat),
    decreases n,
{
    if n >= 10 {
        push_decimal(out, n / 10);
    }
    let d: u8 = '0' as u8 + (n % 10) as u8;
    assert(d as char == digit((n % 10) as nat));
    out.push(d as char);
    assert(out@ =~= old(out)@ + decimal(n as nat));
}

} // verus!
