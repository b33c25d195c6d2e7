use gettext_macros::fault::Fault;
use gettext_macros::token::{
    copy_all, count_run, is_empty, is_empty_ts, is_punct, named_arg, skip, take_named, take_run,
    text_of, text_of_one, trim, Delimiter, Stop, TokenKind, TokenTree,
};

fn tok(handle: usize, kind: TokenKind) -> TokenTree {
    TokenTree { handle, kind }
}

fn id(s: &str) -> TokenTree {
    tok(1, TokenKind::Ident(s.to_string()))
}

fn lit(s: &str) -> TokenTree {
    tok(2, TokenKind::Literal(s.to_string()))
}

fn p(c: char) -> TokenTree {
    tok(3, TokenKind::Punct(c))
}

fn group(d: Delimiter, inner: Vec<TokenTree>) -> TokenTree {
    tok(4, TokenKind::Group(d, inner))
}

#[test]
fn punctuation_is_told_by_its_character() {
    assert!(is_punct(&p(','), ','));
    assert!(!is_punct(&p(';'), ','));
    assert!(!is_punct(&lit("\",\""), ','));
    assert!(!is_punct(&id("x"), ','));
}

#[test]
fn only_two_byte_literals_are_empty() {
    assert!(is_empty(&lit("\"\"")));
    assert!(is_empty(&lit("42")));
    assert!(!is_empty(&lit("\"a\"")));
    assert!(!is_empty(&lit("\"é\"")));
    assert!(!is_empty(&lit("7")));
    assert!(!is_empty(&id("ab")));
    assert!(!is_empty(&p('"')));
}

#[test]
fn invisible_groups_are_empty_with_their_first_token() {
    assert!(is_empty(&group(Delimiter::Invisible, vec![lit("\"\""), lit("\"x\"")])));
    assert!(is_empty(&group(
        Delimiter::Invisible,
        vec![group(Delimiter::Invisible, vec![lit("\"\"")])]
    )));
    assert!(!is_empty(&group(Delimiter::Invisible, vec![])));
    assert!(!is_empty(&group(Delimiter::Invisible, vec![lit("\"x\"")])));
    assert!(!is_empty(&group(Delimiter::Parenthesis, vec![lit("\"\"")])));
}

#[test]
fn a_stream_is_empty_with_all_its_tokens() {
    assert!(is_empty_ts(&[]));
    assert!(is_empty_ts(&[lit("\"\""), lit("\"\"")]));
    assert!(!is_empty_ts(&[lit("\"\""), lit("\"x\"")]));
}

#[test]
fn trimming_takes_one_invisible_group_away() {
    assert_eq!(trim(&lit("\"x\"")), Ok(lit("\"x\"")));
    assert_eq!(
        trim(&group(Delimiter::Invisible, vec![lit("\"x\""), id("rest")])),
        Ok(lit("\"x\""))
    );
    let inner = group(Delimiter::Invisible, vec![lit("\"x\"")]);
    assert_eq!(trim(&group(Delimiter::Invisible, vec![inner.clone()])), Ok(inner));
    let braces = group(Delimiter::Brace, vec![lit("\"x\"")]);
    assert_eq!(trim(&braces), Ok(braces.clone()));
    assert_eq!(trim(&group(Delimiter::Invisible, vec![])), Err(Fault::EmptyExpression));
}

#[test]
fn runs_end_where_they_are_told_to() {
    let ts = vec![id("a"), p('.'), id("b"), p(','), id("c"), p(';'), id("d")];
    assert_eq!(count_run(&ts, Stop::Comma), 3);
    assert_eq!(count_run(&ts, Stop::Semicolon), 5);
    assert_eq!(count_run(&ts, Stop::CommaOrSemicolon), 3);
    assert_eq!(count_run(&ts[4..], Stop::CommaOrSemicolon), 1);
    assert_eq!(count_run(&ts, Stop::AnyPunct), 1);
    assert_eq!(count_run(&ts[6..], Stop::Comma), 1);
    assert_eq!(count_run(&[], Stop::Comma), 0);
    assert_eq!(take_run(&ts, Stop::Comma), copy_all(&ts[..3]));
}

#[test]
fn skipping_stops_at_the_end() {
    let ts = vec![id("a"), id("b"), id("c")];
    assert_eq!(skip(&ts, 1, 1), &ts[2..]);
    assert_eq!(skip(&ts, 0, 0), &ts[..]);
    assert_eq!(skip(&ts, 3, 1), &[] as &[TokenTree]);
    assert_eq!(skip(&ts, usize::MAX, usize::MAX), &[] as &[TokenTree]);
}

#[test]
fn named_arguments_are_read_up_to_punctuation() {
    let ts = vec![id("po"), p('='), id("false"), id("x"), p(','), id("de")];
    assert_eq!(named_arg(&ts, "po"), Some(vec![id("false"), id("x")]));
    assert_eq!(named_arg(&ts, "mo"), None);
    assert_eq!(named_arg(&[], "po"), None);
    assert_eq!(named_arg(&[lit("po")], "po"), None);
    assert_eq!(named_arg(&[id("po")], "po"), None);
    assert_eq!(named_arg(&[id("po"), p('=')], "po"), Some(vec![]));
    let (value, rest) = take_named(&ts, "po");
    assert_eq!(value, Some(vec![id("false"), id("x")]));
    assert_eq!(rest, &[id("de")]);
    let (value, rest) = take_named(&ts, "mo");
    assert_eq!(value, None);
    assert_eq!(rest, &ts[..]);
}

#[test]
fn a_name_without_an_equals_sign_is_no_argument() {
    let ts = vec![id("mo"), p(','), id("en")];
    assert_eq!(named_arg(&ts, "mo"), None);
    let (value, rest) = take_named(&ts, "mo");
    assert_eq!(value, None);
    assert_eq!(rest, &ts[..]);
    assert_eq!(named_arg(&[id("mo"), id("en")], "mo"), None);
}

#[test]
fn single_tokens_are_their_own_text() {
    assert_eq!(text_of(&[lit("\"x\"")], "printed"), "\"x\"");
    assert_eq!(text_of(&[id("x")], "printed"), "x");
    assert_eq!(text_of(&[p(',')], "printed"), "printed");
    assert_eq!(text_of(&[id("x"), id("y")], "x y"), "x y");
    assert_eq!(text_of(&[], ""), "");
    assert_eq!(text_of_one(&group(Delimiter::Bracket, vec![]), "[]"), "[]");
    assert_eq!(text_of_one(&lit("1"), ""), "1");
}

#[test]
fn copies_are_equal() {
    let t = group(Delimiter::Bracket, vec![group(Delimiter::Brace, vec![id("a")]), lit("1")]);
    assert_eq!(t.clone(), t);
}
