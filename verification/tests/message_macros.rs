use gettext_macros::code::{Fragment, Spacing};
use gettext_macros::config::Config;
use gettext_macros::fault::Fault;
use gettext_macros::message::Message;
use gettext_macros::token::{Delimiter, TokenKind, TokenTree};
use gettext_macros::{i18n, i18n_domain, t};

fn tok(handle: usize, kind: TokenKind) -> TokenTree {
    TokenTree { handle, kind }
}

fn id(handle: usize, s: &str) -> TokenTree {
    tok(handle, TokenKind::Ident(s.to_string()))
}

fn lit(handle: usize, s: &str) -> TokenTree {
    tok(handle, TokenKind::Literal(s.to_string()))
}

fn p(handle: usize, c: char) -> TokenTree {
    tok(handle, TokenKind::Punct(c))
}

fn invisible(inner: Vec<TokenTree>) -> TokenTree {
    tok(99, TokenKind::Group(Delimiter::Invisible, inner))
}

fn word(s: &str) -> Fragment {
    Fragment::Word(s.to_string())
}

fn alone(c: char) -> Fragment {
    Fragment::Punct(c, Spacing::Alone)
}

fn joint(c: char) -> Fragment {
    Fragment::Punct(c, Spacing::Joint)
}

fn paren(inner: Vec<Fragment>) -> Fragment {
    Fragment::Group(Delimiter::Parenthesis, inner)
}

fn token(t: TokenTree) -> Fragment {
    Fragment::Token(t)
}

/// The block around a lookup and the format arguments.
fn block(mut call: Vec<Fragment>, args: Vec<TokenTree>) -> Vec<Fragment> {
    call.push(alone(','));
    call.extend(args.into_iter().map(token));
    vec![Fragment::Group(
        Delimiter::Brace,
        vec![
            word("use"),
            word("runtime_fmt"),
            joint(':'),
            joint(':'),
            joint('*'),
            alone(';'),
            word("rt_format"),
            alone('!'),
            paren(call),
            alone('.'),
            word("expect"),
            paren(vec![Fragment::Str("Error while formatting message".to_string())]),
        ],
    )]
}

#[test]
fn singular_is_marked() {
    let done = t(&[lit(0, "\"Hello\"")]).unwrap();
    assert_eq!(done.code, vec![token(lit(0, "\"Hello\""))]);
    assert_eq!(
        done.message,
        Message {
            content: vec![lit(0, "\"Hello\"")],
            plural: None,
            context: None,
            format_args: vec![],
            writable: true,
        }
    );
}

#[test]
fn singular_and_plural_are_marked() {
    let done = t(&[lit(0, "\"Singular\""), p(1, ','), lit(2, "\"Plural\"")]).unwrap();
    assert_eq!(
        done.code,
        vec![paren(vec![token(lit(0, "\"Singular\"")), alone(','), token(lit(2, "\"Plural\""))])]
    );
    assert_eq!(done.message.plural, Some(vec![lit(2, "\"Plural\"")]));
}

#[test]
fn context_is_marked() {
    let input = vec![
        id(0, "context"),
        p(1, '='),
        lit(2, "\"ctx\""),
        p(3, ','),
        lit(4, "\"One\""),
        p(5, ','),
        lit(6, "\"Many\""),
    ];
    let done = t(&input).unwrap();
    assert_eq!(done.message.context, Some(lit(2, "\"ctx\"")));
    assert_eq!(done.message.content, vec![lit(4, "\"One\"")]);
    assert_eq!(done.message.plural, Some(vec![lit(6, "\"Many\"")]));
    assert_eq!(done.message.format_args, vec![]);
    assert!(done.message.writable);
}

#[test]
fn marking_needs_a_message() {
    assert_eq!(t(&[]), Err(Fault::ExpectedCatalog));
    assert_eq!(
        t(&[id(0, "context"), p(1, '='), lit(2, "\"ctx\"")]),
        Err(Fault::ExpectedMessage)
    );
    assert_eq!(t(&[invisible(vec![])]), Err(Fault::EmptyExpression));
    assert_eq!(t(&[invisible(vec![invisible(vec![])])]), Err(Fault::EmptyExpression));
}

#[test]
fn macro_variables_are_trimmed() {
    let done = t(&[invisible(vec![lit(7, "\"x\"")])]).unwrap();
    assert_eq!(done.message.content, vec![lit(7, "\"x\"")]);
    assert!(done.message.writable);
    let done = t(&[id(0, "x")]).unwrap();
    assert!(!done.message.writable);
}

#[test]
fn plain_message_is_translated() {
    // i18n!(cat, "Hello, world!")
    let done = i18n(&[id(0, "cat"), p(1, ','), lit(2, "\"Hello, world!\"")]).unwrap();
    assert_eq!(
        done.code,
        block(
            vec![
                token(id(0, "cat")),
                alone('.'),
                word("gettext"),
                paren(vec![token(lit(2, "\"Hello, world!\""))]),
            ],
            vec![]
        )
    );
    assert!(done.message.writable);
}

#[test]
fn context_and_arguments_are_translated() {
    // i18n!(cat, context = "c", "Hello, {0}!"; name, 2)
    let args = vec![id(9, "name"), p(10, ','), lit(11, "2")];
    let mut input = vec![
        id(0, "cat"),
        p(1, ','),
        id(2, "context"),
        p(3, '='),
        lit(4, "\"c\""),
        p(5, ','),
        lit(6, "\"Hello, {0}!\""),
        p(7, ';'),
    ];
    input.extend(args.clone());
    let done = i18n(&input).unwrap();
    assert_eq!(
        done.code,
        block(
            vec![
                token(id(0, "cat")),
                alone('.'),
                word("pgettext"),
                paren(vec![
                    token(lit(4, "\"c\"")),
                    alone(','),
                    token(lit(6, "\"Hello, {0}!\"")),
                ]),
            ],
            args.clone()
        )
    );
    assert_eq!(done.message.format_args, args);
}

#[test]
fn plural_is_translated_by_the_first_argument() {
    // i18n!(self.cat, "flower", "garden"; n, x)
    let args = vec![id(8, "n"), p(9, ','), id(10, "x")];
    let mut input = vec![
        id(0, "self"),
        p(1, '.'),
        id(2, "cat"),
        p(3, ','),
        lit(4, "\"flower\""),
        p(5, ','),
        lit(6, "\"garden\""),
        p(7, ';'),
    ];
    input.extend(args.clone());
    let done = i18n(&input).unwrap();
    assert_eq!(
        done.code,
        block(
            vec![
                token(id(0, "self")),
                token(p(1, '.')),
                token(id(2, "cat")),
                alone('.'),
                word("ngettext"),
                paren(vec![
                    token(lit(4, "\"flower\"")),
                    alone(','),
                    token(lit(6, "\"garden\"")),
                    alone(','),
                    token(id(8, "n")),
                    word("as"),
                    word("u64"),
                ]),
            ],
            args
        )
    );
}

#[test]
fn all_options_are_translated() {
    let input = vec![
        id(0, "cat"),
        p(1, ','),
        id(2, "context"),
        p(3, '='),
        lit(4, "\"c\""),
        p(5, ','),
        lit(6, "\"one\""),
        p(7, ','),
        lit(8, "\"many\""),
        p(9, ';'),
        id(10, "updates"),
    ];
    let done = i18n(&input).unwrap();
    assert_eq!(
        done.code,
        block(
            vec![
                token(id(0, "cat")),
                alone('.'),
                word("npgettext"),
                paren(vec![
                    token(lit(4, "\"c\"")),
                    alone(','),
                    token(lit(6, "\"one\"")),
                    alone(','),
                    token(lit(8, "\"many\"")),
                    alone(','),
                    token(id(10, "updates")),
                    word("as"),
                    word("u64"),
                ]),
            ],
            vec![id(10, "updates")]
        )
    );
}

#[test]
fn expressions_are_translated_and_not_writable() {
    // i18n!(cat, plural.0, plural.1; 57)
    let input = vec![
        id(0, "cat"),
        p(1, ','),
        id(2, "plural"),
        p(3, '.'),
        lit(4, "0"),
        p(5, ','),
        id(6, "plural"),
        p(7, '.'),
        lit(8, "1"),
        p(9, ';'),
        lit(10, "57"),
    ];
    let done = i18n(&input).unwrap();
    assert!(!done.message.writable);
    assert_eq!(done.message.content, input[2..5].to_vec());
    assert_eq!(done.message.plural, Some(input[6..9].to_vec()));
    assert_eq!(done.message.format_args, vec![lit(10, "57")]);
}

#[test]
fn a_variable_may_be_named_context() {
    // i18n!(cat, context, context.many; 3)
    let input = vec![
        id(0, "cat"),
        p(1, ','),
        id(2, "context"),
        p(3, ','),
        id(4, "context"),
        p(5, '.'),
        id(6, "many"),
        p(7, ';'),
        lit(8, "3"),
    ];
    let done = i18n(&input).unwrap();
    assert_eq!(done.message.context, None);
    assert_eq!(done.message.content, vec![id(2, "context")]);
    assert_eq!(done.message.plural, Some(input[4..7].to_vec()));
    assert_eq!(done.message.format_args, vec![lit(8, "3")]);
}

#[test]
fn translating_needs_something() {
    assert_eq!(i18n(&[]), Err(Fault::ExpectedCatalog));
    assert_eq!(
        i18n(&[id(0, "cat"), p(1, ','), invisible(vec![])]),
        Err(Fault::EmptyExpression)
    );
    let done = i18n(&[id(0, "cat")]).unwrap();
    assert_eq!(done.message.content, vec![]);
    assert!(!done.message.writable);
}

#[test]
fn semicolons_end_messages_and_plurals() {
    let parsed = Message::parse(&[lit(0, "\"a\""), p(1, ';'), p(2, ';')], false).unwrap();
    assert_eq!(parsed.format_args, vec![p(2, ';')]);
    let parsed = Message::parse(
        &[lit(0, "\"a\""), p(1, ','), lit(2, "\"b\""), p(3, ';'), p(4, ';'), id(5, "x")],
        false,
    )
    .unwrap();
    assert_eq!(parsed.format_args, vec![id(5, "x")]);
    let parsed = Message::parse(&[lit(0, "\"a\""), p(1, ',')], false).unwrap();
    assert_eq!(parsed.plural, Some(vec![]));
}

#[test]
fn domain_is_a_literal() {
    let config = Config {
        domain: "my \"app\"".to_string(),
        make_po: true,
        make_mo: true,
        write_loc: true,
        langs: vec![],
    };
    assert_eq!(i18n_domain(&config), vec![Fragment::Str("my \"app\"".to_string())]);
}
