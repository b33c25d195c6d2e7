use gettext_macros::config::Config;
use gettext_macros::fault::Fault;
use gettext_macros::message::{Location, Message, Printed};
use gettext_macros::token::{Delimiter, TokenKind, TokenTree};

fn tok(kind: TokenKind) -> TokenTree {
    TokenTree { handle: 0, kind }
}

fn lit(s: &str) -> TokenTree {
    tok(TokenKind::Literal(s.to_string()))
}

fn id(s: &str) -> TokenTree {
    tok(TokenKind::Ident(s.to_string()))
}

fn config(write_loc: bool) -> Config {
    Config {
        domain: "app".to_string(),
        make_po: true,
        make_mo: true,
        write_loc,
        langs: vec![],
    }
}

fn message(content: Vec<TokenTree>) -> Message {
    Message { content, plural: None, context: None, format_args: vec![], writable: true }
}

fn printed() -> Printed {
    Printed { content: "C".to_string(), plural: "P".to_string(), context: "X".to_string() }
}

fn place() -> Option<Location> {
    Some(Location { path: "src/main.rs".to_string(), absolute: false, line: 120 })
}

#[test]
fn singular_is_listed() {
    let entry = message(vec![lit("\"Hello\"")]).write(&config(true), &printed(), "", &None);
    assert_eq!(entry, Some("\nmsgid \"Hello\"\nmsgstr \"\"\n".to_string()));
}

#[test]
fn plural_context_and_location_are_listed() {
    let mut m = message(vec![lit("\"One\"")]);
    m.plural = Some(vec![lit("\"Many\"")]);
    m.context = Some(lit("\"ctx\""));
    assert_eq!(
        m.write(&config(true), &printed(), "head\n", &place()),
        Some(
            "\n#: src/main.rs:120\nmsgctxt \"ctx\"\nmsgid \"One\"\nmsgid_plural \"Many\"\nmsgstr[0] \"\"\n"
                .to_string()
        )
    );
}

#[test]
fn singular_and_plural_have_their_faults() {
    let mut m = message(vec![lit("\"One\"")]);
    assert_eq!(m.write_fault(), Fault::MessageNotWritten);
    m.plural = Some(vec![lit("\"Many\"")]);
    assert_eq!(m.write_fault(), Fault::PluralNotWritten);
}

#[test]
fn locations_can_be_turned_off() {
    let m = message(vec![lit("\"Hello\"")]);
    let without = Some("\nmsgid \"Hello\"\nmsgstr \"\"\n".to_string());
    assert_eq!(m.write(&config(false), &printed(), "", &place()), without);
    let absolute = Some(Location { path: "/a.rs".to_string(), absolute: true, line: 1 });
    assert_eq!(m.write(&config(true), &printed(), "", &absolute), without);
    assert_eq!(
        m.write(&config(true), &printed(), "", &place()),
        Some("\n#: src/main.rs:120\nmsgid \"Hello\"\nmsgstr \"\"\n".to_string())
    );
}

#[test]
fn printed_text_is_used_for_more_than_one_token() {
    let mut m = message(vec![lit("\"a\""), lit("\"b\"")]);
    m.plural = Some(vec![id("f"), tok(TokenKind::Group(Delimiter::Parenthesis, vec![]))]);
    m.context = Some(tok(TokenKind::Group(Delimiter::Invisible, vec![lit("\"x\"")])));
    assert_eq!(
        m.write(&config(true), &printed(), "", &None),
        Some("\nmsgctxt X\nmsgid C\nmsgid_plural P\nmsgstr[0] \"\"\n".to_string())
    );
}

#[test]
fn a_message_is_listed_once() {
    let mut m = message(vec![lit("\"Hello\"")]);
    m.context = Some(lit("\"ctx\""));
    let mut pot = "msgid \"\"\nmsgstr \"\"\n".to_string();
    let entry = m.write(&config(true), &printed(), &pot, &place()).unwrap();
    pot.push_str(&entry);
    assert_eq!(m.write(&config(true), &printed(), &pot, &place()), None);
    assert_eq!(m.write(&config(true), &printed(), &pot, &None), None);
    pot.push_str("\nmsgid \"Other\"\nmsgstr \"\"\n");
    assert_eq!(m.write(&config(true), &printed(), &pot, &None), None);
}

#[test]
fn context_tells_messages_apart() {
    let mut m = message(vec![lit("\"Hello\"")]);
    let pot = m.write(&config(true), &printed(), "", &None).unwrap();
    m.context = Some(lit("\"ctx\""));
    assert!(m.write(&config(true), &printed(), &pot, &None).is_some());
    m.context = None;
    let pot = "\nmsgctxt \"ctx\"\nmsgid \"Hello\"\nmsgstr \"\"\n";
    assert_eq!(m.write(&config(true), &printed(), pot, &None), None);
}

#[test]
fn blank_messages_and_expressions_are_not_listed() {
    let m = message(vec![lit("\"\"")]);
    assert_eq!(m.write(&config(true), &printed(), "", &None), None);
    let mut m = message(vec![id("text")]);
    m.writable = false;
    assert_eq!(m.write(&config(true), &printed(), "", &None), None);
}
