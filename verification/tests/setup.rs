use gettext_macros::code::Fragment;
use gettext_macros::config::Config;
use gettext_macros::fault::Fault;
use gettext_macros::init::{InitArgs, PrintedFlags};
use gettext_macros::token::{Delimiter, TokenKind, TokenTree};
use gettext_macros::{i18n_domain, init_i18n};

fn tok(kind: TokenKind) -> TokenTree {
    TokenTree { handle: 5, kind }
}

fn id(s: &str) -> TokenTree {
    tok(TokenKind::Ident(s.to_string()))
}

fn lit(s: &str) -> TokenTree {
    tok(TokenKind::Literal(s.to_string()))
}

fn p(c: char) -> TokenTree {
    tok(TokenKind::Punct(c))
}

fn texts(s: &[&str]) -> Vec<String> {
    s.iter().map(|s| s.to_string()).collect()
}

fn unprinted() -> PrintedFlags {
    PrintedFlags { po: String::new(), mo: String::new(), location: String::new() }
}

#[test]
fn languages_alone_are_read() {
    let input = vec![lit("\"my_app\""), p(','), id("de"), p(','), id("en"), p(','), id("eo")];
    let args = init_i18n(&input).unwrap();
    assert_eq!(
        args,
        InitArgs {
            domain: "my_app".to_string(),
            po: None,
            mo: None,
            location: None,
            langs: texts(&["de", "en", "eo"]),
        }
    );
    assert_eq!(
        args.setup(&unprinted()).config,
        Config {
            domain: "my_app".to_string(),
            make_po: true,
            make_mo: true,
            write_loc: true,
            langs: texts(&["de", "en", "eo"]),
        }
    );
}

#[test]
fn options_are_read() {
    let mut input = vec![lit("\"my_app\"")];
    for name in ["po", "mo", "location"] {
        input.extend(vec![p(','), id(name), p('='), id("false")]);
    }
    input.extend(vec![p(','), id("de")]);
    let args = init_i18n(&input).unwrap();
    assert_eq!(args.po, Some(vec![id("false")]));
    assert_eq!(args.mo, Some(vec![id("false")]));
    assert_eq!(args.location, Some(vec![id("false")]));
    let config = args.setup(&unprinted()).config;
    assert!(!config.make_po);
    assert!(!config.make_mo);
    assert!(!config.write_loc);
    assert_eq!(config.langs, texts(&["de"]));
}

#[test]
fn some_options_may_be_missing() {
    let input = vec![lit("\"a\""), p(','), id("mo"), p('='), id("true"), p(','), id("location")];
    let args = init_i18n(&input).unwrap();
    assert_eq!(args.po, None);
    assert_eq!(args.mo, Some(vec![id("true")]));
    assert_eq!(args.location, None);
    assert_eq!(args.langs, texts(&["location"]));
    let input = vec![lit("\"a\""), p(','), id("location"), p('='), id("false")];
    let args = init_i18n(&input).unwrap();
    assert_eq!(args.langs, texts(&[]));
    let config = args.setup(&unprinted()).config;
    assert!(config.make_po && config.make_mo && !config.write_loc);
}

#[test]
fn languages_may_be_named_like_options() {
    let input = vec![lit("\"a\""), p(','), id("mo"), p(','), id("en")];
    let args = init_i18n(&input).unwrap();
    assert_eq!(args.mo, None);
    assert_eq!(args.langs, texts(&["mo", "en"]));
    let args = init_i18n(&[lit("\"a\""), p(','), id("po")]).unwrap();
    assert_eq!(args.langs, texts(&["po"]));
    let mut input = vec![lit("\"a\""), p(','), id("location"), p('='), id("true")];
    input.extend(vec![p(','), id("mo"), p(','), id("po")]);
    assert_eq!(init_i18n(&input).unwrap().langs, texts(&["mo", "po"]));
}

#[test]
fn printed_values_decide_for_groups() {
    let value = tok(TokenKind::Group(Delimiter::Invisible, vec![id("true")]));
    let input = vec![lit("\"a\""), p(','), id("po"), p('='), value];
    let printed = PrintedFlags {
        po: "true".to_string(),
        mo: "false".to_string(),
        location: "false".to_string(),
    };
    let config = init_i18n(&input).unwrap().setup(&printed).config;
    assert!(config.make_po && config.make_mo && config.write_loc);
    assert!(!init_i18n(&input).unwrap().setup(&unprinted()).config.make_po);
}

#[test]
fn the_domain_has_to_be_a_literal() {
    assert_eq!(init_i18n(&[]), Err(Fault::ExpectedDomain));
    assert_eq!(init_i18n(&[id("my_app")]), Err(Fault::DomainNotStr));
    assert_eq!(init_i18n(&[lit("42")]).unwrap().domain, "42");
}

#[test]
fn languages_have_to_be_identifiers() {
    let refused = Err(Fault::ExpectedLanguage);
    assert_eq!(init_i18n(&[lit("\"a\""), p(','), lit("\"de\"")]), refused);
    assert_eq!(init_i18n(&[lit("\"a\""), p(','), id("de"), p(',')]), refused);
    assert_eq!(init_i18n(&[lit("\"a\""), p(','), id("de"), p(','), lit("1")]), refused);
    assert_eq!(init_i18n(&[lit("\"a\""), id("de"), p(','), id("en")]), refused);
}

#[test]
fn a_list_of_languages_ends_without_a_comma() {
    let args = init_i18n(&[lit("\"a\""), p(','), id("de"), p(';'), id("en")]).unwrap();
    assert_eq!(args.langs, texts(&["de"]));
    assert_eq!(init_i18n(&[lit("\"a\""), p(',')]).unwrap().langs, texts(&[]));
    assert_eq!(init_i18n(&[lit("\"a\""), id("x"), id("de")]).unwrap().langs, texts(&["de"]));
}

#[test]
fn the_template_begins_with_a_head() {
    let setup = init_i18n(&[lit("\"my_app\"")]).unwrap().setup(&unprinted());
    assert_eq!(setup.pot_dir, "po/my_app");
    assert_eq!(setup.pot_file, "po/my_app/my_app.pot");
    assert_eq!(setup.code, vec![]);
    assert_eq!(
        setup.pot,
        r#"msgid ""
msgstr ""
"Project-Id-Version: my_app\n"
"Report-Msgid-Bugs-To: \n"
"POT-Creation-Date: 2018-06-15 16:33-0700\n"
"PO-Revision-Date: YEAR-MO-DA HO:MI+ZONE\n"
"Last-Translator: FULL NAME <EMAIL@ADDRESS>\n"
"Language-Team: LANGUAGE <LL@li.org>\n"
"Language: \n"
"MIME-Version: 1.0\n"
"Content-Type: text/plain; charset=UTF-8\n"
"Content-Transfer-Encoding: 8bit\n"
"Plural-Forms: nplurals=INTEGER; plural=EXPRESSION;\n"
"#
    );
}

#[test]
fn what_is_set_up_is_read_by_others() {
    let input = vec![lit("\"my_app\""), p(','), id("po"), p('='), id("false"), p(','), id("de")];
    let config = init_i18n(&input).unwrap().setup(&unprinted()).config;
    let contents: Vec<u8> = config.write().into_iter().flat_map(|line| line.bytes).collect();
    assert_eq!(Config::read(&contents), Ok(config));
}

#[test]
fn the_domain_is_given_back() {
    let input = vec![lit("\"my app\""), p(','), id("mo"), p('='), id("false"), p(','), id("de")];
    let config = init_i18n(&input).unwrap().setup(&unprinted()).config;
    let contents: Vec<u8> = config.write().into_iter().flat_map(|line| line.bytes).collect();
    let config = Config::read(&contents).unwrap();
    assert_eq!(i18n_domain(&config), vec![Fragment::Str("my app".to_string())]);
}
