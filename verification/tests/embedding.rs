use gettext_macros::code::{Fragment, Spacing};
use gettext_macros::compile::{Action, LangFiles, Outcome};
use gettext_macros::config::Config;
use gettext_macros::embed::MoFile;
use gettext_macros::fault::FileFault;
use gettext_macros::paths::{lang_paths, mo_paths, target_path};
use gettext_macros::token::Delimiter;
use gettext_macros::{compile_i18n, include_i18n};

fn file(lang: &str, path: &str, exists: bool) -> MoFile {
    MoFile { lang: lang.to_string(), path: path.to_string(), exists }
}

fn word(s: &str) -> Fragment {
    Fragment::Word(s.to_string())
}

fn string(s: &str) -> Fragment {
    Fragment::Str(s.to_string())
}

fn alone(c: char) -> Fragment {
    Fragment::Punct(c, Spacing::Alone)
}

fn joint(c: char) -> Fragment {
    Fragment::Punct(c, Spacing::Joint)
}

fn paren(inner: Vec<Fragment>) -> Fragment {
    Fragment::Group(Delimiter::Parenthesis, inner)
}

fn locale(lang: &str, path: &str) -> Vec<Fragment> {
    vec![
        paren(vec![
            string(lang),
            alone(','),
            joint(':'),
            alone(':'),
            word("gettext"),
            joint(':'),
            alone(':'),
            word("Catalog"),
            joint(':'),
            alone(':'),
            word("parse"),
            paren(vec![
                alone('&'),
                word("include_bytes"),
                alone('!'),
                paren(vec![string(path)]),
                Fragment::Group(Delimiter::Bracket, vec![joint('.'), alone('.')]),
            ]),
            alone('.'),
            word("expect"),
            paren(vec![string("Error while loading catalog")]),
        ]),
        alone(','),
    ]
}

fn vector(locales: Vec<Fragment>) -> Vec<Fragment> {
    vec![Fragment::Group(
        Delimiter::Brace,
        vec![word("vec"), alone('!'), Fragment::Group(Delimiter::Bracket, locales)],
    )]
}

#[test]
fn no_languages_give_an_empty_vector() {
    assert_eq!(include_i18n(&[]), Ok(vector(vec![])));
}

#[test]
fn each_language_has_its_catalog() {
    let mut locales = locale("de", "/t/de/app.mo");
    locales.extend(locale("eo", "/t/eo/app.mo"));
    assert_eq!(
        include_i18n(&[file("de", "/t/de/app.mo", true), file("eo", "/t/eo/app.mo", true)]),
        Ok(vector(locales))
    );
}

#[test]
fn the_first_missing_file_is_reported() {
    assert_eq!(
        include_i18n(&[
            file("de", "a.mo", true),
            file("eo", "b.mo", false),
            file("fr", "c.mo", false)
        ]),
        Err(FileFault::MissingMo("b.mo".to_string()))
    );
}

#[test]
fn what_is_compiled_is_embedded() {
    let config = Config {
        domain: "app".to_string(),
        make_po: false,
        make_mo: true,
        write_loc: true,
        langs: vec!["de".to_string(), "eo".to_string()],
    };
    let root = Ok("/w".to_string());
    let target = target_path(&None, &root).unwrap();
    let kept = Config::path(&None, &root, &Some("pkg".to_string())).unwrap();
    let files = lang_paths(&config, "/w", &target)
        .into_iter()
        .map(|paths| LangFiles {
            lang: paths.lang,
            po: paths.po.join("/"),
            mo_dir: paths.mo_dir.join("/"),
            mo: paths.mo.join("/"),
        })
        .collect();

    let mut made = vec![];
    let (mut compilation, mut action) = compile_i18n(&config, "app.pot".to_string(), files);
    while action != Action::Finish {
        if let Action::Run { program, args, .. } = &action {
            assert_eq!(program, "msgfmt");
            made.push(args[0].clone());
        }
        action = compilation.next(Outcome::Success).unwrap();
    }

    let mo_files: Vec<MoFile> = mo_paths(&config, &kept[..kept.len() - 1].join("/"))
        .into_iter()
        .map(|mo| {
            let path = mo.path.join("/");
            let exists = made.contains(&format!("--output-file={}", path));
            MoFile { lang: mo.lang, path, exists }
        })
        .collect();
    let mut locales = locale("de", "/w/target/debug/gettext_macros/de/app.mo");
    locales.extend(locale("eo", "/w/target/debug/gettext_macros/eo/app.mo"));
    assert_eq!(include_i18n(&mo_files), Ok(vector(locales)));
}
