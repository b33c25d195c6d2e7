use gettext_macros::compile::{Action, Compilation, LangFiles, Outcome};
use gettext_macros::compile_i18n;
use gettext_macros::config::Config;
use gettext_macros::fault::{Fault, FileFault};

fn start(make_po: bool, make_mo: bool, langs: &[&str]) -> (Compilation, Action) {
    let config = Config {
        domain: "app".to_string(),
        make_po,
        make_mo,
        write_loc: true,
        langs: langs.iter().map(|l| l.to_string()).collect(),
    };
    let files = langs
        .iter()
        .map(|l| LangFiles {
            lang: l.to_string(),
            po: format!("po/{}.po", l),
            mo_dir: format!("t/{}", l),
            mo: format!("t/{}/app.mo", l),
        })
        .collect();
    compile_i18n(&config, "po/app.pot".to_string(), files)
}

fn program(name: &str, args: &[&str]) -> Result<Action, FileFault> {
    Ok(Action::Run {
        say: None,
        program: name.to_string(),
        args: args.iter().map(|a| a.to_string()).collect(),
    })
}

fn creating(lang: &str) -> Result<Action, FileFault> {
    let mut action = program(
        "msginit",
        &[
            "--input=po/app.pot",
            &format!("--output-file=po/{}.po", lang),
            "-l",
            lang,
            "--no-translator",
        ],
    );
    if let Ok(Action::Run { say, .. }) = &mut action {
        *say = Some(format!("Creating {}", lang));
    }
    action
}

fn plain(fault: Fault) -> Result<Action, FileFault> {
    Err(FileFault::Plain(fault))
}

#[test]
fn both_kinds_of_files_are_made_for_each_language() {
    let (mut c, action) = start(true, true, &["de", "eo"]);
    assert_eq!(action, Action::FindFile("po/de.po".to_string()));
    assert_eq!(c.next(Outcome::Success), program("msgmerge", &["-U", "po/de.po", "po/app.pot"]));
    assert_eq!(c.next(Outcome::Success), Ok(Action::FindAny("po/de.po".to_string())));
    assert_eq!(c.next(Outcome::Success), Ok(Action::MakeDir("t/de".to_string())));
    assert_eq!(
        c.next(Outcome::Success),
        program("msgfmt", &["--output-file=t/de/app.mo", "po/de.po"])
    );
    assert_eq!(c.next(Outcome::Success), Ok(Action::FindFile("po/eo.po".to_string())));
    assert_eq!(c.next(Outcome::Failure), creating("eo"));
    assert_eq!(c.next(Outcome::Success), Ok(Action::FindAny("po/eo.po".to_string())));
    assert_eq!(c.next(Outcome::Success), Ok(Action::MakeDir("t/eo".to_string())));
    assert_eq!(
        c.next(Outcome::Success),
        program("msgfmt", &["--output-file=t/eo/app.mo", "po/eo.po"])
    );
    assert_eq!(c.next(Outcome::Success), Ok(Action::Finish));
    assert_eq!(c.next(Outcome::Failure), Ok(Action::Finish));
}

#[test]
fn without_mo_only_po_files_are_made() {
    let (mut c, action) = start(true, false, &["de", "eo"]);
    assert_eq!(action, Action::FindFile("po/de.po".to_string()));
    assert_eq!(c.next(Outcome::Failure), creating("de"));
    assert_eq!(c.next(Outcome::Success), Ok(Action::FindFile("po/eo.po".to_string())));
    assert_eq!(c.next(Outcome::Success), program("msgmerge", &["-U", "po/eo.po", "po/app.pot"]));
    assert_eq!(c.next(Outcome::Success), Ok(Action::Finish));
}

#[test]
fn without_po_only_mo_files_are_made() {
    let (mut c, action) = start(false, true, &["de"]);
    assert_eq!(action, Action::FindAny("po/de.po".to_string()));
    assert_eq!(c.next(Outcome::Success), Ok(Action::MakeDir("t/de".to_string())));
    assert_eq!(
        c.next(Outcome::Success),
        program("msgfmt", &["--output-file=t/de/app.mo", "po/de.po"])
    );
    assert_eq!(c.next(Outcome::Success), Ok(Action::Finish));
}

#[test]
fn nothing_to_do_is_finished_at_once() {
    assert_eq!(start(false, false, &["de"]).1, Action::Finish);
    assert_eq!(start(true, true, &[]).1, Action::Finish);
}

#[test]
fn failures_of_tools_are_reported() {
    let (mut c, _) = start(true, true, &["de"]);
    c.next(Outcome::Success).unwrap();
    assert_eq!(c.next(Outcome::Failure), plain(Fault::MergeFailed));
    assert_eq!(c.next(Outcome::NotRun), plain(Fault::MergeNotRun));

    let (mut c, _) = start(true, true, &["de"]);
    c.next(Outcome::Failure).unwrap();
    assert_eq!(c.next(Outcome::Failure), plain(Fault::InitFailed));
    assert_eq!(c.next(Outcome::NotRun), plain(Fault::InitNotRun));

    let (mut c, _) = start(false, true, &["de"]);
    assert_eq!(c.next(Outcome::Failure), Err(FileFault::MissingPo("po/de.po".to_string())));
    c.next(Outcome::Success).unwrap();
    assert_eq!(c.next(Outcome::Failure), plain(Fault::NoMoDirectory));
    c.next(Outcome::Success).unwrap();
    assert_eq!(c.next(Outcome::Failure), plain(Fault::FormatFailed));
    assert_eq!(c.next(Outcome::NotRun), plain(Fault::FormatNotRun));
}
