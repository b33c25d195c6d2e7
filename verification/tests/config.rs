use gettext_macros::config::Config;
use gettext_macros::fault::Fault;

fn config() -> Config {
    Config {
        domain: "my_app".to_string(),
        make_po: true,
        make_mo: false,
        write_loc: true,
        langs: vec!["de".to_string(), "eo".to_string()],
    }
}

fn contents(config: &Config) -> Vec<u8> {
    config.write().into_iter().flat_map(|line| line.bytes).collect()
}

#[test]
fn configuration_is_written_line_by_line() {
    assert_eq!(contents(&config()), b"my_app\ntrue\nfalse\ntrue\nde\neo\n".to_vec());
}

#[test]
fn each_line_has_its_fault() {
    let faults: Vec<Fault> = config().write().into_iter().map(|line| line.fault).collect();
    assert_eq!(
        faults,
        vec![
            Fault::DomainNotWritten,
            Fault::MakePoNotWritten,
            Fault::MakeMoNotWritten,
            Fault::WriteLocNotWritten,
            Fault::LangNotWritten,
            Fault::LangNotWritten,
        ]
    );
}

#[test]
fn configuration_is_read_back() {
    assert_eq!(Config::read(&contents(&config())), Ok(config()));
    let other = Config {
        domain: "é".to_string(),
        make_po: false,
        make_mo: false,
        write_loc: false,
        langs: vec![],
    };
    assert_eq!(Config::read(&contents(&other)), Ok(other));
}

#[test]
fn newline_in_a_domain_is_not_read_back() {
    let broken = Config { domain: "a\ntrue".to_string(), ..config() };
    assert_ne!(Config::read(&contents(&broken)), Ok(broken));
}

#[test]
fn carriage_returns_before_newlines_are_dropped() {
    assert_eq!(
        Config::read(b"my_app\r\ntrue\r\nfalse\r\ntrue\r\nde\r\neo"),
        Ok(config())
    );
    let config = Config::read(b"a\ntrue\ntrue\ntrue\nde\r").unwrap();
    assert_eq!(config.langs, vec!["de\r".to_string()]);
}

#[test]
fn empty_lines_are_lines() {
    let config = Config::read(b"\ntrue\ntrue\ntrue\n\nde\n").unwrap();
    assert_eq!(config.domain, "");
    assert_eq!(config.langs, vec!["".to_string(), "de".to_string()]);
}

#[test]
fn early_ends_are_refused() {
    assert_eq!(Config::read(b""), Err(Fault::InvalidConfig));
    assert_eq!(Config::read(b"a"), Err(Fault::InvalidConfig));
    assert_eq!(Config::read(b"a\ntrue\n"), Err(Fault::InvalidConfig));
    assert_eq!(Config::read(b"a\ntrue\ntrue"), Err(Fault::InvalidConfig));
}

#[test]
fn settings_have_to_be_true_or_false() {
    assert_eq!(Config::read(b"a\nyes\ntrue\ntrue\n"), Err(Fault::BadMakePo));
    assert_eq!(Config::read(b"a\ntrue\nTrue\ntrue\n"), Err(Fault::BadMakeMo));
    assert_eq!(Config::read(b"a\ntrue\nfalse\n\n"), Err(Fault::BadWriteLoc));
    assert_eq!(Config::read(b"a\nno\nno\nno\n\xff"), Err(Fault::BadMakePo));
}

#[test]
fn lines_have_to_be_text() {
    assert_eq!(Config::read(b"\xff\ntrue\ntrue\ntrue\n"), Err(Fault::UnreadableConfig));
    assert_eq!(Config::read(b"a\n\xc3\n"), Err(Fault::UnreadableConfig));
    assert_eq!(Config::read(b"a\ntrue\ntrue\ntrue\nde\n\xff\n"), Err(Fault::UnreadableConfig));
}
