use gettext_macros::config::Config;
use gettext_macros::fault::Fault;
use gettext_macros::message::pot_file;
use gettext_macros::paths::{lang_paths, mo_paths, pot_path, root_crate_path, target_path};

fn some(s: &str) -> Option<String> {
    Some(s.to_string())
}

fn path(parts: &[&str]) -> Vec<String> {
    parts.iter().map(|p| p.to_string()).collect()
}

fn config() -> Config {
    Config {
        domain: "app".to_string(),
        make_po: true,
        make_mo: true,
        write_loc: true,
        langs: vec!["de".to_string(), "eo".to_string()],
    }
}

#[test]
fn root_crate_is_the_parent_if_that_is_a_crate() {
    assert_eq!(root_crate_path(some("/w/a"), some("/w"), true), Ok("/w".to_string()));
    assert_eq!(root_crate_path(some("/w/a"), some("/w"), false), Ok("/w/a".to_string()));
    assert_eq!(root_crate_path(None, None, false), Err(Fault::NoManifestDir));
    assert_eq!(root_crate_path(some("/"), None, false), Err(Fault::NoParentDir));
}

#[test]
fn target_is_named_by_the_build_or_in_the_root_crate() {
    assert_eq!(target_path(&some("/t"), &Err(Fault::NoManifestDir)), Ok(path(&["/t"])));
    assert_eq!(
        target_path(&None, &Ok("/w".to_string())),
        Ok(path(&["/w", "target", "debug"]))
    );
    assert_eq!(target_path(&None, &Err(Fault::NoParentDir)), Err(Fault::NoParentDir));
}

#[test]
fn configuration_is_kept_by_package() {
    assert_eq!(
        Config::path(&some("/t"), &Err(Fault::NoManifestDir), &some("pkg")),
        Ok(path(&["/t", "gettext_macros", "pkg"]))
    );
    assert_eq!(
        Config::path(&None, &Ok("/w".to_string()), &some("pkg")),
        Ok(path(&["/w", "target", "debug", "gettext_macros", "pkg"]))
    );
    assert_eq!(
        Config::path(&some("/t"), &Ok("/w".to_string()), &None),
        Err(Fault::NoPackageName)
    );
    assert_eq!(Config::path(&None, &Err(Fault::NoManifestDir), &None), Err(Fault::NoManifestDir));
}

#[test]
fn languages_have_their_files() {
    let found = lang_paths(&config(), "/w", &path(&["/t"]));
    assert_eq!(found.len(), 2);
    assert_eq!(found[0].lang, "de");
    assert_eq!(found[0].po, path(&["/w", "po", "app", "de.po"]));
    assert_eq!(found[0].mo_dir, path(&["/t", "gettext_macros", "de"]));
    assert_eq!(found[0].mo, path(&["/t", "gettext_macros", "de", "app.mo"]));
    assert_eq!(found[1].lang, "eo");
    assert_eq!(found[1].po, path(&["/w", "po", "app", "eo.po"]));
}

#[test]
fn compiled_translations_are_found_where_they_are_made() {
    let target = target_path(&None, &Ok("/w".to_string())).unwrap();
    let kept = Config::path(&None, &Ok("/w".to_string()), &some("pkg")).unwrap();
    let made = lang_paths(&config(), "/w", &target);
    let config_dir = kept[..kept.len() - 1].join("/");
    let sought = mo_paths(&config(), &config_dir);
    assert_eq!(sought.len(), 2);
    for i in 0..2 {
        assert_eq!(sought[i].lang, made[i].lang);
        assert_eq!(sought[i].path.join("/"), made[i].mo.join("/"));
    }
    assert_eq!(sought[1].lang, "eo");
    assert_eq!(sought[1].path, path(&["/w/target/debug/gettext_macros", "eo", "app.mo"]));
}

#[test]
fn there_is_one_template() {
    let components = pot_path("/w", "app");
    assert_eq!(components, path(&["/w", "po", "app", "app.pot"]));
    assert_eq!(pot_file("app"), components[1..].join("/"));
}
