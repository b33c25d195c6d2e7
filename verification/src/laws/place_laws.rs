//! Where files are, and what is said where they are not.

use vstd::prelude::*;

use crate::config::Config;
use crate::fault::Fault;
use crate::fault::FileFault;
use crate::laws::path_laws::joins_in_steps;
use crate::paths::lang_paths;
use crate::paths::mo_paths;
use crate::paths::pot_path;
use crate::paths::root_crate_path;
use crate::paths::target_path;
use crate::paths::Components;
use crate::paths::LangPaths;
use crate::paths::MoPath;
use crate::text::texts;

verus! {

/// The root crate is in the parent of the manifest's directory where there is a manifest too, and else
/// in the manifest's directory. Both directories have to be known in either case.
pub proof fn law_root_found(
    manifest_dir: Option<String>,
    parent: Option<String>,
    parent_has_manifest: bool,
    res: Result<String, Fault>,
)
    requires
        call_ensures(root_crate_path, (manifest_dir, parent, parent_has_manifest), res),
    ensures
        manifest_dir is None ==> (res matches Err(fault) && fault == Fault::NoManifestDir),
        manifest_dir is Some && parent is None ==> (res matches Err(fault) && fault
            == Fault::NoParentDir),
        manifest_dir is Some && parent is Some && parent_has_manifest ==> (res matches Ok(root)
            && root@ == parent->0@),
        manifest_dir is Some && parent is Some && !parent_has_manifest ==> (res matches Ok(root)
            && root@ == manifest_dir->0@),
{
}

/// What the build makes is in the directory that it names, whatever the root crate is, and else in
/// `target/debug` in the root crate, which has to be known then.
pub proof fn law_target_found(
    target_dir: &Option<String>,
    root: &Result<String, Fault>,
    res: Result<Components, Fault>,
)
    requires
        call_ensures(target_path, (target_dir, root), res),
    ensures
        target_dir matches Some(dir) ==> (res matches Ok(path) && texts(path@) == seq![dir@]),
        target_dir is None && root is Ok ==> (res matches Ok(path) && texts(path@) == seq![
            root->Ok_0@,
            "target"@,
            "debug"@,
        ]),
        target_dir is None && root is Err ==> (res matches Err(fault) && fault == root->Err_0),
{
}

/// The configuration is in the directory for what the build makes, in `gettext_macros`, in a file
/// named like the package.
pub proof fn law_config_path_found(
    target_dir: &Option<String>,
    root: &Result<String, Fault>,
    package: &Option<String>,
    target: Result<Components, Fault>,
    res: Result<Components, Fault>,
)
    requires
        call_ensures(target_path, (target_dir, root), target),
        call_ensures(Config::path, (target_dir, root, package), res),
    ensures
        target matches Err(fault) ==> (res matches Err(other) && other == fault),
        target is Ok && package is None ==> (res matches Err(fault) && fault
            == Fault::NoPackageName),
        target is Ok && package is Some ==> (res matches Ok(path) && texts(path@) == texts(
            target->Ok_0@,
        ).push("gettext_macros"@).push(package->0@)),
{
    if target is Ok && package is Some {
        assert(texts(res->Ok_0@) =~= texts(target->Ok_0@).push("gettext_macros"@).push(
            package->0@,
        ));
    }
}

/// The template of a domain is in the root crate, in a directory and a file that are both named like
/// the domain.
pub proof fn law_pot_path_found(root: &str, domain: &str, res: Components)
    requires
        call_ensures(pot_path, (root, domain), res),
    ensures
        texts(res@) == seq![root@, "po"@, domain@, domain@ + ".pot"@],
{
}

/// There is an entry for each language, in order. Its `.po` file is beside the template of the domain,
/// and named like the language. Its `.mo` file is in the directory that is made for it, and named like
/// the domain; and that directory is named like the language, for every directory that the build makes
/// things in.
pub proof fn law_lang_paths_found(
    config: &Config,
    root: &str,
    target: &Components,
    domain: &str,
    pot: Components,
    res: Vec<LangPaths>,
    i: int,
)
    requires
        call_ensures(lang_paths, (config, root, target), res),
        call_ensures(pot_path, (root, domain), pot),
        domain@ == config.domain@,
        0 <= i < config.langs@.len(),
    ensures
        res@.len() == config.langs@.len(),
        res@[i].lang@ == config.langs@[i]@,
        texts(res@[i].po@) == texts(pot@).drop_last().push(config.langs@[i]@ + ".po"@),
        texts(res@[i].mo_dir@) == texts(target@).push("gettext_macros"@).push(config.langs@[i]@),
        texts(res@[i].mo@) == texts(res@[i].mo_dir@).push(config.domain@ + ".mo"@),
{
    let paths = res@[i]@;
    assert(config@.langs[i] == config.langs@[i]@);
    assert(texts(res@[i].po@) =~= texts(pot@).drop_last().push(config.langs@[i]@ + ".po"@));
    assert(texts(res@[i].mo_dir@) =~= texts(target@).push("gettext_macros"@).push(
        config.langs@[i]@,
    ));
    assert(texts(res@[i].mo@) =~= texts(res@[i].mo_dir@).push(config.domain@ + ".mo"@));
}

/// There is an entry for each language, in order: its compiled translations are beside the
/// configuration, in a directory named like the language, and named like the domain.
pub proof fn law_mo_paths_found(config: &Config, config_dir: &str, res: Vec<MoPath>, i: int)
    requires
        call_ensures(mo_paths, (config, config_dir), res),
        0 <= i < config.langs@.len(),
    ensures
        res@.len() == config.langs@.len(),
        res@[i].lang@ == config.langs@[i]@,
        texts(res@[i].path@) == seq![config_dir@, config.langs@[i]@, config.domain@ + ".mo"@],
{
    let found = res@[i]@;
    assert(config@.langs[i] == config.langs@[i]@);
}

/// What is looked for is what was made: for each language, the compiled translations that are found
/// beside the configuration have the path at which they are made, however the components of a path are
/// joined.
pub proof fn law_paths_meet(
    join: spec_fn(Seq<Seq<char>>) -> Seq<char>,
    target_dir: &Option<String>,
    root: &Result<String, Fault>,
    package: &Option<String>,
    config: &Config,
    dir: &str,
    target: Components,
    kept: Components,
    config_dir: &str,
    made: Vec<LangPaths>,
    sought: Vec<MoPath>,
    i: int,
)
    requires
        joins_in_steps(join),
        call_ensures(target_path, (target_dir, root), Ok::<Components, Fault>(target)),
        call_ensures(Config::path, (target_dir, root, package), Ok::<Components, Fault>(kept)),
        config_dir@ == join(texts(kept@).drop_last()),
        call_ensures(lang_paths, (config, dir, &target), made),
        call_ensures(mo_paths, (config, config_dir), sought),
        0 <= i < config.langs@.len(),
    ensures
        made@[i].lang@ == sought@[i].lang@,
        join(texts(made@[i].mo@)) == join(texts(sought@[i].path@)),
{
    let lang = config.langs@[i]@;
    let file = seq![lang, config.domain@ + ".mo"@];
    let dirs = texts(target@).push("gettext_macros"@);
    let paths = made@[i]@;
    assert(config@.langs[i] == lang);
    law_config_path_found(
        target_dir,
        root,
        package,
        Ok::<Components, Fault>(target),
        Ok::<Components, Fault>(kept),
    );
    law_mo_paths_found(config, config_dir, sought, i);
    assert(texts(kept@).drop_last() =~= dirs);
    assert(texts(made@[i].mo@) =~= dirs + file);
    assert(texts(sought@[i].path@) =~= seq![join(dirs)] + file);
}

/// A reason that names a file says so behind the whole path; any other says what it says by itself.
pub proof fn law_reasons_said(fault: &FileFault, plain: Fault, said: String, res: String)
    requires
        call_ensures(Fault::message, (plain,), said),
        call_ensures(FileFault::message, (fault,), res),
    ensures
        match *fault {
            FileFault::Plain(inner) => inner == plain ==> res@ == said@,
            FileFault::MissingPo(path) => res@ == path@
                + " doesn't exist. Make sure you didn't disabled po generation."@,
            FileFault::MissingMo(path) => res@ == path@
                + " doesn't exist. Make sure to call compile_i18n! before include_i18n!, and check that you didn't disabled mo compilation."@,
        },
{
}

} // verus!
