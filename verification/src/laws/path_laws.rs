//! The macros agree on where files are.

use vstd::prelude::*;

use crate::fault::Fault;
use crate::message::pot_file_of;
use crate::paths::config_path_of;
use crate::paths::mo_beside;
use crate::paths::mo_path_of;
use crate::paths::pot_path_of;
use crate::paths::target_of;

verus! {

/// Whether paths can be joined step by step: what some components join to can stand in for them.
pub open spec fn joins_in_steps(join: spec_fn(Seq<Seq<char>>) -> Seq<char>) -> bool {
    forall|a: Seq<Seq<char>>, b: Seq<Seq<char>>|
        a.len() > 0 ==> #[trigger] join(seq![join(a)] + b) == join(a + b)
}

/// Compiled translations are looked for where they are made, however the components of a path are
/// joined: in a directory named like the language, beside the configuration. The directory of the
/// configuration is what its path has before the name of the package.
pub proof fn law_mo_file_found(
    join: spec_fn(Seq<Seq<char>>) -> Seq<char>,
    target_dir: Option<Seq<char>>,
    root: Result<Seq<char>, Fault>,
    package: Option<Seq<char>>,
    config_dir: Seq<char>,
    domain: Seq<char>,
    lang: Seq<char>,
)
    requires
        joins_in_steps(join),
        config_path_of(target_dir, root, package) is Ok,
        config_dir == join(config_path_of(target_dir, root, package)->Ok_0.drop_last()),
    ensures
        target_of(target_dir, root) is Ok,
        join(mo_beside(config_dir, domain, lang)) == join(
            mo_path_of(target_of(target_dir, root)->Ok_0, domain, lang),
        ),
{
    let target = target_of(target_dir, root)->Ok_0;
    let dir = config_path_of(target_dir, root, package)->Ok_0.drop_last();
    let file = seq![lang, domain + ".mo"@];
    assert(dir =~= target + seq!["gettext_macros"@]);
    assert(mo_beside(config_dir, domain, lang) =~= seq![join(dir)] + file);
    assert(mo_path_of(target, domain, lang) =~= dir + file);
}

/// Where the build names no directory of its own, compiled translations are in
/// `target/debug/gettext_macros/LANGUAGE/DOMAIN.mo` in the root crate.
pub proof fn law_mo_file_default(root: Seq<char>, domain: Seq<char>, lang: Seq<char>)
    ensures
        mo_path_of(target_of(None, Ok(root))->Ok_0, domain, lang) == seq![
            root,
            "target"@,
            "debug"@,
            "gettext_macros"@,
            lang,
            domain + ".mo"@,
        ],
{
    assert(mo_path_of(target_of(None, Ok(root))->Ok_0, domain, lang) =~= seq![
        root,
        "target"@,
        "debug"@,
        "gettext_macros"@,
        lang,
        domain + ".mo"@,
    ]);
}

/// The template that messages are listed in is the one that `.po` files are made from: inside the
/// root crate it has the same path.
pub proof fn law_one_template(root: Seq<char>, domain: Seq<char>)
    ensures
        pot_path_of(root, domain)[0] == root,
        pot_file_of(domain) == pot_path_of(root, domain)[1] + "/"@ + pot_path_of(root, domain)[2]
            + "/"@ + pot_path_of(root, domain)[3],
        pot_path_of(root, domain).len() == 4,
{
    reveal_strlit("po/");
    reveal_strlit("po");
    reveal_strlit("/");
    assert("po/"@ =~= "po"@ + "/"@);
    assert(pot_file_of(domain) =~= "po"@ + "/"@ + domain + "/"@ + (domain + ".pot"@));
}

} // verus!
