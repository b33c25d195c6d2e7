//! Where the files of a crate's translations are.
//!
//! A path is given by the components to join, in order. The first may be a path itself.

use vstd::prelude::*;

use crate::config::Config;
use crate::fault::Fault;
use crate::text::copy_texts;
use crate::text::join2;
use crate::text::optional_text;
use crate::text::texts;

verus! {

/// A path, by the components to join.
pub type Components = Vec<String>;

/// The model of a path that may not be known.
pub open spec fn result_texts(path: Result<Components, Fault>) -> Result<Seq<Seq<char>>, Fault> {
    match path {
        Ok(path) => Ok(texts(path@)),
        Err(fault) => Err(fault),
    }
}

/// The model of a text that may not be known.
pub open spec fn result_text(text: Result<String, Fault>) -> Result<Seq<char>, Fault> {
    match text {
        Ok(text) => Ok(text@),
        Err(fault) => Err(fault),
    }
}

/// The directory of the root crate: the parent of the manifest's directory where that holds a
/// manifest too, else the manifest's directory.
pub open spec fn root_of(
    manifest_dir: Option<Seq<char>>,
    parent: Option<Seq<char>>,
    parent_has_manifest: bool,
) -> Result<Seq<char>, Fault> {
    match (manifest_dir, parent) {
        (None, _) => Err(Fault::NoManifestDir),
        (_, None) => Err(Fault::NoParentDir),
        (Some(dir), Some(parent)) => Ok(
            if parent_has_manifest {
                parent
            } else {
                dir
            },
        ),
    }
}

/// Finds the directory of the root crate. `parent` is that of `manifest_dir`, and
/// `parent_has_manifest` tells whether there is a `Cargo.toml` in it.
pub fn root_crate_path(
    manifest_dir: Option<String>,
    parent: Option<String>,
    parent_has_manifest: bool,
) -> (res: Result<String, Fault>)
    ensures
        result_text(res) == root_of(
            optional_text(manifest_dir),
            optional_text(parent),
            parent_has_manifest,
        ),
{
    match manifest_dir {
        None => Err(Fault::NoManifestDir),
        Some(dir) => match parent {
            None => Err(Fault::NoParentDir),
            Some(parent) => Ok(
                if parent_has_manifest {
                    parent
                } else {
                    dir
                },
            ),
        },
    }
}

/// The directory for what the build makes: the one that the build names, else `target/debug` in the
/// root crate, which has to be known only then.
pub open spec fn target_of(
    target_dir: Option<Seq<char>>,
    root: Result<Seq<char>, Fault>,
) -> Result<Seq<Seq<char>>, Fault> {
    match target_dir {
        Some(dir) => Ok(seq![dir]),
        None => match root {
            Ok(root) => Ok(seq![root, "target"@, "debug"@]),
            Err(fault) => Err(fault),
        },
    }
}

/// Finds the directory for what the build makes.
pub fn target_path(target_dir: &Option<String>, root: &Result<String, Fault>) -> (res: Result<
    Components,
    Fault,
>)
    ensures
        result_texts(res) == target_of(optional_text(*target_dir), result_text(*root)),
{
    match target_dir {
        Some(dir) => {
            let path = start(dir.as_str());
            Ok(path)
        },
        None => match root {
            Ok(root) => {
                let path = extend(&extend(&start(root.as_str()), "target"), "debug");
                assert(texts(path@) =~= seq![root@, "target"@, "debug"@]);
                Ok(path)
            },
            Err(fault) => Err(*fault),
        },
    }
}

/// A path of one component.
fn start(part: &str) -> (res: Components)
    ensures
        texts(res@) == seq![part@],
{
    let mut res: Components = Vec::new();
    res.push(part.to_owned());
    assert(texts(res@) =~= seq![part@]);
    res
}

/// A path with one more component.
fn extend(path: &Components, part: &str) -> (res: Components)
    ensures
        texts(res@) == texts(path@).push(part@),
{
    let mut res = copy_texts(path.as_slice());
    res.push(part.to_owned());
    assert(texts(res@) =~= texts(path@).push(part@));
    res
}

/// The file that holds the configuration of a package.
pub open spec fn config_path_of(
    target_dir: Option<Seq<char>>,
    root: Result<Seq<char>, Fault>,
    package: Option<Seq<char>>,
) -> Result<Seq<Seq<char>>, Fault> {
    match (target_of(target_dir, root), package) {
        (Err(fault), _) => Err(fault),
        (_, None) => Err(Fault::NoPackageName),
        (Ok(target), Some(package)) => Ok(target + seq!["gettext_macros"@, package]),
    }
}

impl Config {
    /// Finds the file that holds the configuration.
    pub fn path(
        target_dir: &Option<String>,
        root: &Result<String, Fault>,
        package: &Option<String>,
    ) -> (res: Result<Components, Fault>)
        ensures
            result_texts(res) == config_path_of(
                optional_text(*target_dir),
                result_text(*root),
                optional_text(*package),
            ),
    {
        match target_path(target_dir, root) {
            Err(fault) => Err(fault),
            Ok(target) => match package {
                None => Err(Fault::NoPackageName),
                Some(package) => {
                    let path = extend(&extend(&target, "gettext_macros"), package.as_str());
                    assert(texts(path@) =~= texts(target@) + seq!["gettext_macros"@, package@]);
                    Ok(path)
                },
            },
        }
    }
}

/// The template of translations of a domain.
pub open spec fn pot_path_of(root: Seq<char>, domain: Seq<char>) -> Seq<Seq<char>> {
    seq![root, "po"@, domain, domain + ".pot"@]
}

/// Finds the template of translations of a domain.
pub fn pot_path(root: &str, domain: &str) -> (res: Components)
    ensures
        texts(res@) == pot_path_of(root@, domain@),
{
    let file = join2(domain, ".pot");
    let res = extend(&extend(&extend(&start(root), "po"), domain), file.as_str());
    assert(texts(res@) =~= pot_path_of(root@, domain@));
    res
}

/// The translations into one language.
pub open spec fn po_path_of(root: Seq<char>, domain: Seq<char>, lang: Seq<char>) -> Seq<Seq<char>> {
    seq![root, "po"@, domain, lang + ".po"@]
}

/// The directory of the compiled translations into one language.
pub open spec fn mo_dir_of(target: Seq<Seq<char>>, lang: Seq<char>) -> Seq<Seq<char>> {
    target + seq!["gettext_macros"@, lang]
}

/// The compiled translations into one language.
pub open spec fn mo_path_of(
    target: Seq<Seq<char>>,
    domain: Seq<char>,
    lang: Seq<char>,
) -> Seq<Seq<char>> {
    mo_dir_of(target, lang).push(domain + ".mo"@)
}

/// The files of one language.
#[derive(Debug, PartialEq, Eq)]
pub struct LangPaths {
    /// The language.
    pub lang: String,
    /// The translations.
    pub po: Components,
    /// The directory of the compiled translations.
    pub mo_dir: Components,
    /// The compiled translations.
    pub mo: Components,
}

/// The model of a [`LangPaths`].
#[verifier::ext_equal]
pub struct LangPathsModel {
    pub lang: Seq<char>,
    pub po: Seq<Seq<char>>,
    pub mo_dir: Seq<Seq<char>>,
    pub mo: Seq<Seq<char>>,
}

impl View for LangPaths {
    type V = LangPathsModel;

    open spec fn view(&self) -> LangPathsModel {
        LangPathsModel {
            lang: self.lang@,
            po: texts(self.po@),
            mo_dir: texts(self.mo_dir@),
            mo: texts(self.mo@),
        }
    }
}

/// The files of the language `lang`.
pub open spec fn lang_paths_of(
    root: Seq<char>,
    target: Seq<Seq<char>>,
    domain: Seq<char>,
    lang: Seq<char>,
) -> LangPathsModel {
    LangPathsModel {
        lang,
        po: po_path_of(root, domain, lang),
        mo_dir: mo_dir_of(target, lang),
        mo: mo_path_of(target, domain, lang),
    }
}

/// Finds the files of each language, in the order of the configuration.
pub fn lang_paths(config: &Config, root: &str, target: &Components) -> (res: Vec<LangPaths>)
    ensures
        res@.len() == config@.langs.len(),
        forall|i: int|
            0 <= i < res@.len() ==> (#[trigger] res@[i])@ == lang_paths_of(
                root@,
                texts(target@),
                config@.domain,
                config@.langs[i],
            ),
{
    let domain = config.domain.as_str();
    let mut res: Vec<LangPaths> = Vec::new();
    let mut i: usize = 0;
    while i < config.langs.len()
        invariant
            i <= config.langs@.len(),
            domain@ == config@.domain,
            res@.len() == i,
            forall|j: int|
                0 <= j < i ==> (#[trigger] res@[j])@ == lang_paths_of(
                    root@,
                    texts(target@),
                    config@.domain,
                    config@.langs[j],
                ),
        decreases config.langs@.len() - i,
    {
        let lang = config.langs[i].as_str();
        let po_file = join2(lang, ".po");
        let po = extend(&extend(&extend(&start(root), "po"), domain), po_file.as_str());
        let mo_dir = extend(&extend(target, "gettext_macros"), lang);
        let mo_file = join2(domain, ".mo");
        let mo = extend(&mo_dir, mo_file.as_str());
        let found = LangPaths { lang: lang.to_owned(), po, mo_dir, mo };
        proof {
            assert(texts(mo_dir@) =~= mo_dir_of(texts(target@), lang@));
            assert(found@ =~= lang_paths_of(
                root@,
                texts(target@),
                config@.domain,
                config@.langs[i as int],
            ));
        }
        res.push(found);
        i = i + 1;
    }
    res
}

/// The compiled translations into one language, in the directory `config_dir`, which the file with
/// the configuration is in.
pub open spec fn mo_beside(
    config_dir: Seq<char>,
    domain: Seq<char>,
    lang: Seq<char>,
) -> Seq<Seq<char>> {
    seq![config_dir, lang, domain + ".mo"@]
}

/// A language and the compiled translations into it.
#[derive(Debug, PartialEq, Eq)]
pub struct MoPath {
    /// The language.
    pub lang: String,
    /// The compiled translations.
    pub path: Components,
}

/// The model of a [`MoPath`].
#[verifier::ext_equal]
pub struct MoPathModel {
    pub lang: Seq<char>,
    pub path: Seq<Seq<char>>,
}

impl View for MoPath {
    type V = MoPathModel;

    open spec fn view(&self) -> MoPathModel {
        MoPathModel { lang: self.lang@, path: texts(self.path@) }
    }
}

/// Finds the compiled translations into each language, in the order of the configuration. The file
/// with the configuration is in `config_dir`.
pub fn mo_paths(config: &Config, config_dir: &str) -> (res: Vec<MoPath>)
    ensures
        res@.len() == config@.langs.len(),
        forall|i: int|
            0 <= i < res@.len() ==> (#[trigger] res@[i])@ == (MoPathModel {
                lang: config@.langs[i],
                path: mo_beside(config_dir@, config@.domain, config@.langs[i]),
            }),
{
    let mut res: Vec<MoPath> = Vec::new();
    let mut i: usize = 0;
    while i < config.langs.len()
        invariant
            i <= config.langs@.len(),
            res@.len() == i,
            forall|j: int|
                0 <= j < i ==> (#[trigger] res@[j])@ == (MoPathModel {
                    lang: config@.langs[j],
                    path: mo_beside(config_dir@, config@.domain, config@.langs[j]),
                }),
        decreases config.langs@.len() - i,
    {
        let lang = config.langs[i].as_str();
        let file = join2(config.domain.as_str(), ".mo");
        let path = extend(&extend(&start(config_dir), lang), file.as_str());
        assert(texts(path@) =~= mo_beside(config_dir@, config@.domain, lang@));
        res.push(MoPath { lang: lang.to_owned(), path });
        i = i + 1;
    }
    res
}

} // verus!
