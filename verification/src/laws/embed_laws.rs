//! What is compiled is what is embedded.

use vstd::prelude::*;

use crate::compile::begin;
use crate::compile::format_action;
use crate::compile::jobs_of;
use crate::compile::plan_of;
use crate::compile::ActionModel;
use crate::compile::Job;
use crate::compile::LangFiles;
use crate::compile::Outcome;
use crate::compile::Plan;
use crate::config::ConfigModel;
use crate::embed::all_exist;
use crate::embed::locales_of;
use crate::embed::MoFile;
use crate::laws::compile_laws::finishes;
use crate::laws::compile_laws::law_all_formatted;
use crate::laws::compile_laws::taken;
use crate::laws::path_laws::joins_in_steps;
use crate::laws::path_laws::law_mo_file_found;
use crate::paths::config_path_of;
use crate::paths::lang_paths_of;
use crate::paths::mo_beside;
use crate::paths::target_of;

verus! {

/// What the build of a crate says of itself.
pub struct BuildModel {
    /// The directory that it names for what it makes.
    pub target_dir: Option<Seq<char>>,
    /// The directory of the root crate.
    pub root: Seq<char>,
    /// The name of the package.
    pub package: Option<Seq<char>>,
    /// The directory that the file with the configuration is in.
    pub config_dir: Seq<char>,
}

impl BuildModel {
    /// Whether the configuration has a path, and its directory is what that path has before the name
    /// of the package.
    pub open spec fn well_formed(self, join: spec_fn(Seq<Seq<char>>) -> Seq<char>) -> bool {
        &&& config_path_of(self.target_dir, Ok(self.root), self.package) is Ok
        &&& self.config_dir == join(
            config_path_of(self.target_dir, Ok(self.root), self.package)->Ok_0.drop_last(),
        )
    }
}

/// Whether `files` are the languages of the configuration with the files to build for them, each
/// path joined.
pub open spec fn files_to_build(
    join: spec_fn(Seq<Seq<char>>) -> Seq<char>,
    build: BuildModel,
    config: ConfigModel,
    files: Seq<LangFiles>,
) -> bool {
    &&& files.len() == config.langs.len()
    &&& forall|i: int|
        0 <= i < files.len() ==> (#[trigger] files[i])@ == {
            let paths = lang_paths_of(
                build.root,
                target_of(build.target_dir, Ok(build.root))->Ok_0,
                config.domain,
                config.langs[i],
            );
            Job {
                lang: paths.lang,
                po: join(paths.po),
                mo_dir: join(paths.mo_dir),
                mo: join(paths.mo),
            }
        }
}

/// Whether `files` are the languages of the configuration with the files to embed for them, each
/// path joined.
pub open spec fn files_to_embed(
    join: spec_fn(Seq<Seq<char>>) -> Seq<char>,
    build: BuildModel,
    config: ConfigModel,
    files: Seq<MoFile>,
) -> bool {
    &&& files.len() == config.langs.len()
    &&& forall|i: int|
        0 <= i < files.len() ==> {
            &&& (#[trigger] files[i]).lang@ == config.langs[i]
            &&& files[i].path@ == join(
                mo_beside(build.config_dir, config.domain, config.langs[i]),
            )
        }
}

/// The file that is embedded for a language is the one that `msgfmt` is told to make for it, however
/// the components of a path are joined.
pub proof fn law_embedded_is_compiled(
    join: spec_fn(Seq<Seq<char>>) -> Seq<char>,
    build: BuildModel,
    config: ConfigModel,
    files: Seq<LangFiles>,
    mo_files: Seq<MoFile>,
    i: int,
)
    requires
        joins_in_steps(join),
        build.well_formed(join),
        files_to_build(join, build, config, files),
        files_to_embed(join, build, config, mo_files),
        0 <= i < config.langs.len(),
    ensures
        jobs_of(files).len() == config.langs.len(),
        locales_of(mo_files).len() == config.langs.len(),
        jobs_of(files)[i].lang == config.langs[i],
        locales_of(mo_files)[i].lang == config.langs[i],
        format_action(jobs_of(files)[i]) == (ActionModel::Run {
            say: None,
            program: "msgfmt"@,
            args: seq!["--output-file="@ + locales_of(mo_files)[i].path, jobs_of(files)[i].po],
        }),
{
    law_mo_file_found(
        join,
        build.target_dir,
        Ok(build.root),
        build.package,
        build.config_dir,
        config.domain,
        config.langs[i],
    );
}

/// Whether `step` is a success of `msgfmt` at making the file at `path`.
pub open spec fn makes_file(step: (ActionModel, Outcome), path: Seq<char>) -> bool {
    &&& step.1 == Outcome::Success
    &&& step.0 matches ActionModel::Run { say, program, args }
    &&& program == "msgfmt"@
    &&& args.len() > 0
    &&& args[0] == "--output-file="@ + path
}

/// Whether a compilation went over a success of `msgfmt` at making the file at `path`.
pub open spec fn file_made(plan: Plan, outcomes: Seq<Outcome>, path: Seq<char>) -> bool {
    exists|k: int|
        0 <= k < taken(plan, begin(plan, 0), outcomes).len() && makes_file(
            #[trigger] taken(plan, begin(plan, 0), outcomes)[k],
            path,
        )
}

/// Translations that were compiled can be embedded. Where a compilation that makes `.mo` files came
/// to its end, the file of each language was made; and where each file that was made is there, none
/// is missing.
pub proof fn law_compiled_can_be_embedded(
    join: spec_fn(Seq<Seq<char>>) -> Seq<char>,
    build: BuildModel,
    config: ConfigModel,
    pot: Seq<char>,
    files: Seq<LangFiles>,
    outcomes: Seq<Outcome>,
    mo_files: Seq<MoFile>,
)
    requires
        joins_in_steps(join),
        build.well_formed(join),
        files_to_build(join, build, config, files),
        files_to_embed(join, build, config, mo_files),
        config.make_mo,
        finishes(plan_of(config, pot, jobs_of(files)), outcomes),
        forall|i: int|
            0 <= i < mo_files.len() && file_made(
                plan_of(config, pot, jobs_of(files)),
                outcomes,
                (#[trigger] mo_files[i]).path@,
            ) ==> mo_files[i].exists,
    ensures
        forall|i: int|
            0 <= i < config.langs.len() ==> file_made(
                plan_of(config, pot, jobs_of(files)),
                outcomes,
                (#[trigger] locales_of(mo_files)[i]).path,
            ),
        all_exist(locales_of(mo_files)),
{
    let plan = plan_of(config, pot, jobs_of(files));
    let all = taken(plan, begin(plan, 0), outcomes);
    assert forall|i: int| 0 <= i < config.langs.len() implies file_made(
        plan,
        outcomes,
        (#[trigger] locales_of(mo_files)[i]).path,
    ) by {
        law_embedded_is_compiled(join, build, config, files, mo_files, i);
        law_all_formatted(plan, outcomes, i);
        let k = choose|k: int|
            0 <= k < all.len() && all[k] == (format_action(plan.jobs[i]), Outcome::Success);
        assert(makes_file(all[k], locales_of(mo_files)[i].path));
    }
    assert forall|i: int| 0 <= i < mo_files.len() implies (#[trigger] locales_of(
        mo_files,
    )[i]).exists by {
        assert(locales_of(mo_files)[i].path == mo_files[i].path@);
    }
}

} // verus!
