//! Building the translation files of each language with the GetText tools.
//!
//! A [`Compilation`] says what is to be done next, and is told how it went.

use vstd::prelude::*;

use crate::config::Config;
use crate::config::ConfigModel;
use crate::fault::Fault;
use crate::fault::FileFault;
use crate::fault::FileFaultModel;
use crate::text::join2;
use crate::text::optional_text;
use crate::text::texts;

verus! {

/// A language and its files, by their paths.
#[derive(Debug, PartialEq, Eq)]
pub struct LangFiles {
    /// The language.
    pub lang: String,
    /// The translations.
    pub po: String,
    /// The directory of the compiled translations.
    pub mo_dir: String,
    /// The compiled translations.
    pub mo: String,
}

/// The model of a [`LangFiles`].
pub struct Job {
    pub lang: Seq<char>,
    pub po: Seq<char>,
    pub mo_dir: Seq<char>,
    pub mo: Seq<char>,
}

impl View for LangFiles {
    type V = Job;

    open spec fn view(&self) -> Job {
        Job { lang: self.lang@, po: self.po@, mo_dir: self.mo_dir@, mo: self.mo@ }
    }
}

/// What a compilation is to do.
pub struct Plan {
    /// Whether `.po` files are made from the template.
    pub make_po: bool,
    /// Whether `.mo` files are made from the `.po` files.
    pub make_mo: bool,
    /// The template.
    pub pot: Seq<char>,
    /// The languages, each with its files.
    pub jobs: Seq<Job>,
}

/// The models of languages and their files.
pub open spec fn jobs_of(files: Seq<LangFiles>) -> Seq<Job> {
    Seq::new(files.len(), |i: int| files[i]@)
}

/// What a compilation is waiting for.
#[derive(Clone, Copy, Debug, PartialEq, Eq, Structural)]
pub enum Stage {
    /// Whether there is a `.po` file already.
    LookForPo,
    /// An update of the `.po` file.
    Merge,
    /// A new `.po` file.
    Init,
    /// Whether there is a `.po` file to compile.
    RequirePo,
    /// The directory of the `.mo` file.
    MakeDir,
    /// The `.mo` file.
    Format,
    /// Nothing any more.
    Finished,
}

/// How far a compilation is.
pub struct Progress {
    /// The language that it is at.
    pub at: nat,
    /// What it is waiting for.
    pub stage: Stage,
}

/// How something went that was to be done.
#[derive(Clone, Copy, Debug, PartialEq, Eq, Structural)]
pub enum Outcome {
    /// It succeeded, or what was looked for is there.
    Success,
    /// It failed, or what was looked for is not there.
    Failure,
    /// The program could not be started.
    NotRun,
}

/// What is to be done next.
#[derive(Debug, PartialEq, Eq)]
pub enum Action {
    /// Find out whether there is a regular file at this path.
    FindFile(String),
    /// Find out whether there is anything at this path.
    FindAny(String),
    /// Make a directory and those above it.
    MakeDir(String),
    /// Say something to the user, if there is something to say, and run a program.
    Run {
        /// What is said before.
        say: Option<String>,
        /// The program.
        program: String,
        /// Its arguments.
        args: Vec<String>,
    },
    /// Replace the call of the macro with nothing.
    Finish,
}

/// The model of an [`Action`].
#[verifier::ext_equal]
pub enum ActionModel {
    FindFile(Seq<char>),
    FindAny(Seq<char>),
    MakeDir(Seq<char>),
    Run { say: Option<Seq<char>>, program: Seq<char>, args: Seq<Seq<char>> },
    Finish,
}

impl View for Action {
    type V = ActionModel;

    open spec fn view(&self) -> ActionModel {
        match *self {
            Action::FindFile(path) => ActionModel::FindFile(path@),
            Action::FindAny(path) => ActionModel::FindAny(path@),
            Action::MakeDir(path) => ActionModel::MakeDir(path@),
            Action::Run { say, program, args } => ActionModel::Run {
                say: optional_text(say),
                program: program@,
                args: texts(args@),
            },
            Action::Finish => ActionModel::Finish,
        }
    }
}

/// The update of a `.po` file from the template.
pub open spec fn merge_action(plan: Plan, job: Job) -> ActionModel {
    ActionModel::Run { say: None, program: "msgmerge"@, args: seq!["-U"@, job.po, plan.pot] }
}

/// The making of a new `.po` file from the template.
pub open spec fn init_action(plan: Plan, job: Job) -> ActionModel {
    ActionModel::Run {
        say: Some("Creating "@ + job.lang),
        program: "msginit"@,
        args: seq![
            "--input="@ + plan.pot,
            "--output-file="@ + job.po,
            "-l"@,
            job.lang,
            "--no-translator"@,
        ],
    }
}

/// The making of a `.mo` file from a `.po` file.
pub open spec fn format_action(job: Job) -> ActionModel {
    ActionModel::Run {
        say: None,
        program: "msgfmt"@,
        args: seq!["--output-file="@ + job.mo, job.po],
    }
}

/// What comes first for language `at`, if it is still one of the plan's.
pub open spec fn begin(plan: Plan, at: nat) -> (Progress, ActionModel) {
    if at >= plan.jobs.len() || !plan.make_po && !plan.make_mo {
        (Progress { at: plan.jobs.len(), stage: Stage::Finished }, ActionModel::Finish)
    } else if plan.make_po {
        (
            Progress { at, stage: Stage::LookForPo },
            ActionModel::FindFile(plan.jobs[at as int].po),
        )
    } else {
        (
            Progress { at, stage: Stage::RequirePo },
            ActionModel::FindAny(plan.jobs[at as int].po),
        )
    }
}

/// What comes once the `.po` file of language `at` is made.
pub open spec fn after_po(plan: Plan, at: nat) -> (Progress, ActionModel) {
    if plan.make_mo {
        (
            Progress { at, stage: Stage::RequirePo },
            ActionModel::FindAny(plan.jobs[at as int].po),
        )
    } else {
        begin(plan, at + 1)
    }
}

/// What comes after `progress`, given the outcome of what was to be done, or the reason to give up.
pub open spec fn advance(plan: Plan, progress: Progress, outcome: Outcome) -> Result<
    (Progress, ActionModel),
    FileFaultModel,
> {
    let at = progress.at;
    if at >= plan.jobs.len() {
        Ok((progress, ActionModel::Finish))
    } else {
        let job = plan.jobs[at as int];
        match (progress.stage, outcome) {
            (Stage::LookForPo, Outcome::Success) => Ok(
                (Progress { at, stage: Stage::Merge }, merge_action(plan, job)),
            ),
            (Stage::LookForPo, _) => Ok(
                (Progress { at, stage: Stage::Init }, init_action(plan, job)),
            ),
            (Stage::Merge, Outcome::Success) => Ok(after_po(plan, at)),
            (Stage::Merge, Outcome::Failure) => Err(FileFaultModel::Plain(Fault::MergeFailed)),
            (Stage::Merge, Outcome::NotRun) => Err(FileFaultModel::Plain(Fault::MergeNotRun)),
            (Stage::Init, Outcome::Success) => Ok(after_po(plan, at)),
            (Stage::Init, Outcome::Failure) => Err(FileFaultModel::Plain(Fault::InitFailed)),
            (Stage::Init, Outcome::NotRun) => Err(FileFaultModel::Plain(Fault::InitNotRun)),
            (Stage::RequirePo, Outcome::Success) => Ok(
                (Progress { at, stage: Stage::MakeDir }, ActionModel::MakeDir(job.mo_dir)),
            ),
            (Stage::RequirePo, _) => Err(FileFaultModel::MissingPo(job.po)),
            (Stage::MakeDir, Outcome::Success) => Ok(
                (Progress { at, stage: Stage::Format }, format_action(job)),
            ),
            (Stage::MakeDir, _) => Err(FileFaultModel::Plain(Fault::NoMoDirectory)),
            (Stage::Format, Outcome::Success) => Ok(begin(plan, at + 1)),
            (Stage::Format, Outcome::Failure) => Err(FileFaultModel::Plain(Fault::FormatFailed)),
            (Stage::Format, Outcome::NotRun) => Err(FileFaultModel::Plain(Fault::FormatNotRun)),
            (Stage::Finished, _) => Ok((progress, ActionModel::Finish)),
        }
    }
}

/// A compilation on its way.
#[derive(Debug, PartialEq, Eq)]
pub struct Compilation {
    make_po: bool,
    make_mo: bool,
    pot: String,
    files: Vec<LangFiles>,
    at: usize,
    stage: Stage,
}

impl Compilation {
    /// What the compilation is to do.
    pub closed spec fn plan(self) -> Plan {
        Plan {
            make_po: self.make_po,
            make_mo: self.make_mo,
            pot: self.pot@,
            jobs: jobs_of(self.files@),
        }
    }

    /// How far the compilation is.
    pub closed spec fn progress(self) -> Progress {
        Progress { at: self.at as nat, stage: self.stage }
    }

    /// Goes to what comes first for language `at`.
    fn begin(&mut self, at: usize) -> (res: Action)
        ensures
            final(self).plan() == old(self).plan(),
            (final(self).progress(), res@) == begin(old(self).plan(), at as nat),
    {
        assert(self.plan().jobs.len() == self.files@.len());
        if at >= self.files.len() || !self.make_po && !self.make_mo {
            self.at = self.files.len();
            self.stage = Stage::Finished;
            Action::Finish
        } else if self.make_po {
            self.at = at;
            self.stage = Stage::LookForPo;
            Action::FindFile(self.files[at].po.clone())
        } else {
            self.at = at;
            self.stage = Stage::RequirePo;
            Action::FindAny(self.files[at].po.clone())
        }
    }

    /// Goes to what comes once the `.po` file of the language is made.
    fn after_po(&mut self) -> (res: Action)
        requires
            old(self).progress().at < old(self).plan().jobs.len(),
        ensures
            final(self).plan() == old(self).plan(),
            (final(self).progress(), res@) == after_po(
                old(self).plan(),
                old(self).progress().at,
            ),
    {
        if self.make_mo {
            self.stage = Stage::RequirePo;
            Action::FindAny(self.files[self.at].po.clone())
        } else {
            assert(self.at < self.files.len());
            self.begin(self.at + 1)
        }
    }

    /// Takes note of the outcome of what was to be done, and tells what is to be done next, or the
    /// reason to give up.
    pub fn next(&mut self, outcome: Outcome) -> (res: Result<Action, FileFault>)
        ensures
            final(self).plan() == old(self).plan(),
            match res {
                Ok(action) => advance(old(self).plan(), old(self).progress(), outcome) == Ok::<
                    (Progress, ActionModel),
                    FileFaultModel,
                >((final(self).progress(), action@)),
                Err(fault) => {
                    &&& advance(old(self).plan(), old(self).progress(), outcome) == Err::<
                        (Progress, ActionModel),
                        FileFaultModel,
                    >(fault@)
                    &&& final(self).progress() == old(self).progress()
                },
            },
    {
        if self.at >= self.files.len() {
            return Ok(Action::Finish);
        }
        let at = self.at;
        match self.stage {
            Stage::LookForPo => match outcome {
                Outcome::Success => {
                    self.stage = Stage::Merge;
                    Ok(self.merge())
                },
                _ => {
                    self.stage = Stage::Init;
                    Ok(self.init())
                },
            },
            Stage::Merge => match outcome {
                Outcome::Success => Ok(self.after_po()),
                Outcome::Failure => Err(FileFault::Plain(Fault::MergeFailed)),
                Outcome::NotRun => Err(FileFault::Plain(Fault::MergeNotRun)),
            },
            Stage::Init => match outcome {
                Outcome::Success => Ok(self.after_po()),
                Outcome::Failure => Err(FileFault::Plain(Fault::InitFailed)),
                Outcome::NotRun => Err(FileFault::Plain(Fault::InitNotRun)),
            },
            Stage::RequirePo => match outcome {
                Outcome::Success => {
                    self.stage = Stage::MakeDir;
                    Ok(Action::MakeDir(self.files[at].mo_dir.clone()))
                },
                _ => Err(FileFault::MissingPo(self.files[at].po.clone())),
            },
            Stage::MakeDir => match outcome {
                Outcome::Success => {
                    self.stage = Stage::Format;
                    Ok(self.format())
                },
                _ => Err(FileFault::Plain(Fault::NoMoDirectory)),
            },
            Stage::Format => match outcome {
                Outcome::Success => Ok(self.begin(at + 1)),
                Outcome::Failure => Err(FileFault::Plain(Fault::FormatFailed)),
                Outcome::NotRun => Err(FileFault::Plain(Fault::FormatNotRun)),
            },
            Stage::Finished => Ok(Action::Finish),
        }
    }

    /// The update of the `.po` file.
    fn merge(&self) -> (res: Action)
        requires
            self.progress().at < self.plan().jobs.len(),
        ensures
            res@ == merge_action(self.plan(), self.plan().jobs[self.progress().at as int]),
    {
        let mut args: Vec<String> = Vec::new();
        args.push("-U".to_owned());
        args.push(self.files[self.at].po.clone());
        args.push(self.pot.clone());
        let res = Action::Run { say: None, program: "msgmerge".to_owned(), args };
        assert(res@ =~= merge_action(self.plan(), self.plan().jobs[self.at as int]));
        res
    }

    /// The making of a new `.po` file.
    fn init(&self) -> (res: Action)
        requires
            self.progress().at < self.plan().jobs.len(),
        ensures
            res@ == init_action(self.plan(), self.plan().jobs[self.progress().at as int]),
    {
        let lang = self.files[self.at].lang.as_str();
        let mut args: Vec<String> = Vec::new();
        args.push(join2("--input=", self.pot.as_str()));
        args.push(join2("--output-file=", self.files[self.at].po.as_str()));
        args.push("-l".to_owned());
        args.push(lang.to_owned());
        args.push("--no-translator".to_owned());
        let res = Action::Run {
            say: Some(join2("Creating ", lang)),
            program: "msginit".to_owned(),
            args,
        };
        assert(res@ =~= init_action(self.plan(), self.plan().jobs[self.at as int]));
        res
    }

    /// The making of the `.mo` file.
    fn format(&self) -> (res: Action)
        requires
            self.progress().at < self.plan().jobs.len(),
        ensures
            res@ == format_action(self.plan().jobs[self.progress().at as int]),
    {
        let mut args: Vec<String> = Vec::new();
        args.push(join2("--output-file=", self.files[self.at].mo.as_str()));
        args.push(self.files[self.at].po.clone());
        let res = Action::Run { say: None, program: "msgfmt".to_owned(), args };
        assert(res@ =~= format_action(self.plan().jobs[self.at as int]));
        res
    }
}

/// The plan for a configuration, whose template is `pot` and whose languages and files are `jobs`.
pub open spec fn plan_of(config: ConfigModel, pot: Seq<char>, jobs: Seq<Job>) -> Plan {
    Plan { make_po: config.make_po, make_mo: config.make_mo, pot, jobs }
}

/// Begins to build the translation files of each language. The languages of the configuration come
/// with their files, which [`lang_paths`](crate::paths::lang_paths) finds.
pub fn compile_i18n(config: &Config, pot: String, files: Vec<LangFiles>) -> (res: (
    Compilation,
    Action,
))
    ensures
        res.0.plan() == plan_of(config@, pot@, jobs_of(files@)),
        (res.0.progress(), res.1@) == begin(plan_of(config@, pot@, jobs_of(files@)), 0),
{
    let mut compilation = Compilation {
        make_po: config.make_po,
        make_mo: config.make_mo,
        pot,
        files,
        at: 0,
        stage: Stage::Finished,
    };
    let action = compilation.begin(0);
    (compilation, action)
}

} // verus!
