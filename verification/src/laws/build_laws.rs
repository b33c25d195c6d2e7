//! What a compilation does, step by step.

use vstd::prelude::*;

use crate::compile::begin;
use crate::compile::compile_i18n;
use crate::compile::Action;
use crate::compile::ActionModel;
use crate::compile::Compilation;
use crate::compile::Job;
use crate::compile::LangFiles;
use crate::compile::Outcome;
use crate::compile::Plan;
use crate::compile::Progress;
use crate::compile::Stage;
use crate::config::Config;
use crate::fault::Fault;
use crate::fault::FileFault;
use crate::laws::compile_laws::done_well;
use crate::laws::compile_laws::taken;
use crate::text::texts;

verus! {

/// Whether a compilation is at language `at`, or at its end where there is none: it looks for the
/// `.po` file of the language where it is to make one, and asks for that file where it is only to make
/// a `.mo` file from it. It is at its end where it is to make neither.
pub open spec fn comes_to(plan: Plan, at: nat, progress: Progress, action: Action) -> bool {
    if at < plan.jobs.len() && plan.make_po {
        &&& progress == Progress { at, stage: Stage::LookForPo }
        &&& action matches Action::FindFile(path) && path@ == plan.jobs[at as int].po
    } else if at < plan.jobs.len() && plan.make_mo {
        &&& progress == Progress { at, stage: Stage::RequirePo }
        &&& action matches Action::FindAny(path) && path@ == plan.jobs[at as int].po
    } else {
        &&& progress == Progress { at: plan.jobs.len(), stage: Stage::Finished }
        &&& action is Finish
    }
}

/// Whether an action runs a program with the given arguments and says nothing.
pub open spec fn runs(action: Action, name: &str, arguments: Seq<Seq<char>>) -> bool {
    action matches Action::Run { say, program, args } && {
        &&& say is None
        &&& program@ == name@
        &&& texts(args@) == arguments
    }
}

/// A compilation goes by the configuration and by the files of each language, in order, and begins
/// with the first.
pub proof fn law_compilation_begins(
    config: &Config,
    pot: String,
    files: Vec<LangFiles>,
    res: (Compilation, Action),
)
    requires
        call_ensures(compile_i18n, (config, pot, files), res),
    ensures
        ({
            let plan = res.0.plan();
            &&& plan.make_po == config.make_po
            &&& plan.make_mo == config.make_mo
            &&& plan.pot == pot@
            &&& plan.jobs.len() == files@.len()
            &&& forall|i: int|
                0 <= i < files@.len() ==> {
                    &&& (#[trigger] plan.jobs[i]).lang == files@[i].lang@
                    &&& plan.jobs[i].po == files@[i].po@
                    &&& plan.jobs[i].mo_dir == files@[i].mo_dir@
                    &&& plan.jobs[i].mo == files@[i].mo@
                }
            &&& comes_to(plan, 0, res.0.progress(), res.1)
        }),
{
}

/// A compilation keeps to its plan, and stays where it is when it gives up.
pub proof fn law_plan_kept(
    compilation: &mut Compilation,
    outcome: Outcome,
    res: Result<Action, FileFault>,
)
    requires
        call_ensures(Compilation::next, (compilation, outcome), res),
    ensures
        final(compilation).plan() == old(compilation).plan(),
        res is Err ==> final(compilation).progress() == old(compilation).progress(),
{
}

/// A `.po` file that is there is updated from the template with `msgmerge`; one that is not is made
/// from it with `msginit`, and the user is told.
pub proof fn law_po_looked_for(
    compilation: &mut Compilation,
    outcome: Outcome,
    res: Result<Action, FileFault>,
)
    requires
        call_ensures(Compilation::next, (compilation, outcome), res),
        old(compilation).progress().at < old(compilation).plan().jobs.len(),
        old(compilation).progress().stage == Stage::LookForPo,
    ensures
        ({
            let plan = old(compilation).plan();
            let at = old(compilation).progress().at;
            let job = plan.jobs[at as int];
            if outcome == Outcome::Success {
                &&& final(compilation).progress() == (Progress { at, stage: Stage::Merge })
                &&& res matches Ok(action) && runs(
                    action,
                    "msgmerge",
                    seq!["-U"@, job.po, plan.pot],
                )
            } else {
                &&& final(compilation).progress() == (Progress { at, stage: Stage::Init })
                &&& res matches Ok(Action::Run { say, program, args }) && {
                    &&& say matches Some(text) && text@ == "Creating "@ + job.lang
                    &&& program@ == "msginit"@
                    &&& texts(args@) == seq![
                        "--input="@ + plan.pot,
                        "--output-file="@ + job.po,
                        "-l"@,
                        job.lang,
                        "--no-translator"@,
                    ]
                }
            }
        }),
{
}

/// Once the `.po` file of a language is made, its `.mo` file is next where `.mo` files are asked for,
/// and else the next language. A failure is told by the program that failed.
pub proof fn law_po_made(
    compilation: &mut Compilation,
    outcome: Outcome,
    res: Result<Action, FileFault>,
)
    requires
        call_ensures(Compilation::next, (compilation, outcome), res),
        old(compilation).progress().at < old(compilation).plan().jobs.len(),
        old(compilation).progress().stage == Stage::Merge || old(compilation).progress().stage
            == Stage::Init,
    ensures
        ({
            let plan = old(compilation).plan();
            let at = old(compilation).progress().at;
            let merged = old(compilation).progress().stage == Stage::Merge;
            match outcome {
                Outcome::Success => res matches Ok(action) && if plan.make_mo {
                    &&& final(compilation).progress() == (Progress { at, stage: Stage::RequirePo })
                    &&& action matches Action::FindAny(path) && path@ == plan.jobs[at as int].po
                } else {
                    comes_to(plan, at + 1, final(compilation).progress(), action)
                },
                Outcome::Failure => res matches Err(FileFault::Plain(fault)) && fault == if merged {
                    Fault::MergeFailed
                } else {
                    Fault::InitFailed
                },
                Outcome::NotRun => res matches Err(FileFault::Plain(fault)) && fault == if merged {
                    Fault::MergeNotRun
                } else {
                    Fault::InitNotRun
                },
            }
        }),
{
}

/// A `.mo` file is made only where there is a `.po` file to make it from, and only once its directory
/// is made. A missing `.po` file is named.
pub proof fn law_po_required(
    compilation: &mut Compilation,
    outcome: Outcome,
    res: Result<Action, FileFault>,
)
    requires
        call_ensures(Compilation::next, (compilation, outcome), res),
        old(compilation).progress().at < old(compilation).plan().jobs.len(),
        old(compilation).progress().stage == Stage::RequirePo,
    ensures
        ({
            let at = old(compilation).progress().at;
            let job = old(compilation).plan().jobs[at as int];
            if outcome == Outcome::Success {
                &&& final(compilation).progress() == (Progress { at, stage: Stage::MakeDir })
                &&& res matches Ok(Action::MakeDir(path)) && path@ == job.mo_dir
            } else {
                res matches Err(FileFault::MissingPo(path)) && path@ == job.po
            }
        }),
{
}

/// Once the directory is made, `msgfmt` makes the `.mo` file of the language from its `.po` file.
pub proof fn law_dir_made(
    compilation: &mut Compilation,
    outcome: Outcome,
    res: Result<Action, FileFault>,
)
    requires
        call_ensures(Compilation::next, (compilation, outcome), res),
        old(compilation).progress().at < old(compilation).plan().jobs.len(),
        old(compilation).progress().stage == Stage::MakeDir,
    ensures
        ({
            let at = old(compilation).progress().at;
            let job = old(compilation).plan().jobs[at as int];
            if outcome == Outcome::Success {
                &&& final(compilation).progress() == (Progress { at, stage: Stage::Format })
                &&& res matches Ok(action) && runs(
                    action,
                    "msgfmt",
                    seq!["--output-file="@ + job.mo, job.po],
                )
            } else {
                res matches Err(FileFault::Plain(fault)) && fault == Fault::NoMoDirectory
            }
        }),
{
}

/// Once the `.mo` file of a language is made, the next language is next.
pub proof fn law_mo_made(
    compilation: &mut Compilation,
    outcome: Outcome,
    res: Result<Action, FileFault>,
)
    requires
        call_ensures(Compilation::next, (compilation, outcome), res),
        old(compilation).progress().at < old(compilation).plan().jobs.len(),
        old(compilation).progress().stage == Stage::Format,
    ensures
        ({
            let plan = old(compilation).plan();
            let at = old(compilation).progress().at;
            match outcome {
                Outcome::Success => res matches Ok(action) && comes_to(
                    plan,
                    at + 1,
                    final(compilation).progress(),
                    action,
                ),
                Outcome::Failure => res matches Err(FileFault::Plain(fault)) && fault
                    == Fault::FormatFailed,
                Outcome::NotRun => res matches Err(FileFault::Plain(fault)) && fault
                    == Fault::FormatNotRun,
            }
        }),
{
}

/// A compilation that is finished stays so.
pub proof fn law_finished_stays(
    compilation: &mut Compilation,
    outcome: Outcome,
    res: Result<Action, FileFault>,
)
    requires
        call_ensures(Compilation::next, (compilation, outcome), res),
        old(compilation).progress().at >= old(compilation).plan().jobs.len() || old(
            compilation,
        ).progress().stage == Stage::Finished,
    ensures
        res matches Ok(action) && action is Finish,
        final(compilation).progress() == old(compilation).progress(),
{
}

/// What making a `.po` file takes: looking for it, and updating or making it.
pub open spec fn po_steps(plan: Plan, job: Job, po_exists: bool) -> Seq<(ActionModel, Outcome)> {
    if po_exists {
        seq![
            (ActionModel::FindFile(job.po), Outcome::Success),
            (
                ActionModel::Run {
                    say: None,
                    program: "msgmerge"@,
                    args: seq!["-U"@, job.po, plan.pot],
                },
                Outcome::Success,
            ),
        ]
    } else {
        seq![
            (ActionModel::FindFile(job.po), Outcome::Failure),
            (
                ActionModel::Run {
                    say: Some("Creating "@ + job.lang),
                    program: "msginit"@,
                    args: seq![
                        "--input="@ + plan.pot,
                        "--output-file="@ + job.po,
                        "-l"@,
                        job.lang,
                        "--no-translator"@,
                    ],
                },
                Outcome::Success,
            ),
        ]
    }
}

/// What making a `.mo` file takes: finding the `.po` file, making the directory, and compiling.
pub open spec fn mo_steps(job: Job) -> Seq<(ActionModel, Outcome)> {
    seq![
        (ActionModel::FindAny(job.po), Outcome::Success),
        (ActionModel::MakeDir(job.mo_dir), Outcome::Success),
        (
            ActionModel::Run {
                say: None,
                program: "msgfmt"@,
                args: seq!["--output-file="@ + job.mo, job.po],
            },
            Outcome::Success,
        ),
    ]
}

/// For one language, the `.po` file is made first where that is asked for, and then the `.mo` file
/// where that is.
pub proof fn law_language_steps(plan: Plan, at: nat, po_exists: bool)
    requires
        at < plan.jobs.len(),
        plan.make_po || plan.make_mo,
    ensures
        taken(plan, begin(plan, at), done_well(plan, po_exists)) == (if plan.make_po {
            po_steps(plan, plan.jobs[at as int], po_exists)
        } else {
            Seq::empty()
        }) + (if plan.make_mo {
            mo_steps(plan.jobs[at as int])
        } else {
            Seq::empty()
        }),
{
    reveal_with_fuel(taken, 6);
    let outcomes = done_well(plan, po_exists);
    let job = plan.jobs[at as int];
    if plan.make_po && plan.make_mo {
        assert(outcomes.drop_first().drop_first().drop_first().drop_first().drop_first() =~= Seq::<
            Outcome,
        >::empty());
        assert(taken(plan, begin(plan, at), outcomes) =~= po_steps(plan, job, po_exists) + mo_steps(
            job,
        ));
    } else if plan.make_po {
        assert(outcomes.drop_first().drop_first() =~= Seq::<Outcome>::empty());
        assert(taken(plan, begin(plan, at), outcomes) =~= po_steps(plan, job, po_exists) + Seq::<
            (ActionModel, Outcome),
        >::empty());
    } else {
        assert(outcomes.drop_first().drop_first().drop_first() =~= Seq::<Outcome>::empty());
        assert(taken(plan, begin(plan, at), outcomes) =~= Seq::<(ActionModel, Outcome)>::empty()
            + mo_steps(job));
    }
}

} // verus!
