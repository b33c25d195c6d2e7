//! Building translation files does what the configuration asks for, and comes to an end.

use vstd::prelude::*;

use crate::compile::advance;
use crate::compile::begin;
use crate::compile::format_action;
use crate::compile::init_action;
use crate::compile::merge_action;
use crate::compile::ActionModel;
use crate::compile::Outcome;
use crate::compile::Plan;
use crate::compile::Progress;
use crate::compile::Stage;
use crate::fault::FileFaultModel;

verus! {

/// How many stages may still follow a stage for the same language.
pub open spec fn stages_left(stage: Stage) -> int {
    match stage {
        Stage::LookForPo => 5,
        Stage::Merge => 4,
        Stage::Init => 4,
        Stage::RequirePo => 3,
        Stage::MakeDir => 2,
        Stage::Format => 1,
        Stage::Finished => 0,
    }
}

/// A bound on what is left to be done.
pub open spec fn left(plan: Plan, progress: Progress) -> int {
    5 * (plan.jobs.len() - progress.at) + stages_left(progress.stage)
}

/// A compilation comes to an end: each outcome either ends it or brings it nearer to its end, and
/// there is nothing left exactly where it is finished.
pub proof fn law_compile_ends(plan: Plan, progress: Progress, outcome: Outcome)
    requires
        progress.at < plan.jobs.len(),
        progress.stage != Stage::Finished,
        advance(plan, progress, outcome) is Ok,
    ensures
        ({
            let (after, action) = advance(plan, progress, outcome)->Ok_0;
            &&& 0 <= left(plan, after) < left(plan, progress)
            &&& action == ActionModel::Finish <==> after.stage == Stage::Finished
            &&& after.stage == Stage::Finished <==> after.at >= plan.jobs.len()
        }),
{
}

/// Whether a compilation may be at a stage: only at those that the configuration asks for.
pub open spec fn asked_for(plan: Plan, stage: Stage) -> bool {
    match stage {
        Stage::LookForPo => plan.make_po,
        Stage::Merge => plan.make_po,
        Stage::Init => plan.make_po,
        Stage::RequirePo => plan.make_mo,
        Stage::MakeDir => plan.make_mo,
        Stage::Format => plan.make_mo,
        Stage::Finished => true,
    }
}

/// Whether an action may be taken: `msgmerge` and `msginit` run only where `.po` files are asked
/// for, `msgfmt` only where `.mo` files are, and no other program runs.
pub open spec fn action_asked_for(plan: Plan, action: ActionModel) -> bool {
    match action {
        ActionModel::Run { say, program, args } => {
            ||| plan.make_po && (program == "msgmerge"@ || program == "msginit"@)
            ||| plan.make_mo && program == "msgfmt"@
        },
        ActionModel::FindFile(_) => plan.make_po,
        ActionModel::FindAny(_) => plan.make_mo,
        ActionModel::MakeDir(_) => plan.make_mo,
        ActionModel::Finish => true,
    }
}

/// A compilation begins with what the configuration asks for.
pub proof fn law_begin_asked_for(plan: Plan, at: nat)
    ensures
        asked_for(plan, begin(plan, at).0.stage),
        action_asked_for(plan, begin(plan, at).1),
{
}

/// A compilation goes on with what the configuration asks for.
pub proof fn law_next_asked_for(plan: Plan, progress: Progress, outcome: Outcome)
    requires
        asked_for(plan, progress.stage),
    ensures
        advance(plan, progress, outcome) matches Ok((after, action)) ==> {
            &&& asked_for(plan, after.stage)
            &&& action_asked_for(plan, action)
        },
{
}

/// Where a compilation is after a number of outcomes, and what it is to do.
pub open spec fn follow(
    plan: Plan,
    from: (Progress, ActionModel),
    outcomes: Seq<Outcome>,
) -> Result<(Progress, ActionModel), FileFaultModel>
    decreases outcomes.len(),
{
    if outcomes.len() == 0 {
        Ok(from)
    } else {
        match advance(plan, from.0, outcomes[0]) {
            Ok(next) => follow(plan, next, outcomes.drop_first()),
            Err(fault) => Err(fault),
        }
    }
}

/// The outcomes with which one language is done: of looking for its `.po` file and of making it,
/// where that is asked for; of finding that file, making a directory and making the `.mo` file, where
/// that is.
pub open spec fn done_well(plan: Plan, po_exists: bool) -> Seq<Outcome> {
    (if plan.make_po {
        seq![
            if po_exists {
                Outcome::Success
            } else {
                Outcome::Failure
            },
            Outcome::Success,
        ]
    } else {
        Seq::empty()
    }) + (if plan.make_mo {
        seq![Outcome::Success, Outcome::Success, Outcome::Success]
    } else {
        Seq::empty()
    })
}

/// Once one language is done, the next begins.
pub proof fn law_next_language(plan: Plan, at: nat, po_exists: bool)
    requires
        at < plan.jobs.len(),
        plan.make_po || plan.make_mo,
    ensures
        follow(plan, begin(plan, at), done_well(plan, po_exists)) == Ok::<
            (Progress, ActionModel),
            FileFaultModel,
        >(begin(plan, at + 1)),
{
    reveal_with_fuel(follow, 6);
    let outcomes = done_well(plan, po_exists);
    if plan.make_po && plan.make_mo {
        assert(outcomes.drop_first().drop_first().drop_first().drop_first().drop_first() =~= Seq::<
            Outcome,
        >::empty());
    } else if plan.make_po {
        assert(outcomes.drop_first().drop_first() =~= Seq::<Outcome>::empty());
    } else {
        assert(outcomes.drop_first().drop_first().drop_first() =~= Seq::<Outcome>::empty());
    }
}

/// The outcomes with which all languages from `at` on are done. `po_exists` tells for each whether
/// it has a `.po` file already.
pub open spec fn all_done_well(plan: Plan, at: nat, po_exists: Seq<bool>) -> Seq<Outcome>
    decreases plan.jobs.len() - at,
{
    if at >= plan.jobs.len() {
        Seq::empty()
    } else {
        done_well(plan, po_exists[at as int]) + all_done_well(plan, at + 1, po_exists)
    }
}

/// Outcomes can be followed one part after the other.
proof fn lemma_follow_concat(
    plan: Plan,
    from: (Progress, ActionModel),
    a: Seq<Outcome>,
    b: Seq<Outcome>,
)
    requires
        follow(plan, from, a) is Ok,
    ensures
        follow(plan, from, a + b) == follow(plan, follow(plan, from, a)->Ok_0, b),
    decreases a.len(),
{
    if a.len() == 0 {
        assert(a + b =~= b);
    } else {
        assert((a + b).drop_first() =~= a.drop_first() + b);
        let next = advance(plan, from.0, a[0])->Ok_0;
        lemma_follow_concat(plan, next, a.drop_first(), b);
    }
}

/// Once all languages are done, a compilation is finished.
pub proof fn law_all_languages(plan: Plan, at: nat, po_exists: Seq<bool>)
    requires
        at <= plan.jobs.len(),
        plan.make_po || plan.make_mo,
    ensures
        follow(plan, begin(plan, at), all_done_well(plan, at, po_exists)) == Ok::<
            (Progress, ActionModel),
            FileFaultModel,
        >(
            (
                Progress { at: plan.jobs.len(), stage: Stage::Finished },
                ActionModel::Finish,
            ),
        ),
    decreases plan.jobs.len() - at,
{
    if at < plan.jobs.len() {
        law_next_language(plan, at, po_exists[at as int]);
        law_all_languages(plan, at + 1, po_exists);
        lemma_follow_concat(
            plan,
            begin(plan, at),
            done_well(plan, po_exists[at as int]),
            all_done_well(plan, at + 1, po_exists),
        );
    }
}

/// What a compilation did on the way that `outcomes` tell of: each action with its outcome.
pub open spec fn taken(
    plan: Plan,
    from: (Progress, ActionModel),
    outcomes: Seq<Outcome>,
) -> Seq<(ActionModel, Outcome)>
    decreases outcomes.len(),
{
    if outcomes.len() == 0 {
        Seq::empty()
    } else {
        seq![(from.1, outcomes[0])] + match advance(plan, from.0, outcomes[0]) {
            Ok(next) => taken(plan, next, outcomes.drop_first()),
            Err(_) => Seq::empty(),
        }
    }
}

/// Whether `outcomes` bring a compilation from its start to its end, with no reason to give up.
pub open spec fn finishes(plan: Plan, outcomes: Seq<Outcome>) -> bool {
    follow(plan, begin(plan, 0), outcomes) matches Ok((_, action)) && action == ActionModel::Finish
}

/// The action that a compilation waits for where it is at `progress`.
pub open spec fn action_at(plan: Plan, progress: Progress) -> ActionModel {
    let job = plan.jobs[progress.at as int];
    match progress.stage {
        Stage::LookForPo => ActionModel::FindFile(job.po),
        Stage::Merge => merge_action(plan, job),
        Stage::Init => init_action(plan, job),
        Stage::RequirePo => ActionModel::FindAny(job.po),
        Stage::MakeDir => ActionModel::MakeDir(job.mo_dir),
        Stage::Format => format_action(job),
        Stage::Finished => ActionModel::Finish,
    }
}

/// Whether a compilation may be at `from`: the action is the one for the stage, the stage is asked
/// for, and it is the last one exactly where no language is left.
pub open spec fn on_the_way(plan: Plan, from: (Progress, ActionModel)) -> bool {
    &&& from.1 == action_at(plan, from.0)
    &&& asked_for(plan, from.0.stage)
    &&& from.0.stage == Stage::Finished <==> from.0.at >= plan.jobs.len()
}

/// From wherever a compilation is, it comes to its end only over the `.mo` files of the languages
/// that are left.
proof fn lemma_formatted_on_the_way(
    plan: Plan,
    from: (Progress, ActionModel),
    outcomes: Seq<Outcome>,
    i: int,
)
    requires
        plan.make_mo,
        on_the_way(plan, from),
        from.0.at <= i < plan.jobs.len(),
        follow(plan, from, outcomes) is Ok,
        follow(plan, from, outcomes)->Ok_0.1 == ActionModel::Finish,
    ensures
        taken(plan, from, outcomes).contains((format_action(plan.jobs[i]), Outcome::Success)),
    decreases outcomes.len(),
{
    let made = (format_action(plan.jobs[i]), Outcome::Success);
    if outcomes.len() > 0 {
        let all = taken(plan, from, outcomes);
        let next = advance(plan, from.0, outcomes[0])->Ok_0;
        if next.0.at <= i {
            lemma_formatted_on_the_way(plan, next, outcomes.drop_first(), i);
            let rest = taken(plan, next, outcomes.drop_first());
            let k = choose|k: int| 0 <= k < rest.len() && rest[k] == made;
            assert(all[k + 1] == made);
        } else {
            assert(all[0] == made);
        }
    }
}

/// A compilation that is to make `.mo` files comes to its end only after `msgfmt` has made that of
/// each language.
pub proof fn law_all_formatted(plan: Plan, outcomes: Seq<Outcome>, i: int)
    requires
        plan.make_mo,
        finishes(plan, outcomes),
        0 <= i < plan.jobs.len(),
    ensures
        taken(plan, begin(plan, 0), outcomes).contains(
            (format_action(plan.jobs[i]), Outcome::Success),
        ),
{
    lemma_formatted_on_the_way(plan, begin(plan, 0), outcomes, i);
}

/// Where neither `.po` nor `.mo` files are asked for, a compilation is finished at once.
pub proof fn law_nothing_asked_for(plan: Plan)
    requires
        !plan.make_po,
        !plan.make_mo,
    ensures
        begin(plan, 0) == (
            Progress { at: plan.jobs.len(), stage: Stage::Finished },
            ActionModel::Finish,
        ),
{
}

} // verus!
