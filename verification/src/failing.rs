//! What is said of a failure.

use vstd::prelude::*;

use crate::error;
use crate::error::{CauseView, CliErrorView, MergeRequiredView, MergeUnfreezeView};
use crate::text;
use crate::words;

verus! {

/// The law of the context: a failure that is put in a context is named by it, and keeps all its causes
/// below, in their order.
pub proof fn law_context_keeps_the_causes(context: Seq<char>, causes: Seq<CauseView>)
    ensures
        error::top_line(error::in_context(context, causes)) == context,
        error::in_context(context, causes).drop_first() == causes,
        error::chain_text(error::in_context(context, causes)) == if causes.len() == 0 {
            context
        } else {
            context + ": "@ + error::chain_text(causes)
        },
{
    let outer = error::in_context(context, causes);
    assert(outer.drop_first() =~= causes);
    assert(error::headlines(outer) =~= seq![context] + error::headlines(causes));
    if causes.len() > 0 {
        words::lemma_join_front(context, error::headlines(causes), ": "@);
    }
}

/// The law of the outermost report: the report of a failure is that of its outermost cause that has one.
pub proof fn law_report_is_of_the_outermost(causes: Seq<CauseView>) -> (k: int)
    ensures
        error::first_report(causes) is None <==> forall|j: int|
            0 <= j < causes.len() ==> (#[trigger] causes[j]).report() is None,
        error::first_report(causes) is Some ==> {
            &&& 0 <= k < causes.len()
            &&& causes[k].report() == error::first_report(causes)
            &&& forall|j: int| 0 <= j < k ==> (#[trigger] causes[j]).report() is None
        },
    decreases causes.len(),
{
    if causes.len() == 0 {
        0
    } else if causes[0].report() is Some {
        0
    } else {
        let rest = causes.drop_first();
        let k = law_report_is_of_the_outermost(rest);
        assert forall|j: int| 0 < j < causes.len() implies #[trigger] causes[j] == rest[j - 1] by {}
        if error::first_report(rest) is None {
            assert forall|j: int| 0 <= j < causes.len() implies (
            #[trigger] causes[j]).report() is None by {
                if j > 0 {
                    assert(causes[j] == rest[j - 1]);
                }
            }
        } else {
            assert(causes[k + 1] == rest[k]);
            assert forall|j: int| 0 <= j < k + 1 implies (
            #[trigger] causes[j]).report() is None by {
                if j > 0 {
                    assert(causes[j] == rest[j - 1]);
                }
            }
        }
        k + 1
    }
}

/// The law of the asked step: a failure asks for a submit, a sync or an adoption just where one of its
/// causes does.
pub proof fn law_asked_step_is_of_a_cause(
    causes: Seq<CauseView>,
    step: MergeRequiredView,
    adoption: MergeUnfreezeView,
)
    ensures
        error::first_submit(causes) == Some(step) ==> causes.contains(CauseView::Submit(step)),
        error::first_sync(causes) == Some(step) ==> causes.contains(CauseView::Sync(step)),
        error::first_unfreeze(causes) == Some(adoption) ==> causes.contains(
            CauseView::Unfreeze(adoption),
        ),
        error::first_submit(causes) is None ==> !causes.contains(CauseView::Submit(step)),
        error::first_sync(causes) is None ==> !causes.contains(CauseView::Sync(step)),
        error::first_unfreeze(causes) is None ==> !causes.contains(CauseView::Unfreeze(adoption)),
    decreases causes.len(),
{
    if causes.len() > 0 {
        let rest = causes.drop_first();
        law_asked_step_is_of_a_cause(rest, step, adoption);
        assert(causes =~= seq![causes[0]] + rest);
        lemma_first_or_rest(causes, CauseView::Submit(step));
        lemma_first_or_rest(causes, CauseView::Sync(step));
        lemma_first_or_rest(causes, CauseView::Unfreeze(adoption));
    }
}

proof fn lemma_first_or_rest(causes: Seq<CauseView>, cause: CauseView)
    requires
        causes.len() > 0,
    ensures
        causes.contains(cause) <==> causes[0] == cause || causes.drop_first().contains(cause),
{
    let rest = causes.drop_first();
    if rest.contains(cause) {
        let k = choose|k: int| 0 <= k < rest.len() && rest[k] == cause;
        assert(causes[k + 1] == cause);
    }
    if causes.contains(cause) && causes[0] != cause {
        let k = choose|k: int| 0 <= k < causes.len() && causes[k] == cause;
        assert(rest[k - 1] == cause);
    }
}

/// The law of the failed phase: the failure of a phase names the phase and its object, keeps every detail
/// and the way out of what failed in it, and, where a chain of causes led to it, gives the whole chain
/// as its reason.
pub proof fn law_failed_phase_keeps_what_failed(
    phase: Seq<char>,
    object: Seq<char>,
    causes: Seq<CauseView>,
    detail: (Seq<char>, Seq<char>),
)
    ensures
        ({
            let outer = error::phase_failure(phase, object, causes);
            let inner = error::chain_report(causes);
            let report = outer[0]->Cli_0;
            &&& outer.len() == 1
            &&& outer[0] is Cli
            &&& !text::is_blank(phase) ==> report.details.contains(("phase"@, phase))
            &&& !text::is_blank(object) ==> report.details.contains(("object"@, object))
            &&& inner.details.contains(detail) ==> report.details.contains(detail)
            &&& inner.resolution is Some && !text::is_blank(inner.resolution->Some_0)
                ==> report.resolution == inner.resolution
            &&& phase != "resolve-pr"@ && causes.len() > 1 && !text::is_blank(
                error::chain_text(causes),
            ) ==> report.reason == Some(error::chain_text(causes))
        }),
{
    let outer = error::phase_failure(phase, object, causes);
    let inner = error::chain_report(causes);
    let report = outer[0]->Cli_0;
    let short = phase == "resolve-pr"@ && (inner.message == "no current PR"@ || inner.message
        == "current revision is not submitted"@);
    if short {
        lemma_with(inner, "phase"@, phase, detail);
        lemma_with(inner, "phase"@, phase, ("phase"@, phase));
        let one = inner.with("phase"@, phase);
        lemma_with(one, "object"@, object, detail);
        lemma_with(one, "object"@, object, ("phase"@, phase));
        lemma_with(one, "object"@, object, ("object"@, object));
    } else {
        let resolution = match inner.resolution {
            Some(resolution) => resolution,
            None => "run `forklift submit --dry-run` to preview the stack state"@,
        };
        let plain = error::cli(error::phase_summary_text(phase, object)).because(
            error::failure_reason(causes, inner),
        ).fixed_by(resolution);
        let one = plain.with("phase"@, phase);
        let two = one.with("object"@, object);
        lemma_with(plain, "phase"@, phase, ("phase"@, phase));
        lemma_with(one, "object"@, object, ("phase"@, phase));
        lemma_with(one, "object"@, object, ("object"@, object));
        assert(report.details == two.details + inner.details);
        lemma_either(two.details, inner.details, ("phase"@, phase));
        lemma_either(two.details, inner.details, ("object"@, object));
        lemma_either(two.details, inner.details, detail);
    }
}

proof fn lemma_with(
    report: CliErrorView,
    key: Seq<char>,
    value: Seq<char>,
    detail: (Seq<char>, Seq<char>),
)
    ensures
        report.details.contains(detail) ==> report.with(key, value).details.contains(detail),
        !text::is_blank(value) ==> report.with(key, value).details.contains((key, value)),
        report.with(key, value).reason == report.reason,
        report.with(key, value).resolution == report.resolution,
        report.with(key, value).message == report.message,
{
    let details = report.details.push((key, value));
    assert(details[report.details.len() as int] == (key, value));
    if report.details.contains(detail) {
        let k = choose|k: int| 0 <= k < report.details.len() && report.details[k] == detail;
        assert(details[k] == detail);
    }
}

proof fn lemma_either(
    front: Seq<(Seq<char>, Seq<char>)>,
    back: Seq<(Seq<char>, Seq<char>)>,
    detail: (Seq<char>, Seq<char>),
)
    ensures
        front.contains(detail) || back.contains(detail) ==> (front + back).contains(detail),
{
    if front.contains(detail) {
        let k = choose|k: int| 0 <= k < front.len() && front[k] == detail;
        assert((front + back)[k] == detail);
    } else if back.contains(detail) {
        let k = choose|k: int| 0 <= k < back.len() && back[k] == detail;
        assert((front + back)[front.len() + k] == detail);
    }
}

} // verus!
