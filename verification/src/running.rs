//! What each command works on.

use vstd::prelude::*;

use crate::commands;
use crate::commands::CommandView;
use crate::context;
use crate::error;
use crate::error::CauseView;
use crate::get;
use crate::get::GetSummary;
use crate::merge;
use crate::merge::MergeSummary;
use crate::model::{AppConfigView, AppContextView, Diagnostics, GhPrView, MergeTargetView};
use crate::pr;
use crate::pr::{GetTargetView, Platform};
use crate::quiet;
use crate::record;
use crate::record::Event;
use crate::repair;
use crate::repair::RepairSummary;
use crate::revsets;
use crate::submit;
use crate::submit::SubmitSummary;
use crate::sync;
use crate::sync::SyncSummary;
use crate::targeting;
use crate::text;
use crate::unfreeze;

verus! {

broadcast use crate::record::group_record;

/// The changes from trunk to the working copy that are not immutable and not empty.
pub open spec fn current_stack() -> Seq<char> {
    "trunk()..@ & ~::(immutable_heads() | root()) & ~empty()"@
}

/// The law of the submit command: it submits the current stack, as it was read, and with the consent that
/// the user gave beforehand; but for that it changes nothing.
pub proof fn law_submit_works_on_the_current_stack(
    before: Seq<Event>,
    after: Seq<Event>,
    config: AppConfigView,
    yes: bool,
    platform: Platform,
    diagnostics: Diagnostics,
    r: Result<(), Seq<CauseView>>,
)
    requires
        commands::configured_run(
            before,
            after,
            config,
            (CommandView::Submit { yes }),
            platform,
            diagnostics,
            r,
        ),
        r is Ok || !quiet::quiet(before, after),
    ensures
        exists|
            mid: Seq<Event>,
            start: Seq<Event>,
            end: Seq<Event>,
            context: AppContextView,
            done: Result<SubmitSummary, Seq<CauseView>>,
        |
            {
                &&& #[trigger] context::context_resolved(before, mid, current_stack(), Ok(context))
                &&& quiet::quiet(mid, start)
                &&& #[trigger] submit::stack_submitted(
                    start,
                    end,
                    config,
                    context,
                    yes,
                    "forklift submit --yes"@,
                    diagnostics,
                    done,
                )
                &&& quiet::quiet(end, after)
                &&& r is Ok <==> done is Ok
            },
{
    broadcast use {
        crate::quiet::group_quiet,
        crate::asking::lemma_context_said,
        crate::asking::lemma_note_said,
        crate::asking::asks_context_resolved,
        crate::asking::asks_submit_told,
    };

    reveal(commands::submit_run);
    let (mid, context) = choose|mid: Seq<Event>, context: Result<AppContextView, Seq<CauseView>>|
        {
            &&& #[trigger] context::context_resolved(before, mid, current_stack(), context)
            &&& match context {
                Err(e) => record::stopped(
                    mid,
                    after,
                    error::phase_failure("resolve-stack"@, current_stack(), e),
                    r,
                ),
                Ok(context) => commands::context_submit_run(
                    mid,
                    after,
                    config,
                    context,
                    yes,
                    diagnostics,
                    r,
                ),
            }
        };
    assert(quiet::quiet(before, mid));
    let context = context->Ok_0;
    let start = mid + context::context_said(diagnostics.verbose, context);
    let (end, done) = choose|end: Seq<Event>, done: Result<SubmitSummary, Seq<CauseView>>|
        {
            &&& #[trigger] submit::stack_submitted(
                start,
                end,
                config,
                context,
                yes,
                "forklift submit --yes"@,
                diagnostics,
                done,
            )
            &&& commands::submit_told(end, after, context.stack.len(), done, diagnostics, r)
        };
    assert(quiet::quiet(mid, start));
    assert(quiet::quiet(end, after));
}

/// The law of the sync command: it syncs the current stack; but for that it changes nothing.
pub proof fn law_sync_works_on_the_current_stack(
    before: Seq<Event>,
    after: Seq<Event>,
    config: AppConfigView,
    submit: bool,
    yes: bool,
    platform: Platform,
    diagnostics: Diagnostics,
    r: Result<(), Seq<CauseView>>,
)
    requires
        commands::configured_run(
            before,
            after,
            config,
            (CommandView::Sync { submit, yes }),
            platform,
            diagnostics,
            r,
        ),
    ensures
        exists|end: Seq<Event>, done: Result<SyncSummary, Seq<CauseView>>|
            {
                &&& #[trigger] sync::stack_synced(
                    before,
                    end,
                    config,
                    current_stack(),
                    submit,
                    yes,
                    diagnostics,
                    done,
                )
                &&& quiet::quiet(end, after)
                &&& r is Ok <==> done is Ok
            },
{
    broadcast use crate::quiet::group_quiet;

    reveal(commands::sync_run);
    let (end, done) = choose|end: Seq<Event>, done: Result<SyncSummary, Seq<CauseView>>|
        {
            &&& #[trigger] sync::stack_synced(
                before,
                end,
                config,
                current_stack(),
                submit,
                yes,
                diagnostics,
                done,
            )
            &&& match done {
                Err(e) => record::stopped(end, after, e, r),
                Ok(s) => after == end.push(
                    commands::finished(commands::sync_end(s, diagnostics.dry_run)),
                ) && r == Ok::<(), Seq<CauseView>>(()),
            }
        };
    assert(quiet::quiet(end, after));
}

/// The law of the merge command: it merges the commits that stand for its target, or the current stack
/// where it has none; an approval is asked for as configured, unless the user or the administrator's
/// rights drop it. Without a target nothing is changed but for the merge.
pub proof fn law_merge_works_on_its_target(
    before: Seq<Event>,
    after: Seq<Event>,
    config: AppConfigView,
    choice: Option<Seq<char>>,
    no_require_approval: bool,
    admin: bool,
    platform: Platform,
    diagnostics: Diagnostics,
    r: Result<(), Seq<CauseView>>,
)
    requires
        commands::configured_run(
            before,
            after,
            config,
            (CommandView::Merge { choice, no_require_approval, admin }),
            platform,
            diagnostics,
            r,
        ),
        r is Ok || !quiet::quiet(before, after),
    ensures
        exists|
            mid: Seq<Event>,
            end: Seq<Event>,
            revset: Seq<char>,
            target: Option<MergeTargetView>,
            relaxed: AppConfigView,
            done: Result<MergeSummary, Seq<CauseView>>,
        |
            {
                &&& #[trigger] revsets::revset_chosen(before, mid, choice, Ok((revset, target)))
                &&& #[trigger] merge::stack_merged(
                    mid,
                    end,
                    relaxed,
                    revset,
                    target,
                    admin,
                    diagnostics,
                    done,
                )
                &&& relaxed.trunk == config.trunk
                &&& relaxed.remote == config.remote
                &&& relaxed.branch_prefix == config.branch_prefix
                &&& relaxed.require_approval <==> config.require_approval && !no_require_approval
                    && !admin
                &&& choice is None || done is Err || diagnostics.dry_run ==> quiet::quiet(end, after)
                &&& done is Err ==> r is Err
            },
{
    broadcast use {
        crate::quiet::group_quiet,
        crate::asking::lemma_merge_said,
        crate::asking::asks_revset_chosen,
    };

    reveal(commands::merge_run);
    let relaxed = commands::merge_config(config, no_require_approval, admin);
    let (mid, chosen) = choose|
        mid: Seq<Event>,
        chosen: Result<(Seq<char>, Option<MergeTargetView>), Seq<CauseView>>,
    |
        {
            &&& #[trigger] revsets::revset_chosen(before, mid, choice, chosen)
            &&& match chosen {
                Err(e) => record::stopped(
                    mid,
                    after,
                    error::phase_failure(
                        "resolve-merge-target"@,
                        commands::target_or(choice, current_stack()),
                        e,
                    ),
                    r,
                ),
                Ok((revset, at)) => commands::chosen_merge_run(
                    mid,
                    after,
                    config,
                    relaxed,
                    choice is Some,
                    revset,
                    at,
                    admin,
                    diagnostics,
                    r,
                ),
            }
        };
    assert(quiet::quiet(before, mid));
    let (revset, target) = chosen->Ok_0;
    let (end, done) = choose|end: Seq<Event>, done: Result<MergeSummary, Seq<CauseView>>|
        {
            &&& #[trigger] merge::stack_merged(
                mid,
                end,
                relaxed,
                revset,
                target,
                admin,
                diagnostics,
                done,
            )
            &&& match done {
                Err(e) => record::stopped(end, after, e, r),
                Ok(s) => if !diagnostics.dry_run && s.merged_prs > 0 && choice is Some {
                    commands::merge_followed(end, after, config, s, diagnostics, r)
                } else {
                    after == end + commands::merge_said(s, diagnostics) && r == Ok::<
                        (),
                        Seq<CauseView>,
                    >(())
                },
            }
        };
    if choice is None || done is Err || diagnostics.dry_run {
        assert(quiet::quiet(end, after));
    }
    assert(revsets::revset_chosen(before, mid, choice, Ok((revset, target))));
}

/// The law of the commands with a target: get, repair and unfreeze work on the target that they were
/// given; a get begins a change unless it was told not to. But for that they change nothing.
pub proof fn law_target_commands_work_on_their_target(
    before: Seq<Event>,
    after: Seq<Event>,
    config: AppConfigView,
    target: Seq<char>,
    flag: bool,
    platform: Platform,
    diagnostics: Diagnostics,
    r: Result<(), Seq<CauseView>>,
)
    ensures
        commands::configured_run(
            before,
            after,
            config,
            (CommandView::Get { target, no_edit: flag }),
            platform,
            diagnostics,
            r,
        ) ==> exists|end: Seq<Event>, edit: bool, done: Result<GetSummary, Seq<CauseView>>|
            {
                &&& #[trigger] get::stack_got(before, end, config, target, edit, diagnostics, done)
                &&& edit != flag
                &&& quiet::quiet(end, after)
                &&& r is Ok <==> done is Ok
            },
        commands::configured_run(
            before,
            after,
            config,
            (CommandView::Repair { target, yes: flag }),
            platform,
            diagnostics,
            r,
        ) ==> exists|end: Seq<Event>, done: Result<RepairSummary, Seq<CauseView>>|
            {
                &&& #[trigger] repair::comments_repaired(
                    before,
                    end,
                    config,
                    target,
                    flag,
                    diagnostics,
                    done,
                )
                &&& quiet::quiet(end, after)
                &&& r is Ok <==> done is Ok
            },
        commands::configured_run(
            before,
            after,
            config,
            (CommandView::Unfreeze { target }),
            platform,
            diagnostics,
            r,
        ) ==> exists|end: Seq<Event>, done: Result<u64, Seq<CauseView>>|
            {
                &&& #[trigger] unfreeze::stack_unfrozen(
                    before,
                    end,
                    config,
                    target,
                    diagnostics,
                    done,
                )
                &&& quiet::quiet(end, after)
                &&& r is Ok <==> done is Ok
            },
{
    broadcast use crate::quiet::group_quiet;

    reveal(commands::get_run);
    reveal(commands::repair_run);
    reveal(commands::unfreeze_run);
    let edit = !flag;
    if commands::get_run(before, after, config, target, edit, diagnostics, r) {
        let (end, done) = choose|end: Seq<Event>, done: Result<GetSummary, Seq<CauseView>>|
            {
                &&& #[trigger] get::stack_got(before, end, config, target, edit, diagnostics, done)
                &&& match done {
                    Err(e) => record::stopped(end, after, e, r),
                    Ok(s) => after == end.push(
                        commands::finished(commands::get_end(s, diagnostics.dry_run)),
                    ) && r == Ok::<(), Seq<CauseView>>(()),
                }
            };
        assert(quiet::quiet(end, after));
    }
    if commands::repair_run(before, after, config, target, flag, diagnostics, r) {
        let (end, done) = choose|end: Seq<Event>, done: Result<RepairSummary, Seq<CauseView>>|
            {
                &&& #[trigger] repair::comments_repaired(
                    before,
                    end,
                    config,
                    target,
                    flag,
                    diagnostics,
                    done,
                )
                &&& match done {
                    Err(e) => record::stopped(end, after, e, r),
                    Ok(s) => after == end.push(
                        commands::finished(commands::repair_end(s, diagnostics.dry_run)),
                    ) && r == Ok::<(), Seq<CauseView>>(()),
                }
            };
        assert(quiet::quiet(end, after));
    }
    if commands::unfreeze_run(before, after, config, target, diagnostics, r) {
        let (end, done) = choose|end: Seq<Event>, done: Result<u64, Seq<CauseView>>|
            {
                &&& #[trigger] unfreeze::stack_unfrozen(
                    before,
                    end,
                    config,
                    target,
                    diagnostics,
                    done,
                )
                &&& match done {
                    Err(e) => record::stopped(end, after, e, r),
                    Ok(number) => after == end.push(
                        commands::finished(commands::unfreeze_end(number, diagnostics.dry_run)),
                    ) && r == Ok::<(), Seq<CauseView>>(()),
                }
            };
        assert(quiet::quiet(end, after));
    }
}

/// The address of a pull request.
pub open spec fn address(repo: Seq<char>, number: u64) -> Seq<char> {
    "https://github.com/"@ + repo + "/pull/"@ + text::decimal(number as nat)
}

/// The law of the address: what is found for a target is the address of the request with the number that
/// the target gives, or that GitHub told of the request that was read for it.
pub proof fn law_address_is_of_the_request(
    before: Seq<Event>,
    after: Seq<Event>,
    trunk: Seq<char>,
    repo: Seq<char>,
    target: Option<Seq<char>>,
    number: u64,
    url: Seq<char>,
)
    requires
        pr::pr_url_resolved(before, after, trunk, repo, target, Ok((number, url))),
    ensures
        ({
            ||| {
                &&& target is Some
                &&& pr::target_meaning(target->Some_0, repo) is Ok
                &&& pr::target_meaning(target->Some_0, repo)->Ok_0 is PullRequest
                &&& (pr::target_meaning(target->Some_0, repo)->Ok_0)->number == number
                &&& url == address((pr::target_meaning(target->Some_0, repo)->Ok_0).place(), number)
            }
            ||| exists|asked: u64, pr: GhPrView|
                {
                    &&& #[trigger] targeting::reads_request(after, after.len() - 1, repo, asked, pr)
                    &&& pr.number == number
                    &&& url == address(repo, number)
                }
        }),
{
    let r = Ok::<(u64, Seq<char>), Seq<CauseView>>((number, url));
    match target {
        Some(target) => {
            match pr::target_meaning(target, repo) {
                Ok(GetTargetView::BranchOrChange { repo: place, value }) => {
                    let found = choose|found: Result<GhPrView, Seq<CauseView>>|
                        #[trigger] pr::target_looked_up(before, after, repo, value, "pr"@, found) && r
                            == pr::numbered_url(repo, found);
                    let asked = targeting::law_target_reads_its_request(
                        before,
                        after,
                        repo,
                        (GetTargetView::BranchOrChange { repo, value }),
                        "pr"@,
                        found->Ok_0,
                    );
                    assert(targeting::reads_request(
                        after,
                        after.len() - 1,
                        repo,
                        asked,
                        found->Ok_0,
                    ));
                },
                _ => {},
            }
        },
        None => {
            let (mid, checked) = choose|mid: Seq<Event>, checked: Result<(), Seq<CauseView>>|
                {
                    &&& #[trigger] pr::default_target_checked(before, mid, trunk, checked)
                    &&& match checked {
                        Err(e) => record::stopped(mid, after, e, r),
                        Ok(_) => pr::current_url_found(mid, after, repo, r),
                    }
                };
            let asked_id = choose|asked_id: Seq<Event>|
                {
                    &&& #[trigger] record::called(
                        mid,
                        asked_id,
                        "jj"@,
                        pr::change_id_args("@"@),
                    )
                    &&& match pr::current_change_result(record::last_reply(asked_id)) {
                        Err(e) => record::stopped(asked_id, after, e, r),
                        Ok(change_id) => pr::change_url_found(asked_id, after, repo, change_id, r),
                    }
                };
            let change_id = pr::current_change_result(record::last_reply(asked_id))->Ok_0;
            let found = choose|found: Result<GhPrView, Seq<CauseView>>|
                {
                    &&& #[trigger] pr::target_looked_up(
                        asked_id,
                        after,
                        repo,
                        change_id,
                        "pr"@,
                        found,
                    )
                    &&& r == match found {
                        Err(e) => Err(pr::not_submitted(change_id)),
                        Ok(pr) => Ok((pr.number, pr::pr_url(repo, pr.number))),
                    }
                };
            let asked = targeting::law_target_reads_its_request(
                asked_id,
                after,
                repo,
                (GetTargetView::BranchOrChange { repo, value: change_id }),
                "pr"@,
                found->Ok_0,
            );
            assert(targeting::reads_request(after, after.len() - 1, repo, asked, found->Ok_0));
        },
    }
}

/// The law of the opened page: the program that opens a page gets the address as its last argument, and on
/// Windows an empty title before it.
pub proof fn law_page_is_opened_by_its_address(platform: Platform, url: Seq<char>)
    ensures
        pr::opener_args(platform, url).last() == url,
        platform is Windows ==> pr::opener_args(platform, url) == seq!["/C"@, "start"@, ""@, url],
        !(platform is Windows) ==> pr::opener_args(platform, url).len() == 1,
        platform is MacOs ==> pr::opener(platform) == "open"@,
        platform is Windows ==> pr::opener(platform) == "cmd"@,
        platform is Other ==> pr::opener(platform) == "xdg-open"@,
{
}

/// The law of the viewer: the viewer gets the arguments of the user, after the revset that the user gave,
/// or the one of all stacks; where all is to be seen, it gets the arguments alone.
pub proof fn law_viewer_gets_the_users_arguments(
    branch_prefix: Seq<char>,
    all: bool,
    revset: Option<Seq<char>>,
    args: Seq<Seq<char>>,
)
    ensures
        all ==> commands::ui_args(branch_prefix, all, revset, args) == args,
        !all ==> {
            let given = commands::ui_args(branch_prefix, all, revset, args);
            &&& given.len() == args.len() + 2
            &&& given[0] == "-r"@
            &&& revset is Some ==> given[1] == revset->Some_0
            &&& revset is None ==> given[1]
                == "trunk() | @:: | mutable() | trunk()..(@ | bookmarks(glob:'"@ + text::trim_end_char(
                branch_prefix,
                '/',
            ) + "/*') | bookmarks(glob:'forklift/frozen/*'))"@
            &&& given.skip(2) == args
        },
{
    if !all {
        let given = commands::ui_args(branch_prefix, all, revset, args);
        assert(given.skip(2) =~= args);
    }
}

} // verus!
