//! Waiting for GitHub to catch up.

use vstd::prelude::*;

use crate::error;
use crate::error::{CauseView, Error, fail};
use crate::model::{
    Diagnostics, Duplicate, GhMergePrView, GitHubContext, MergeCandidate, MergeCandidateView,
    copy_numbers,
};
use crate::output;
use crate::output::check_output;
use crate::ready;
use crate::ready::{fetch_pr_for_merge, mergeability_unknown};
use crate::record;
use crate::record::{Event, LineView, Reply};
use crate::repo::gh_run;
use crate::shell::{Host, Line};
use crate::shell::wire::Shell;
use crate::text;
use crate::text::{cat, cat3, cat5, join_text, number_text, same_ignoring_case, trimmed, words};
use crate::ui;
use crate::ui::{say_step, ui_finish_progress_bar};

verus! {

broadcast use crate::record::group_record;

/// The first wait, in milliseconds.
pub const POLL_INITIAL_DELAY_MS: u64 = 500;

/// The longest wait, in milliseconds.
pub const POLL_MAX_DELAY_MS: u64 = 4000;

/// How often GitHub is asked.
pub const POLL_MAX_ATTEMPTS: usize = 20;

/// The wait after a wait of `delay` milliseconds: twice as long, up to the longest.
pub open spec fn next_delay(delay: u64) -> u64 {
    if delay >= POLL_MAX_DELAY_MS / 2 {
        POLL_MAX_DELAY_MS
    } else {
        (delay * 2) as u64
    }
}

/// Waits, and returns the next wait.
pub fn poll_backoff_sleep<H: Host>(sh: &mut Shell<H>, delay_ms: u64) -> (r: u64)
    ensures
        record::extends(old(sh).log(), final(sh).log()),
        final(sh).log() == old(sh).log().push(Event::Paused(delay_ms)),
        r == next_delay(delay_ms),
{
    sh.pause(delay_ms);
    if delay_ms >= POLL_MAX_DELAY_MS / 2 {
        POLL_MAX_DELAY_MS
    } else {
        delay_ms * 2
    }
}

/// The wait after the attempt with this number, counted from zero.
pub open spec fn delay_after(attempt: nat) -> u64
    decreases attempt,
{
    if attempt == 0 {
        POLL_INITIAL_DELAY_MS
    } else {
        next_delay(delay_after((attempt - 1) as nat))
    }
}

/// All the waits of this many attempts together.
pub open spec fn waited(attempts: nat) -> nat
    decreases attempts,
{
    if attempts == 0 {
        0
    } else {
        waited((attempts - 1) as nat) + delay_after((attempts - 1) as nat) as nat
    }
}

/// The law of patience: the waits never get shorter, none is longer than the longest, and all of
/// them together stay under 75 seconds.
pub proof fn law_waits_grow_and_end(a: nat, b: nat)
    requires
        a <= b,
    ensures
        POLL_INITIAL_DELAY_MS <= delay_after(a) <= delay_after(b) <= POLL_MAX_DELAY_MS,
        b <= POLL_MAX_ATTEMPTS ==> waited(b) <= 75_000,
    decreases b,
{
    if a < b {
        law_waits_grow_and_end(a, (b - 1) as nat);
    } else if b > 0 {
        law_waits_grow_and_end((a - 1) as nat, (b - 1) as nat);
    }
    if b <= POLL_MAX_ATTEMPTS {
        lemma_waited(b);
    }
}

proof fn lemma_waited(attempts: nat)
    ensures
        delay_after(0) == 500,
        delay_after(1) == 1000,
        delay_after(2) == 2000,
        attempts >= 3 ==> delay_after(attempts) == 4000,
        attempts <= 3 ==> waited(attempts) <= 3500,
        attempts >= 3 ==> waited(attempts) == 3500 + 4000 * (attempts - 3),
    decreases attempts,
{
    reveal_with_fuel(delay_after, 4);
    reveal_with_fuel(waited, 5);
    if attempts > 3 {
        lemma_waited((attempts - 1) as nat);
    }
}

/// What is said, on request, before a wait.
pub open spec fn waiting_said(
    verbose: bool,
    what: Seq<char>,
    pending: nat,
    how: Seq<char>,
    attempt: nat,
) -> Seq<Event> {
    if verbose {
        seq![
            Event::Said(
                LineView::Note(
                    what + text::decimal(pending) + how + text::decimal(attempt) + "/20)"@,
                ),
            ),
        ]
    } else {
        seq![]
    }
}

fn say_waiting<H: Host>(
    sh: &mut Shell<H>,
    verbose: bool,
    what: &str,
    pending: usize,
    how: &str,
    attempt: usize,
)
    ensures
        record::extends(old(sh).log(), final(sh).log()),
        final(sh).log() == old(sh).log() + waiting_said(
            verbose,
            what@,
            pending as nat,
            how@,
            attempt as nat,
        ),
{
    if verbose {
        sh.say(
            Line::Note(
                cat5(
                    what,
                    &number_text(pending as u64),
                    how,
                    &number_text(attempt as u64),
                    "/20)",
                ),
            ),
        );
    }
    assert(sh.log() =~= old(sh).log() + waiting_said(
        verbose,
        what@,
        pending as nat,
        how@,
        attempt as nat,
    ));
}

// ---------------------------------------------------------------------------
// Mergeability
// ---------------------------------------------------------------------------

/// The record from `before` to `after` holds one round of questions: each pending candidate is
/// fetched anew, and those that are still unsettled stay pending.
pub open spec fn round_asked(
    before: Seq<Event>,
    after: Seq<Event>,
    repo: Seq<char>,
    candidates: Seq<MergeCandidateView>,
    pending: Seq<usize>,
    at: int,
    still: Seq<usize>,
    r: Result<(Seq<MergeCandidateView>, Seq<usize>), Seq<CauseView>>,
) -> bool
    decreases pending.len() - at,
{
    if at >= pending.len() {
        after == before && r == Ok::<_, Seq<CauseView>>((candidates, still))
    } else {
        let index = pending[at];
        let candidate = candidates[index as int];
        exists|mid: Seq<Event>, got: Result<GhMergePrView, Seq<CauseView>>|
            {
                &&& #[trigger] ready::merge_pr_fetched(
                    before,
                    mid,
                    repo,
                    candidate.change.change_id,
                    candidate.entry.pr_number,
                    got,
                )
                &&& match got {
                    Err(e) => record::stopped(mid, after, e, r),
                    Ok(pr) => round_asked(
                        mid,
                        after,
                        repo,
                        candidates.update(index as int, MergeCandidateView { pr, ..candidate }),
                        pending,
                        at + 1,
                        if ready::is_unsettled(pr) {
                            still.push(index)
                        } else {
                            still
                        },
                        r,
                    ),
                }
            }
    }
}

pub open spec fn round_parts(
    r: Result<Vec<usize>, Error>,
    candidates: Seq<MergeCandidateView>,
) -> Result<(Seq<MergeCandidateView>, Seq<usize>), Seq<CauseView>> {
    match r {
        Ok(still) => Ok((candidates, still@)),
        Err(error) => Err(error@),
    }
}

fn ask_round<H: Host>(
    sh: &mut Shell<H>,
    github: &GitHubContext,
    candidates: &mut Vec<MergeCandidate>,
    pending: &Vec<usize>,
    at: usize,
    still: Vec<usize>,
) -> (r: Result<Vec<usize>, Error>)
    requires
        at <= pending@.len(),
        still@.len() <= at,
        forall|i: int| 0 <= i < pending@.len() ==> pending@[i] < old(candidates)@.len(),
        forall|i: int| 0 <= i < still@.len() ==> still@[i] < old(candidates)@.len(),
    ensures
        record::extends(old(sh).log(), final(sh).log()),
        final(candidates)@.len() == old(candidates)@.len(),
        round_asked(
            old(sh).log(),
            final(sh).log(),
            github@.repo,
            old(candidates).deep_view(),
            pending@,
            at as int,
            still@,
            round_parts(r, final(candidates).deep_view()),
        ),
        r matches Ok(left) ==> left@.len() <= pending@.len() && forall|i: int|
            0 <= i < left@.len() ==> left@[i] < old(candidates)@.len(),
    decreases pending@.len() - at,
{
    let n: usize = pending.len();
    if at == n {
        return Ok(still);
    }
    let ghost start = sh.log();
    let ghost all = candidates.deep_view();
    let index: usize = pending[at];
    let change = candidates[index].change.copy();
    let entry = candidates[index].entry.copy();
    let needs_settle = candidates[index].needs_settle;
    assert(all[index as int] == candidates@[index as int]@);
    let got = fetch_pr_for_merge(sh, github, &change.change_id, entry.pr_number);
    let ghost seen = error::res(got);
    assert(ready::merge_pr_fetched(
        start,
        sh.log(),
        github@.repo,
        all[index as int].change.change_id,
        all[index as int].entry.pr_number,
        seen,
    ));
    let pr = match got {
        Ok(pr) => pr,
        Err(error) => return Err(error),
    };
    let mut still = still;
    if mergeability_unknown(&pr) {
        still.push(index);
    }
    let ghost fresh = MergeCandidateView { pr: pr@, ..all[index as int] };
    candidates.set(index, MergeCandidate { change, entry, pr, needs_settle });
    assert(candidates.deep_view() =~= all.update(index as int, fresh));
    ask_round(sh, github, candidates, pending, at + 1, still)
}

pub open spec fn whole_round_asked(
    before: Seq<Event>,
    after: Seq<Event>,
    repo: Seq<char>,
    candidates: Seq<MergeCandidateView>,
    pending: Seq<usize>,
    r: Result<(Seq<MergeCandidateView>, Seq<usize>), Seq<CauseView>>,
) -> bool {
    round_asked(before, after, repo, candidates, pending, 0, seq![], r)
}

/// What is said and waited between two rounds.
pub open spec fn settle_pause(
    verbose: bool,
    pending: nat,
    attempt: nat,
    delay: u64,
) -> Seq<Event> {
    waiting_said(
        verbose,
        "waiting for GitHub to compute mergeability for "@,
        pending,
        " PR(s) (attempt "@,
        attempt + 1,
    ).push(Event::Paused(delay))
}

/// The record from `before` to `after` holds the rounds, from the attempt with this number on, until
/// nothing is pending or the attempts are used up.
pub open spec fn rounds_asked(
    before: Seq<Event>,
    after: Seq<Event>,
    repo: Seq<char>,
    candidates: Seq<MergeCandidateView>,
    pending: Seq<usize>,
    total: nat,
    attempt: nat,
    shown: bool,
    verbose: bool,
    r: Result<Seq<MergeCandidateView>, Seq<CauseView>>,
) -> bool
    decreases POLL_MAX_ATTEMPTS - attempt,
{
    if attempt >= POLL_MAX_ATTEMPTS || pending.len() == 0 {
        after == before && r == Ok::<_, Seq<CauseView>>(candidates)
    } else {
        exists|
            mid: Seq<Event>,
            got: Result<(Seq<MergeCandidateView>, Seq<usize>), Seq<CauseView>>,
        |
            {
                &&& #[trigger] whole_round_asked(before, mid, repo, candidates, pending, got)
                &&& match got {
                    Err(e) => record::stopped(mid, after, e, r),
                    Ok((fresh, still)) => if still.len() == 0 {
                        after == mid + ui::step_said(shown, (total - still.len()) as usize) && r == Ok::<
                            _,
                            Seq<CauseView>,
                        >(fresh)
                    } else {
                        rounds_asked(
                            mid + ui::step_said(shown, (total - still.len()) as usize) + settle_pause(
                                verbose,
                                still.len(),
                                attempt,
                                delay_after(attempt),
                            ),
                            after,
                            repo,
                            fresh,
                            still,
                            total,
                            attempt + 1,
                            shown,
                            verbose,
                            r,
                        )
                    },
                }
            }
    }
}

pub open spec fn rounds_parts(r: Result<(), Error>, candidates: Seq<MergeCandidateView>) -> Result<
    Seq<MergeCandidateView>,
    Seq<CauseView>,
> {
    match r {
        Ok(_) => Ok(candidates),
        Err(error) => Err(error@),
    }
}

fn ask_rounds<H: Host>(
    sh: &mut Shell<H>,
    github: &GitHubContext,
    candidates: &mut Vec<MergeCandidate>,
    pending: &Vec<usize>,
    total: usize,
    delay: u64,
    attempt: usize,
    shown: bool,
    verbose: bool,
) -> (r: Result<(), Error>)
    requires
        pending@.len() <= total,
        attempt <= POLL_MAX_ATTEMPTS,
        delay == delay_after(attempt as nat),
        forall|i: int| 0 <= i < pending@.len() ==> pending@[i] < old(candidates)@.len(),
    ensures
        record::extends(old(sh).log(), final(sh).log()),
        final(candidates)@.len() == old(candidates)@.len(),
        rounds_asked(
            old(sh).log(),
            final(sh).log(),
            github@.repo,
            old(candidates).deep_view(),
            pending@,
            total as nat,
            attempt as nat,
            shown,
            verbose,
            rounds_parts(r, final(candidates).deep_view()),
        ),
    decreases POLL_MAX_ATTEMPTS - attempt,
{
    if attempt >= POLL_MAX_ATTEMPTS || pending.len() == 0 {
        return Ok(());
    }
    let ghost start = sh.log();
    let ghost all = candidates.deep_view();
    let none: Vec<usize> = Vec::new();
    let got = ask_round(sh, github, candidates, pending, 0, none);
    let ghost mid = sh.log();
    let ghost seen = round_parts(got, candidates.deep_view());
    assert(none@ =~= Seq::<usize>::empty());
    assert(whole_round_asked(start, mid, github@.repo, all, pending@, seen));
    let still = match got {
        Ok(still) => still,
        Err(error) => return Err(error),
    };
    let left: usize = still.len();
    say_step(sh, shown, total - left);
    if left == 0 {
        return Ok(());
    }
    let ghost told = sh.log();
    say_waiting(
        sh,
        verbose,
        "waiting for GitHub to compute mergeability for ",
        left,
        " PR(s) (attempt ",
        attempt + 1,
    );
    let next = poll_backoff_sleep(sh, delay);
    assert(sh.log() =~= told + settle_pause(verbose, left as nat, attempt as nat, delay));
    ask_rounds(sh, github, candidates, &still, total, next, attempt + 1, shown, verbose)
}

/// The places of the candidates that must be asked for anew, in order.
pub open spec fn unsettled_places(candidates: Seq<MergeCandidateView>) -> Seq<usize>
    decreases candidates.len(),
{
    if candidates.len() == 0 {
        seq![]
    } else if candidates.last().needs_settle {
        unsettled_places(candidates.drop_last()).push((candidates.len() - 1) as usize)
    } else {
        unsettled_places(candidates.drop_last())
    }
}

fn list_unsettled(candidates: &Vec<MergeCandidate>) -> (r: Vec<usize>)
    ensures
        r@ == unsettled_places(candidates.deep_view()),
        r@.len() <= candidates@.len(),
        forall|i: int| 0 <= i < r@.len() ==> r@[i] < candidates@.len(),
{
    let ghost all = candidates.deep_view();
    let mut places: Vec<usize> = Vec::new();
    let mut i: usize = 0;
    assert(all.take(0) =~= Seq::<MergeCandidateView>::empty());
    while i < candidates.len()
        invariant
            i <= candidates@.len(),
            all == candidates.deep_view(),
            places@ == unsettled_places(all.take(i as int)),
            places@.len() <= i,
            forall|k: int| 0 <= k < places@.len() ==> places@[k] < candidates@.len(),
        decreases candidates@.len() - i,
    {
        assert(all.take(i + 1).drop_last() =~= all.take(i as int));
        assert(all[i as int] == candidates@[i as int]@);
        if candidates[i].needs_settle {
            places.push(i);
        }
        i = i + 1;
    }
    assert(all.take(i as int) =~= all);
    places
}

pub open spec fn all_rounds_asked(
    before: Seq<Event>,
    after: Seq<Event>,
    repo: Seq<char>,
    candidates: Seq<MergeCandidateView>,
    diagnostics: Diagnostics,
    r: Result<Seq<MergeCandidateView>, Seq<CauseView>>,
) -> bool {
    let pending = unsettled_places(candidates);
    rounds_asked(
        before + ui::steps_said(
            diagnostics,
            "Settling"@,
            "mergeability"@,
            pending.len() as usize,
        ),
        after,
        repo,
        candidates,
        pending,
        pending.len(),
        0,
        diagnostics.shows_steps(pending.len()),
        diagnostics.verbose,
        r,
    )
}

/// The record from `before` to `after` holds how the candidates settle: those that need it are
/// fetched together, round by round, and the rest stay as they are.
pub open spec fn candidates_settled(
    before: Seq<Event>,
    after: Seq<Event>,
    repo: Seq<char>,
    candidates: Seq<MergeCandidateView>,
    diagnostics: Diagnostics,
    r: Result<Seq<MergeCandidateView>, Seq<CauseView>>,
) -> bool {
    exists|mid: Seq<Event>|
        {
            &&& #[trigger] all_rounds_asked(before, mid, repo, candidates, diagnostics, r)
            &&& after == mid + ui::steps_ended(
                diagnostics.shows_steps(unsettled_places(candidates).len()),
            )
        }
}

pub fn settle_candidates_mergeability<H: Host>(
    sh: &mut Shell<H>,
    github: &GitHubContext,
    candidates: &mut Vec<MergeCandidate>,
    diagnostics: Diagnostics,
) -> (r: Result<(), Error>)
    ensures
        record::extends(old(sh).log(), final(sh).log()),
        final(candidates)@.len() == old(candidates)@.len(),
        candidates_settled(
            old(sh).log(),
            final(sh).log(),
            github@.repo,
            old(candidates).deep_view(),
            diagnostics,
            rounds_parts(r, final(candidates).deep_view()),
        ),
{
    let ghost start = sh.log();
    let ghost all = candidates.deep_view();
    let pending = list_unsettled(candidates);
    let total: usize = pending.len();
    let shown = diagnostics.progress_bar(sh, "Settling", "mergeability", total);
    let r = ask_rounds(
        sh,
        github,
        candidates,
        &pending,
        total,
        POLL_INITIAL_DELAY_MS,
        0,
        shown,
        diagnostics.verbose,
    );
    assert(all_rounds_asked(
        start,
        sh.log(),
        github@.repo,
        all,
        diagnostics,
        rounds_parts(r, candidates.deep_view()),
    ));
    ui_finish_progress_bar(sh, shown);
    r
}

// ---------------------------------------------------------------------------
// The merge itself
// ---------------------------------------------------------------------------

pub open spec fn pr_state_args(repo: Seq<char>, number: u64) -> Seq<Seq<char>> {
    seq![
        "pr"@,
        "view"@,
        text::decimal(number as nat),
        "--repo"@,
        repo,
        "--json"@,
        "state"@,
        "--jq"@,
        ".state"@,
    ]
}

pub open spec fn merged_result(repo: Seq<char>, number: u64, reply: Reply) -> Result<
    bool,
    Seq<CauseView>,
> {
    match output::checked("gh"@, pr_state_args(repo, number), reply) {
        Ok(output) => Ok(text::lower_all(text::trim(output.stdout)) == text::lower_all("MERGED"@)),
        Err(e) => Err(e),
    }
}

pub fn pr_is_merged<H: Host>(sh: &mut Shell<H>, github: &GitHubContext, pr_number: u64) -> (r: Result<
    bool,
    Error,
>)
    ensures
        record::called(old(sh).log(), final(sh).log(), "gh"@, pr_state_args(github@.repo, pr_number)),
        error::res_of(r) == merged_result(github@.repo, pr_number, record::last_reply(final(sh).log())),
{
    let args = words(
        &[
            "pr",
            "view",
            &number_text(pr_number),
            "--repo",
            &github.repo,
            "--json",
            "state",
            "--jq",
            ".state",
        ],
    );
    assert(args.deep_view() =~= pr_state_args(github@.repo, pr_number));
    let reply = gh_run(sh, &args);
    match check_output("gh", &args, reply) {
        Ok(output) => Ok(same_ignoring_case(&trimmed(&output.stdout), "MERGED")),
        Err(error) => Err(error),
    }
}

/// GitHub answered that the pull request is merged.
pub open spec fn says_merged(repo: Seq<char>, number: u64, reply: Reply) -> bool {
    merged_result(repo, number, reply) == Ok::<bool, Seq<CauseView>>(true)
}

/// The record from `before` to `after` holds one question for each pending number; those that are not
/// known to be merged are left.
pub open spec fn merges_asked(
    before: Seq<Event>,
    after: Seq<Event>,
    repo: Seq<char>,
    pending: Seq<u64>,
    at: int,
    kept: Seq<u64>,
    left: Seq<u64>,
) -> bool
    decreases pending.len() - at,
{
    if at >= pending.len() {
        after == before && left == kept
    } else {
        exists|mid: Seq<Event>|
            {
                &&& #[trigger] record::called(before, mid, "gh"@, pr_state_args(repo, pending[at]))
                &&& merges_asked(
                    mid,
                    after,
                    repo,
                    pending,
                    at + 1,
                    if says_merged(repo, pending[at], record::last_reply(mid)) {
                        kept
                    } else {
                        kept.push(pending[at])
                    },
                    left,
                )
            }
    }
}

fn ask_merges<H: Host>(
    sh: &mut Shell<H>,
    github: &GitHubContext,
    pending: &Vec<u64>,
    at: usize,
    kept: Vec<u64>,
) -> (left: Vec<u64>)
    requires
        at <= pending@.len(),
        kept@.len() <= at,
    ensures
        record::extends(old(sh).log(), final(sh).log()),
        left@.len() <= pending@.len(),
        merges_asked(
            old(sh).log(),
            final(sh).log(),
            github@.repo,
            pending@,
            at as int,
            kept@,
            left@,
        ),
    decreases pending@.len() - at,
{
    let n: usize = pending.len();
    if at == n {
        return kept;
    }
    let number: u64 = pending[at];
    let merged = match pr_is_merged(sh, github, number) {
        Ok(merged) => merged,
        Err(_) => false,
    };
    assert(record::called(old(sh).log(), sh.log(), "gh"@, pr_state_args(github@.repo, pending@[at as int])));
    let mut kept = kept;
    if !merged {
        kept.push(number);
    }
    ask_merges(sh, github, pending, at + 1, kept)
}

pub open spec fn all_merges_asked(
    before: Seq<Event>,
    after: Seq<Event>,
    repo: Seq<char>,
    pending: Seq<u64>,
    left: Seq<u64>,
) -> bool {
    merges_asked(before, after, repo, pending, 0, seq![], left)
}

pub open spec fn verify_pause(verbose: bool, pending: nat, attempt: nat, delay: u64) -> Seq<Event> {
    waiting_said(
        verbose,
        "waiting for GitHub to mark "@,
        pending,
        " PR(s) merged (attempt "@,
        attempt + 1,
    ).push(Event::Paused(delay))
}

/// The record from `before` to `after` holds the rounds of questions, from the attempt with this
/// number on, until every pull request is merged or the attempts are used up.
pub open spec fn merges_polled(
    before: Seq<Event>,
    after: Seq<Event>,
    repo: Seq<char>,
    pending: Seq<u64>,
    total: nat,
    attempt: nat,
    shown: bool,
    verbose: bool,
    left: Seq<u64>,
) -> bool
    decreases POLL_MAX_ATTEMPTS - attempt,
{
    if attempt >= POLL_MAX_ATTEMPTS {
        after == before && left == pending
    } else {
        exists|mid: Seq<Event>, still: Seq<u64>|
            {
                &&& #[trigger] all_merges_asked(before, mid, repo, pending, still)
                &&& if still.len() == 0 {
                    after == mid + ui::step_said(shown, total as usize) && left == still
                } else {
                    merges_polled(
                        mid + ui::step_said(shown, (total - still.len()) as usize) + verify_pause(
                            verbose,
                            still.len(),
                            attempt,
                            delay_after(attempt),
                        ),
                        after,
                        repo,
                        still,
                        total,
                        attempt + 1,
                        shown,
                        verbose,
                        left,
                    )
                }
            }
    }
}

fn poll_merges<H: Host>(
    sh: &mut Shell<H>,
    github: &GitHubContext,
    pending: Vec<u64>,
    total: usize,
    delay: u64,
    attempt: usize,
    shown: bool,
    verbose: bool,
) -> (left: Vec<u64>)
    requires
        pending@.len() <= total,
        attempt <= POLL_MAX_ATTEMPTS,
        delay == delay_after(attempt as nat),
    ensures
        record::extends(old(sh).log(), final(sh).log()),
        merges_polled(
            old(sh).log(),
            final(sh).log(),
            github@.repo,
            pending@,
            total as nat,
            attempt as nat,
            shown,
            verbose,
            left@,
        ),
    decreases POLL_MAX_ATTEMPTS - attempt,
{
    if attempt >= POLL_MAX_ATTEMPTS {
        return pending;
    }
    let ghost start = sh.log();
    let none: Vec<u64> = Vec::new();
    assert(none@ =~= Seq::<u64>::empty());
    let still = ask_merges(sh, github, &pending, 0, none);
    let ghost mid = sh.log();
    assert(all_merges_asked(start, mid, github@.repo, pending@, still@));
    let n: usize = still.len();
    say_step(sh, shown, total - n);
    if n == 0 {
        return still;
    }
    let ghost told = sh.log();
    say_waiting(
        sh,
        verbose,
        "waiting for GitHub to mark ",
        n,
        " PR(s) merged (attempt ",
        attempt + 1,
    );
    let next = poll_backoff_sleep(sh, delay);
    assert(sh.log() =~= told + verify_pause(verbose, n as nat, attempt as nat, delay));
    poll_merges(sh, github, still, total, next, attempt + 1, shown, verbose)
}

pub open spec fn number_labels(numbers: Seq<u64>) -> Seq<Seq<char>> {
    numbers.map_values(|n: u64| "#"@ + text::decimal(n as nat))
}

fn number_label_texts(numbers: &Vec<u64>) -> (r: Vec<String>)
    ensures
        r.deep_view() == number_labels(numbers@),
{
    let mut labels: Vec<String> = Vec::new();
    let mut i: usize = 0;
    while i < numbers.len()
        invariant
            i <= numbers@.len(),
            labels.deep_view() == number_labels(numbers@).take(i as int),
        decreases numbers@.len() - i,
    {
        let ghost before = labels.deep_view();
        let label = cat("#", &number_text(numbers[i]));
        let ghost put = label@;
        labels.push(label);
        assert(labels.deep_view() =~= before.push(put));
        assert(number_labels(numbers@).take(i + 1) =~= number_labels(numbers@).take(i as int).push(
            put,
        ));
        i = i + 1;
    }
    assert(number_labels(numbers@).take(i as int) =~= number_labels(numbers@));
    labels
}

pub open spec fn unmerged(left: Seq<u64>) -> Seq<CauseView> {
    error::plain(
        "PRs not marked merged after push: "@ + text::join(number_labels(left), ", "@)
            + "; their head commits are in trunk but GitHub has not closed them"@,
    )
}

pub open spec fn all_merges_polled(
    before: Seq<Event>,
    after: Seq<Event>,
    repo: Seq<char>,
    numbers: Seq<u64>,
    diagnostics: Diagnostics,
    left: Seq<u64>,
) -> bool {
    merges_polled(
        before + ui::steps_said(diagnostics, "Verifying"@, "merged PRs"@, numbers.len() as usize),
        after,
        repo,
        numbers,
        numbers.len(),
        0,
        diagnostics.shows_steps(numbers.len()),
        diagnostics.verbose,
        left,
    )
}

/// The record from `before` to `after` holds how GitHub is asked until it has marked every pull
/// request as merged, and the failure that names those that it has not.
pub open spec fn merges_verified(
    before: Seq<Event>,
    after: Seq<Event>,
    repo: Seq<char>,
    numbers: Seq<u64>,
    diagnostics: Diagnostics,
    r: Result<(), Seq<CauseView>>,
) -> bool {
    exists|mid: Seq<Event>, left: Seq<u64>|
        {
            &&& #[trigger] all_merges_polled(before, mid, repo, numbers, diagnostics, left)
            &&& after == mid + ui::steps_ended(diagnostics.shows_steps(numbers.len()))
            &&& r == if left.len() == 0 {
                Ok::<(), Seq<CauseView>>(())
            } else {
                Err(unmerged(left))
            }
        }
}

pub fn verify_prs_merged<H: Host>(
    sh: &mut Shell<H>,
    github: &GitHubContext,
    pr_numbers: &Vec<u64>,
    diagnostics: Diagnostics,
) -> (r: Result<(), Error>)
    ensures
        record::extends(old(sh).log(), final(sh).log()),
        merges_verified(
            old(sh).log(),
            final(sh).log(),
            github@.repo,
            pr_numbers@,
            diagnostics,
            error::res_of(r),
        ),
{
    let ghost start = sh.log();
    let pending = copy_numbers(pr_numbers);
    let total: usize = pending.len();
    let shown = diagnostics.progress_bar(sh, "Verifying", "merged PRs", total);
    let left = poll_merges(
        sh,
        github,
        pending,
        total,
        POLL_INITIAL_DELAY_MS,
        0,
        shown,
        diagnostics.verbose,
    );
    assert(all_merges_polled(start, sh.log(), github@.repo, pr_numbers@, diagnostics, left@));
    ui_finish_progress_bar(sh, shown);
    if left.len() == 0 {
        return Ok(());
    }
    Err(
        fail(
            &cat3(
                "PRs not marked merged after push: ",
                &join_text(&number_label_texts(&left), ", "),
                "; their head commits are in trunk but GitHub has not closed them",
            ),
        ),
    )
}

// ---------------------------------------------------------------------------
// The law of verified merges
// ---------------------------------------------------------------------------

/// Among the meetings from `before` to `after`, GitHub answered that this pull request is merged.
pub open spec fn was_confirmed(
    before: Seq<Event>,
    after: Seq<Event>,
    repo: Seq<char>,
    number: u64,
) -> bool {
    exists|i: int|
        before.len() <= i < after.len() && record::is_call(
            #[trigger] after[i],
            "gh"@,
            pr_state_args(repo, number),
        ) && says_merged(repo, number, record::reply_of(after[i]))
}

proof fn lemma_confirmed_extends(
    before: Seq<Event>,
    start: Seq<Event>,
    mid: Seq<Event>,
    after: Seq<Event>,
    repo: Seq<char>,
    number: u64,
)
    requires
        was_confirmed(start, mid, repo, number),
        record::extends(before, start),
        record::extends(mid, after),
    ensures
        was_confirmed(before, after, repo, number),
{
    let i = choose|i: int|
        start.len() <= i < mid.len() && record::is_call(
            #[trigger] mid[i],
            "gh"@,
            pr_state_args(repo, number),
        ) && says_merged(repo, number, record::reply_of(mid[i]));
    assert(after.take(mid.len() as int)[i] == mid[i]);
    assert(after[i] == mid[i]);
}

proof fn lemma_merges_asked(
    before: Seq<Event>,
    after: Seq<Event>,
    repo: Seq<char>,
    pending: Seq<u64>,
    at: int,
    kept: Seq<u64>,
    left: Seq<u64>,
)
    requires
        0 <= at,
        merges_asked(before, after, repo, pending, at, kept, left),
    ensures
        record::extends(before, after),
        forall|n: u64| kept.contains(n) ==> left.contains(n),
        forall|i: int|
            at <= i < pending.len() ==> left.contains(#[trigger] pending[i]) || was_confirmed(
                before,
                after,
                repo,
                pending[i],
            ),
    decreases pending.len() - at,
{
    if at < pending.len() {
        let mid = choose|mid: Seq<Event>|
            {
                &&& #[trigger] record::called(before, mid, "gh"@, pr_state_args(repo, pending[at]))
                &&& merges_asked(
                    mid,
                    after,
                    repo,
                    pending,
                    at + 1,
                    if says_merged(repo, pending[at], record::last_reply(mid)) {
                        kept
                    } else {
                        kept.push(pending[at])
                    },
                    left,
                )
            };
        let next = if says_merged(repo, pending[at], record::last_reply(mid)) {
            kept
        } else {
            kept.push(pending[at])
        };
        lemma_merges_asked(mid, after, repo, pending, at + 1, next, left);
        assert forall|n: u64| kept.contains(n) implies left.contains(n) by {
            let k = kept.index_of(n);
            assert(next[k] == n);
            assert(next.contains(n));
        }
        assert forall|i: int| at <= i < pending.len() implies left.contains(#[trigger] pending[i])
            || was_confirmed(before, after, repo, pending[i]) by {
            if i == at {
                if says_merged(repo, pending[at], record::last_reply(mid)) {
                    assert(mid[before.len() as int] == mid.last());
                    assert(was_confirmed(before, mid, repo, pending[at]));
                    lemma_confirmed_extends(before, before, mid, after, repo, pending[at]);
                } else {
                    assert(next[kept.len() as int] == pending[at]);
                    assert(next.contains(pending[at]));
                }
            } else if !left.contains(pending[i]) {
                lemma_confirmed_extends(before, mid, after, after, repo, pending[i]);
            }
        }
    }
}

proof fn lemma_merges_polled(
    before: Seq<Event>,
    after: Seq<Event>,
    repo: Seq<char>,
    pending: Seq<u64>,
    total: nat,
    attempt: nat,
    shown: bool,
    verbose: bool,
    left: Seq<u64>,
)
    requires
        merges_polled(before, after, repo, pending, total, attempt, shown, verbose, left),
    ensures
        record::extends(before, after),
        forall|i: int|
            0 <= i < pending.len() ==> left.contains(#[trigger] pending[i]) || was_confirmed(
                before,
                after,
                repo,
                pending[i],
            ),
    decreases POLL_MAX_ATTEMPTS - attempt,
{
    if attempt < POLL_MAX_ATTEMPTS {
        let (mid, still) = choose|mid: Seq<Event>, still: Seq<u64>|
            {
                &&& #[trigger] all_merges_asked(before, mid, repo, pending, still)
                &&& if still.len() == 0 {
                    after == mid + ui::step_said(shown, total as usize) && left == still
                } else {
                    merges_polled(
                        mid + ui::step_said(shown, (total - still.len()) as usize) + verify_pause(
                            verbose,
                            still.len(),
                            attempt,
                            delay_after(attempt),
                        ),
                        after,
                        repo,
                        still,
                        total,
                        attempt + 1,
                        shown,
                        verbose,
                        left,
                    )
                }
            };
        lemma_merges_asked(before, mid, repo, pending, 0, seq![], still);
        let next = mid + ui::step_said(shown, (total - still.len()) as usize) + verify_pause(
            verbose,
            still.len(),
            attempt,
            delay_after(attempt),
        );
        let shown_to = mid + ui::step_said(shown, (total - still.len()) as usize);
        let pause = verify_pause(verbose, still.len(), attempt, delay_after(attempt));
        assert(record::extends(mid, shown_to));
        assert(next == shown_to + pause);
        assert(record::extends(shown_to, shown_to + pause));
        if still.len() > 0 {
            lemma_merges_polled(next, after, repo, still, total, attempt + 1, shown, verbose, left);
        }
        assert(record::extends(mid, after));
        assert forall|i: int| 0 <= i < pending.len() implies left.contains(#[trigger] pending[i])
            || was_confirmed(before, after, repo, pending[i]) by {
            let n = pending[i];
            if was_confirmed(before, mid, repo, n) {
                lemma_confirmed_extends(before, before, mid, after, repo, n);
            } else {
                assert(still.contains(n));
                let k = still.index_of(n);
                assert(still[k] == n);
                assert(left.contains(still[k]) || was_confirmed(next, after, repo, still[k]));
                if !left.contains(n) {
                    lemma_confirmed_extends(before, next, after, after, repo, n);
                }
            }
        }
    } else {
        assert forall|i: int| 0 <= i < pending.len() implies left.contains(
            #[trigger] pending[i],
        ) by {}
    }
}

/// The law of verified merges: a verification that succeeds has seen GitHub say of each of the pull
/// requests that it is merged.
pub proof fn law_verified_means_confirmed(
    before: Seq<Event>,
    after: Seq<Event>,
    repo: Seq<char>,
    numbers: Seq<u64>,
    diagnostics: Diagnostics,
)
    requires
        merges_verified(
            before,
            after,
            repo,
            numbers,
            diagnostics,
            Ok::<(), Seq<CauseView>>(()),
        ),
    ensures
        forall|i: int|
            0 <= i < numbers.len() ==> was_confirmed(before, after, repo, #[trigger] numbers[i]),
{
    let (mid, left) = choose|mid: Seq<Event>, left: Seq<u64>|
        {
            &&& #[trigger] all_merges_polled(before, mid, repo, numbers, diagnostics, left)
            &&& after == mid + ui::steps_ended(diagnostics.shows_steps(numbers.len()))
            &&& Ok::<(), Seq<CauseView>>(()) == if left.len() == 0 {
                Ok::<(), Seq<CauseView>>(())
            } else {
                Err(unmerged(left))
            }
        };
    let start = before + ui::steps_said(
        diagnostics,
        "Verifying"@,
        "merged PRs"@,
        numbers.len() as usize,
    );
    lemma_merges_polled(
        start,
        mid,
        repo,
        numbers,
        numbers.len(),
        0,
        diagnostics.shows_steps(numbers.len()),
        diagnostics.verbose,
        left,
    );
    assert forall|i: int| 0 <= i < numbers.len() implies was_confirmed(
        before,
        after,
        repo,
        #[trigger] numbers[i],
    ) by {
        lemma_confirmed_extends(before, start, mid, after, repo, numbers[i]);
    }
}

} // verus!
