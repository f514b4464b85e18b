//! Frozen dependencies: the pull requests of others that a stack is built on.

use vstd::prelude::*;

use crate::bookmarks;
use crate::bookmarks::{list_commit_ids, nearest_frozen_ancestors};
use crate::error;
use crate::error::{CauseView, CliError, CliErrorView, Error, fail, report};
use crate::model::{
    Duplicate, FrozenBookmark, FrozenBookmarkView, FrozenDependency, FrozenDependencyView,
    ResolvedChange, ResolvedChangeView, StackResolution, StackResolutionView,
};
use crate::record;
use crate::record::Event;
use crate::shell::Host;
use crate::shell::wire::Shell;
use crate::stack;
use crate::stack::{
    change_label, many_roots_error, resolve_stack, short_change_id, short_commit_id, stack_root,
    stack_roots,
};
use crate::text;
use crate::text::{cat3, cat5, join_text, number_text, same};

verus! {

broadcast use crate::record::group_record;

// ---------------------------------------------------------------------------
// The changes behind frozen bookmarks
// ---------------------------------------------------------------------------

pub open spec fn frozen_change_result(
    bookmark: FrozenBookmarkView,
    stack: Result<Seq<ResolvedChangeView>, Seq<CauseView>>,
) -> Result<FrozenDependencyView, Seq<CauseView>> {
    match stack {
        Err(e) => Err(error::in_context("resolve frozen bookmark `"@ + bookmark.name + "`"@, e)),
        Ok(changes) => if changes.len() != 1 {
            Err(
                error::reported(
                    error::cli(
                        "frozen bookmark `"@ + bookmark.name + "` resolved to "@ + text::decimal(
                            changes.len(),
                        ) + " changes, expected one"@,
                    ),
                ),
            )
        } else if changes[0].commit_id != bookmark.commit_id {
            Err(
                error::reported(
                    error::cli(
                        "frozen bookmark `"@ + bookmark.name + "` points at "@ + stack::short_id(
                            bookmark.commit_id,
                        ) + ", but jj resolved "@ + stack::short_id(changes[0].commit_id),
                    ),
                ),
            )
        } else if changes[0].conflict {
            Err(
                error::reported(
                    error::cli(
                        "frozen bookmark `"@ + bookmark.name + "` points at conflicted change "@
                            + stack::label_of(changes[0]),
                    ),
                ),
            )
        } else {
            Ok(FrozenDependencyView { bookmark, change: changes[0] })
        },
    }
}

fn check_frozen_change(bookmark: &FrozenBookmark, stack: Result<Vec<ResolvedChange>, Error>) -> (r:
    Result<FrozenDependency, Error>)
    ensures
        error::res(r) == frozen_change_result(bookmark@, error::res(stack)),
{
    let changes = match stack {
        Ok(changes) => changes,
        Err(error) => return Err(
            error.context(&cat3("resolve frozen bookmark `", &bookmark.name, "`")),
        ),
    };
    let ghost all = changes.deep_view();
    if changes.len() != 1 {
        return Err(
            report(
                CliError::new(
                    &cat5(
                        "frozen bookmark `",
                        &bookmark.name,
                        "` resolved to ",
                        &number_text(changes.len() as u64),
                        " changes, expected one",
                    ),
                ),
            ),
        );
    }
    assert(all[0] == changes@[0]@);
    if !same(&changes[0].commit_id, &bookmark.commit_id) {
        let mut message = cat5(
            "frozen bookmark `",
            &bookmark.name,
            "` points at ",
            &short_commit_id(&bookmark.commit_id),
            ", but jj resolved ",
        );
        message.append(&short_commit_id(&changes[0].commit_id));
        return Err(report(CliError::new(&message)));
    }
    if changes[0].conflict {
        let mut message = cat3(
            "frozen bookmark `",
            &bookmark.name,
            "` points at conflicted change ",
        );
        message.append(&change_label(&changes[0]));
        return Err(report(CliError::new(&message)));
    }
    Ok(FrozenDependency { bookmark: bookmark.copy(), change: changes[0].copy() })
}

/// The record from `before` to `after` holds the search for the changes behind these bookmarks, one
/// after the other up to the first failure; `done` are those found before.
pub open spec fn frozen_changes_resolved(
    before: Seq<Event>,
    after: Seq<Event>,
    done: Seq<FrozenDependencyView>,
    bookmarks: Seq<FrozenBookmarkView>,
    r: Result<Seq<FrozenDependencyView>, Seq<CauseView>>,
) -> bool
    decreases bookmarks.len(),
{
    if bookmarks.len() == 0 {
        after == before && r == Ok::<_, Seq<CauseView>>(done)
    } else {
        exists|mid: Seq<Event>, stack: Result<Seq<ResolvedChangeView>, Seq<CauseView>>|
            {
                &&& #[trigger] stack::stack_resolved(before, mid, bookmarks[0].commit_id, stack)
                &&& match frozen_change_result(bookmarks[0], stack) {
                    Err(e) => after == mid && r == Err::<Seq<FrozenDependencyView>, _>(e),
                    Ok(item) => frozen_changes_resolved(
                        mid,
                        after,
                        done.push(item),
                        bookmarks.drop_first(),
                        r,
                    ),
                }
            }
    }
}

fn resolve_frozen_from<H: Host>(
    sh: &mut Shell<H>,
    done: Vec<FrozenDependency>,
    bookmarks: &Vec<FrozenBookmark>,
    from: usize,
) -> (r: Result<Vec<FrozenDependency>, Error>)
    requires
        from <= bookmarks@.len(),
    ensures
        record::extends(old(sh).log(), final(sh).log()),
        frozen_changes_resolved(
            old(sh).log(),
            final(sh).log(),
            done.deep_view(),
            bookmarks.deep_view().skip(from as int),
            error::res(r),
        ),
    decreases bookmarks@.len() - from,
{
    let ghost rest = bookmarks.deep_view().skip(from as int);
    if from == bookmarks.len() {
        return Ok(done);
    }
    let ghost start = sh.log();
    let stack = resolve_stack(sh, &bookmarks[from].commit_id);
    let ghost seen = error::res(stack);
    assert(rest[0] == bookmarks@[from as int]@);
    assert(stack::stack_resolved(start, sh.log(), rest[0].commit_id, seen));
    match check_frozen_change(&bookmarks[from], stack) {
        Err(error) => Err(error),
        Ok(item) => {
            let mut more = done;
            more.push(item);
            assert(more.deep_view() =~= done.deep_view().push(item@));
            assert(rest.drop_first() =~= bookmarks.deep_view().skip(from + 1));
            resolve_frozen_from(sh, more, bookmarks, from + 1)
        },
    }
}

pub open spec fn all_frozen_resolved(
    before: Seq<Event>,
    after: Seq<Event>,
    bookmarks: Seq<FrozenBookmarkView>,
    r: Result<Seq<FrozenDependencyView>, Seq<CauseView>>,
) -> bool {
    frozen_changes_resolved(before, after, seq![], bookmarks, r)
}

pub fn resolve_frozen_changes<H: Host>(sh: &mut Shell<H>, bookmarks: &Vec<FrozenBookmark>) -> (r:
    Result<Vec<FrozenDependency>, Error>)
    ensures
        record::extends(old(sh).log(), final(sh).log()),
        all_frozen_resolved(old(sh).log(), final(sh).log(), bookmarks.deep_view(), error::res(r)),
{
    let none: Vec<FrozenDependency> = Vec::new();
    assert(none.deep_view() =~= seq![]);
    assert(bookmarks.deep_view().skip(0) =~= bookmarks.deep_view());
    resolve_frozen_from(sh, none, bookmarks, 0)
}

// ---------------------------------------------------------------------------
// Frozen dependencies by commit
// ---------------------------------------------------------------------------

pub open spec fn dep_commits(frozen: Seq<FrozenDependencyView>) -> Seq<Seq<char>> {
    frozen.map_values(|d: FrozenDependencyView| d.change.commit_id)
}

fn frozen_commit_ids(frozen: &Vec<FrozenDependency>) -> (r: Vec<String>)
    ensures
        r.deep_view() == dep_commits(frozen.deep_view()),
{
    let mut out: Vec<String> = Vec::new();
    let mut i: usize = 0;
    while i < frozen.len()
        invariant
            i <= frozen@.len(),
            out@.len() == i,
            forall|k: int| 0 <= k < i ==> (#[trigger] out@[k])@ == frozen@[k].change.commit_id@,
        decreases frozen@.len() - i,
    {
        out.push(frozen[i].change.commit_id.clone());
        i = i + 1;
    }
    assert(out.deep_view() =~= dep_commits(frozen.deep_view()));
    out
}

/// The first dependency at a commit.
pub open spec fn frozen_at(frozen: Seq<FrozenDependencyView>, commit: Seq<char>) -> Option<
    FrozenDependencyView,
>
    decreases frozen.len(),
{
    if frozen.len() == 0 {
        None
    } else if frozen[0].change.commit_id == commit {
        Some(frozen[0])
    } else {
        frozen_at(frozen.drop_first(), commit)
    }
}

/// The first of the first `n` dependencies at a commit.
fn find_frozen_before(frozen: &Vec<FrozenDependency>, n: usize, commit: &str) -> (r: Option<usize>)
    requires
        n <= frozen@.len(),
    ensures
        match r {
            Some(i) => i < n && frozen_at(frozen.deep_view().take(n as int), commit@) == Some(
                frozen@[i as int]@,
            ) && frozen@[i as int].change.commit_id@ == commit@,
            None => frozen_at(frozen.deep_view().take(n as int), commit@) is None,
        },
{
    let ghost all = frozen.deep_view().take(n as int);
    let mut i: usize = 0;
    assert(all.skip(0) =~= all);
    while i < n
        invariant
            i <= n <= frozen@.len(),
            all == frozen.deep_view().take(n as int),
            frozen_at(all, commit@) == frozen_at(all.skip(i as int), commit@),
        decreases n - i,
    {
        assert(all.skip(i as int)[0] == frozen@[i as int]@);
        assert(all.skip(i as int).drop_first() =~= all.skip(i + 1));
        if same(&frozen[i].change.commit_id, commit) {
            return Some(i);
        }
        i = i + 1;
    }
    None
}

fn find_frozen_at(frozen: &Vec<FrozenDependency>, commit: &str) -> (r: Option<usize>)
    ensures
        match r {
            Some(i) => i < frozen@.len() && frozen_at(frozen.deep_view(), commit@) == Some(
                frozen@[i as int]@,
            ) && frozen@[i as int].change.commit_id@ == commit@,
            None => frozen_at(frozen.deep_view(), commit@) is None,
        },
{
    assert(frozen.deep_view().take(frozen@.len() as int) =~= frozen.deep_view());
    find_frozen_before(frozen, frozen.len(), commit)
}

/// The failure if a dependency from number `i` on lies at the commit of an earlier one.
pub open spec fn twin_failure_from(frozen: Seq<FrozenDependencyView>, i: int) -> Option<
    CliErrorView,
>
    decreases frozen.len() - i,
{
    if i < 0 || i >= frozen.len() {
        None
    } else {
        match frozen_at(frozen.take(i), frozen[i].change.commit_id) {
            Some(existing) => Some(
                error::cli(
                    "multiple frozen bookmarks point at commit "@ + stack::short_id(
                        frozen[i].change.commit_id,
                    ) + ": `"@ + existing.bookmark.name + "` and `"@ + frozen[i].bookmark.name
                        + "`"@,
                ),
            ),
            None => twin_failure_from(frozen, i + 1),
        }
    }
}

/// The failure if two frozen bookmarks point at one commit.
pub open spec fn twin_failure(frozen: Seq<FrozenDependencyView>) -> Option<CliErrorView> {
    twin_failure_from(frozen, 0)
}

/// Refuses two frozen bookmarks on one commit.
pub fn frozen_by_commit(frozen: &Vec<FrozenDependency>) -> (r: Result<(), Error>)
    ensures
        error::res_of(r) == match twin_failure(frozen.deep_view()) {
            Some(error) => Err(error::reported(error)),
            None => Ok(()),
        },
{
    let ghost all = frozen.deep_view();
    let mut i: usize = 0;
    while i < frozen.len()
        invariant
            i <= frozen@.len(),
            all == frozen.deep_view(),
            twin_failure(all) == twin_failure_from(all, i as int),
        decreases frozen@.len() - i,
    {
        assert(all[i as int] == frozen@[i as int]@);
        if let Some(j) = find_frozen_before(frozen, i, &frozen[i].change.commit_id) {
            let mut message = cat5(
                "multiple frozen bookmarks point at commit ",
                &short_commit_id(&frozen[i].change.commit_id),
                ": `",
                &frozen[j].bookmark.name,
                "` and `",
            );
            message.append(&frozen[i].bookmark.name);
            message.append("`");
            return Err(report(CliError::new(&message)));
        }
        i = i + 1;
    }
    Ok(())
}

// ---------------------------------------------------------------------------
// Chains of frozen dependencies
// ---------------------------------------------------------------------------

pub open spec fn frozen_label(d: FrozenDependencyView) -> Seq<char> {
    "`"@ + d.bookmark.name + "` at "@ + stack::label_of(d.change)
}

/// The labels of the dependencies at these commits.
pub open spec fn frozen_labels(frozen: Seq<FrozenDependencyView>, commits: Seq<Seq<char>>) -> Seq<
    Seq<char>,
>
    decreases commits.len(),
{
    if commits.len() == 0 {
        seq![]
    } else {
        let rest = frozen_labels(frozen, commits.drop_last());
        match frozen_at(frozen, commits.last()) {
            Some(d) => rest.push(frozen_label(d)),
            None => rest,
        }
    }
}

fn labels_at(frozen: &Vec<FrozenDependency>, commits: &Vec<String>) -> (r: Vec<String>)
    ensures
        r.deep_view() == frozen_labels(frozen.deep_view(), commits.deep_view()),
{
    let ghost all = commits.deep_view();
    let mut out: Vec<String> = Vec::new();
    let mut i: usize = 0;
    assert(out.deep_view() =~= frozen_labels(frozen.deep_view(), all.take(0)));
    while i < commits.len()
        invariant
            i <= commits@.len(),
            all == commits.deep_view(),
            out.deep_view() == frozen_labels(frozen.deep_view(), all.take(i as int)),
        decreases commits@.len() - i,
    {
        let ghost next = all.take(i + 1);
        let ghost before = out.deep_view();
        assert(next.drop_last() =~= all.take(i as int));
        assert(next.last() == commits@[i as int]@);
        if let Some(j) = find_frozen_at(frozen, &commits[i]) {
            let mut label = cat3("`", &frozen[j].bookmark.name, "` at ");
            label.append(&change_label(&frozen[j].change));
            out.push(label);
            assert(out.deep_view() =~= before.push(frozen_label(frozen@[j as int]@)));
        }
        i = i + 1;
    }
    assert(all.take(i as int) =~= all);
    out
}

/// The record from `before` to `after` holds the walk down from `current`, one question for the
/// nearest frozen ancestors at each step; `above` are the dependencies walked already, from the top.
pub open spec fn chain_walked(
    before: Seq<Event>,
    after: Seq<Event>,
    frozen: Seq<FrozenDependencyView>,
    current: FrozenDependencyView,
    above: Seq<FrozenDependencyView>,
    r: Result<Seq<FrozenDependencyView>, Seq<CauseView>>,
) -> bool
    decreases frozen.len() + 1 - above.len(),
{
    if above.len() > frozen.len() {
        false
    } else if dep_commits(above).contains(current.change.commit_id) {
        &&& after == before
        &&& r == Err::<Seq<FrozenDependencyView>, _>(
            error::reported(
                error::cli(
                    "frozen dependency graph has a cycle at bookmark `"@ + current.bookmark.name
                        + "`"@,
                ),
            ),
        )
    } else {
        let revset = bookmarks::nearest_revset(dep_commits(frozen), current.change.commit_id);
        let walked = above.push(current);
        exists|mid: Seq<Event>|
            {
                &&& #[trigger] record::called(before, mid, "jj"@, bookmarks::listed_args(revset))
                &&& match bookmarks::listed_commits(revset, record::last_reply(mid)) {
                    Err(e) => after == mid && r == Err::<Seq<FrozenDependencyView>, _>(e),
                    Ok(below) => if below.len() == 0 {
                        after == mid && r == Ok::<_, Seq<CauseView>>(walked.reverse())
                    } else if below.len() == 1 {
                        match frozen_at(frozen, below[0]) {
                            None => after == mid && r == Err::<Seq<FrozenDependencyView>, _>(
                                error::plain(
                                    "frozen ancestor "@ + stack::short_id(below[0])
                                        + " missing from dependency set"@,
                                ),
                            ),
                            Some(next) => chain_walked(mid, after, frozen, next, walked, r),
                        }
                    } else {
                        after == mid && r == Err::<Seq<FrozenDependencyView>, _>(
                            error::reported(
                                error::cli(
                                    "frozen bookmark `"@ + current.bookmark.name + "` has "@
                                        + text::decimal(below.len())
                                        + " frozen ancestors, expected a linear chain"@,
                                ).because(text::join(frozen_labels(frozen, below), ", "@)),
                            ),
                        )
                    },
                }
            }
    }
}

/// A chain of frozen dependencies, none at the commit of another, all of them known.
pub open spec fn is_chain(
    chain: Seq<FrozenDependencyView>,
    frozen: Seq<FrozenDependencyView>,
) -> bool {
    &&& dep_commits(chain).no_duplicates()
    &&& forall|i: int|
        0 <= i < chain.len() ==> dep_commits(frozen).contains(
            (#[trigger] chain[i]).change.commit_id,
        )
}

proof fn lemma_chain_len(chain: Seq<FrozenDependencyView>, frozen: Seq<FrozenDependencyView>)
    requires
        is_chain(chain, frozen),
    ensures
        chain.len() <= frozen.len(),
{
    let own = dep_commits(chain);
    let all = dep_commits(frozen);
    own.unique_seq_to_set();
    assert(own.to_set().subset_of(all.to_set())) by {
        assert forall|x: Seq<char>| own.to_set().contains(x) implies all.to_set().contains(x) by {
            let i = choose|i: int| 0 <= i < own.len() && own[i] == x;
            assert(chain[i].change.commit_id == x);
        }
    }
    vstd::seq_lib::seq_to_set_is_finite(all);
    vstd::set_lib::lemma_len_subset(own.to_set(), all.to_set());
    all.lemma_cardinality_of_set();
}

proof fn lemma_chain_push(
    chain: Seq<FrozenDependencyView>,
    next: FrozenDependencyView,
    frozen: Seq<FrozenDependencyView>,
)
    requires
        is_chain(chain, frozen),
        !dep_commits(chain).contains(next.change.commit_id),
        dep_commits(frozen).contains(next.change.commit_id),
    ensures
        is_chain(chain.push(next), frozen),
{
    let longer = chain.push(next);
    assert(dep_commits(longer) =~= dep_commits(chain).push(next.change.commit_id));
    assert forall|i: int, j: int|
        0 <= i < longer.len() && 0 <= j < longer.len() && i != j implies dep_commits(longer)[i]
        != dep_commits(longer)[j] by {
        if i < chain.len() && j < chain.len() {
        } else if i < chain.len() {
            assert(dep_commits(chain)[i] == dep_commits(longer)[i]);
        } else {
            assert(dep_commits(chain)[j] == dep_commits(longer)[j]);
        }
    }
    assert forall|i: int| 0 <= i < longer.len() implies dep_commits(frozen).contains(
        (#[trigger] longer[i]).change.commit_id,
    ) by {
        if i < chain.len() {
            assert(longer[i] == chain[i]);
        }
    }
}

proof fn lemma_chain_reverse(chain: Seq<FrozenDependencyView>, frozen: Seq<FrozenDependencyView>)
    requires
        is_chain(chain, frozen),
    ensures
        is_chain(chain.reverse(), frozen),
{
    let back = chain.reverse();
    assert forall|i: int, j: int| 0 <= i < back.len() && 0 <= j < back.len() && i
        != j implies dep_commits(back)[i] != dep_commits(back)[j] by {
        let a = chain.len() - 1 - i;
        let b = chain.len() - 1 - j;
        assert(dep_commits(back)[i] == dep_commits(chain)[a]);
        assert(dep_commits(back)[j] == dep_commits(chain)[b]);
    }
    assert forall|i: int| 0 <= i < back.len() implies dep_commits(frozen).contains(
        (#[trigger] back[i]).change.commit_id,
    ) by {
        assert(back[i] == chain[chain.len() - 1 - i]);
    }
}

fn reversed(items: &Vec<FrozenDependency>) -> (r: Vec<FrozenDependency>)
    ensures
        r.deep_view() == items.deep_view().reverse(),
{
    let mut out: Vec<FrozenDependency> = Vec::new();
    let mut i: usize = items.len();
    while i > 0
        invariant
            i <= items@.len(),
            out@.len() == items@.len() - i,
            forall|k: int|
                0 <= k < out@.len() ==> (#[trigger] out@[k])@ == items@[items@.len() - 1 - k]@,
        decreases i,
    {
        i = i - 1;
        out.push(items[i].copy());
    }
    assert(out.deep_view() =~= items.deep_view().reverse());
    out
}

fn walk_chain<H: Host>(
    sh: &mut Shell<H>,
    frozen: &Vec<FrozenDependency>,
    commits: &Vec<String>,
    at: usize,
    above: Vec<FrozenDependency>,
) -> (r: Result<Vec<FrozenDependency>, Error>)
    requires
        at < frozen@.len(),
        commits.deep_view() == dep_commits(frozen.deep_view()),
        is_chain(above.deep_view(), frozen.deep_view()),
    ensures
        record::extends(old(sh).log(), final(sh).log()),
        chain_walked(
            old(sh).log(),
            final(sh).log(),
            frozen.deep_view(),
            frozen@[at as int]@,
            above.deep_view(),
            error::res(r),
        ),
        r matches Ok(chain) ==> {
            &&& is_chain(chain.deep_view(), frozen.deep_view())
            &&& chain@.len() > 0
            &&& chain.deep_view().last() == above.deep_view().push(frozen@[at as int]@)[0]
        },
    decreases frozen@.len() - above@.len(),
{
    let ghost all = frozen.deep_view();
    let ghost up = above.deep_view();
    let ghost current = frozen@[at as int]@;
    proof {
        lemma_chain_len(up, all);
    }
    assert(all[at as int] == current);
    let seen = find_frozen_at(&above, &frozen[at].change.commit_id);
    proof {
        lemma_frozen_at_contains(up, current.change.commit_id);
    }
    if seen.is_some() {
        return Err(
            report(
                CliError::new(
                    &cat3(
                        "frozen dependency graph has a cycle at bookmark `",
                        &frozen[at].bookmark.name,
                        "`",
                    ),
                ),
            ),
        );
    }
    let mut walked = above;
    walked.push(frozen[at].copy());
    let ghost down = walked.deep_view();
    assert(down =~= up.push(current));
    proof {
        assert(dep_commits(all)[at as int] == current.change.commit_id);
        lemma_chain_push(up, current, all);
        lemma_chain_len(down, all);
    }
    let ghost start = sh.log();
    let ghost revset = bookmarks::nearest_revset(dep_commits(all), current.change.commit_id);
    let found = nearest_frozen_ancestors(sh, commits, &frozen[at].change.commit_id);
    let ghost mid = sh.log();
    assert(record::called(start, mid, "jj"@, bookmarks::listed_args(revset)));
    let below = match found {
        Ok(below) => below,
        Err(error) => return Err(error),
    };
    if below.len() == 0 {
        proof {
            lemma_chain_reverse(down, all);
            assert(down.reverse().last() == down[0]);
        }
        return Ok(reversed(&walked));
    }
    if below.len() == 1 {
        assert(below.deep_view()[0] == below@[0]@);
        return match find_frozen_at(frozen, &below[0]) {
            None => Err(
                fail(
                    &cat3(
                        "frozen ancestor ",
                        &short_commit_id(&below[0]),
                        " missing from dependency set",
                    ),
                ),
            ),
            Some(next) => {
                let r = walk_chain(sh, frozen, commits, next, walked);
                assert(down.push(frozen@[next as int]@)[0] == up.push(current)[0]);
                r
            },
        };
    }
    Err(
        report(
            CliError::new(
                &cat5(
                    "frozen bookmark `",
                    &frozen[at].bookmark.name,
                    "` has ",
                    &number_text(below.len() as u64),
                    " frozen ancestors, expected a linear chain",
                ),
            ).reason(&join_text(&labels_at(frozen, &below), ", ")),
        ),
    )
}

proof fn lemma_frozen_at_contains(frozen: Seq<FrozenDependencyView>, commit: Seq<char>)
    ensures
        frozen_at(frozen, commit) is Some == dep_commits(frozen).contains(commit),
        frozen_at(frozen, commit) is Some ==> frozen_at(frozen, commit)->0.change.commit_id
            == commit,
    decreases frozen.len(),
{
    let all = dep_commits(frozen);
    if frozen.len() > 0 {
        let rest = frozen.drop_first();
        lemma_frozen_at_contains(rest, commit);
        assert(all.len() == frozen.len());
        if frozen[0].change.commit_id == commit {
            assert(all[0] == commit);
        } else {
            if dep_commits(rest).contains(commit) {
                let k = choose|k: int|
                    0 <= k < dep_commits(rest).len() && dep_commits(rest)[k] == commit;
                assert(all[k + 1] == commit);
            }
            if all.contains(commit) {
                let k = choose|k: int| 0 <= k < all.len() && all[k] == commit;
                assert(dep_commits(rest)[k - 1] == commit);
            }
        }
    }
}

/// The record from `before` to `after` holds the search for the chain whose top is at a commit.
pub open spec fn chain_searched(
    before: Seq<Event>,
    after: Seq<Event>,
    frozen: Seq<FrozenDependencyView>,
    top: Seq<char>,
    r: Result<Option<Seq<FrozenDependencyView>>, Seq<CauseView>>,
) -> bool {
    match twin_failure(frozen) {
        Some(error) => after == before && r == Err::<Option<Seq<FrozenDependencyView>>, _>(
            error::reported(error),
        ),
        None => match frozen_at(frozen, top) {
            None => after == before && r == Ok::<_, Seq<CauseView>>(
                None::<Seq<FrozenDependencyView>>,
            ),
            Some(first) => match r {
                Ok(None) => false,
                Ok(Some(chain)) => chain_walked(before, after, frozen, first, seq![], Ok(chain)),
                Err(e) => chain_walked(before, after, frozen, first, seq![], Err(e)),
            },
        },
    }
}

/// The chain of frozen dependencies from the bottom up to the one at `top_commit`, or `None` if there
/// is none at that commit.
pub fn frozen_dependency_chain_ending_at<H: Host>(
    sh: &mut Shell<H>,
    frozen: &Vec<FrozenDependency>,
    top_commit: &str,
) -> (r: Result<Option<Vec<FrozenDependency>>, Error>)
    ensures
        record::extends(old(sh).log(), final(sh).log()),
        chain_searched(
            old(sh).log(),
            final(sh).log(),
            frozen.deep_view(),
            top_commit@,
            error::res(r),
        ),
        r matches Ok(Some(chain)) ==> {
            &&& is_chain(chain.deep_view(), frozen.deep_view())
            &&& chain@.len() > 0
            &&& chain.deep_view().last().change.commit_id == top_commit@
        },
{
    match frozen_by_commit(frozen) {
        Ok(_) => {},
        Err(error) => return Err(error),
    }
    let at = match find_frozen_at(frozen, top_commit) {
        Some(at) => at,
        None => return Ok(None),
    };
    let commits = frozen_commit_ids(frozen);
    let none: Vec<FrozenDependency> = Vec::new();
    assert(none.deep_view() =~= seq![]);
    match walk_chain(sh, frozen, &commits, at, none) {
        Ok(chain) => Ok(Some(chain)),
        Err(error) => Err(error),
    }
}

// ---------------------------------------------------------------------------
// The frozen dependencies of an owned stack
// ---------------------------------------------------------------------------

/// The record from `before` to `after` holds the search for the frozen dependencies below an owned
/// stack.
pub open spec fn below_owned_searched(
    before: Seq<Event>,
    after: Seq<Event>,
    owned: Seq<ResolvedChangeView>,
    frozen: Seq<FrozenDependencyView>,
    r: Result<Seq<FrozenDependencyView>, Seq<CauseView>>,
) -> bool {
    if owned.len() == 0 || frozen.len() == 0 {
        after == before && r == Ok::<_, Seq<CauseView>>(Seq::<FrozenDependencyView>::empty())
    } else {
        match twin_failure(frozen) {
            Some(error) => after == before && r == Err::<Seq<FrozenDependencyView>, _>(
                error::reported(error),
            ),
            None => if stack::roots_of(owned).len() != 1 {
                after == before && r == Err::<Seq<FrozenDependencyView>, _>(
                    error::reported(stack::many_roots(stack::roots_of(owned))),
                )
            } else {
                let root = stack::roots_of(owned)[0];
                let revset = bookmarks::nearest_revset(dep_commits(frozen), root.commit_id);
                exists|mid: Seq<Event>|
                    {
                        &&& #[trigger] record::called(before, mid, "jj"@, bookmarks::listed_args(revset))
                        &&& match bookmarks::listed_commits(revset, record::last_reply(mid)) {
                            Err(e) => after == mid && r == Err::<Seq<FrozenDependencyView>, _>(e),
                            Ok(nearest) => if nearest.len() == 0 {
                                after == mid && r == Ok::<_, Seq<CauseView>>(
                                    Seq::<FrozenDependencyView>::empty(),
                                )
                            } else if nearest.len() == 1 {
                                exists|
                                    found: Result<
                                        Option<Seq<FrozenDependencyView>>,
                                        Seq<CauseView>,
                                    >,
                                |
                                    {
                                        &&& #[trigger] chain_searched(
                                            mid,
                                            after,
                                            frozen,
                                            nearest[0],
                                            found,
                                        )
                                        &&& r == match found {
                                            Err(e) => Err(e),
                                            Ok(Some(chain)) => Ok(chain),
                                            Ok(None) => Err(
                                                error::plain(
                                                    "frozen boundary "@ + stack::short_id(nearest[0])
                                                        + " resolved no dependency chain"@,
                                                ),
                                            ),
                                        }
                                    }
                            } else {
                                after == mid && r == Err::<Seq<FrozenDependencyView>, _>(
                                    error::reported(
                                        error::cli(
                                            "multiple frozen boundaries below owned root "@
                                                + stack::short_id(root.change_id) + " ("@ + text::decimal(
                                                nearest.len(),
                                            ) + ")"@,
                                        ).because(
                                            text::join(frozen_labels(frozen, nearest), ", "@),
                                        ).fixed_by(
                                            "run `forklift sync` from a single linear stack"@,
                                        ),
                                    ),
                                )
                            },
                        }
                    }
            },
        }
    }
}

/// The frozen dependencies that an owned stack stands on, bottom first.
pub fn frozen_dependencies_below_owned<H: Host>(
    sh: &mut Shell<H>,
    owned: &Vec<ResolvedChange>,
    frozen: &Vec<FrozenDependency>,
) -> (r: Result<Vec<FrozenDependency>, Error>)
    ensures
        record::extends(old(sh).log(), final(sh).log()),
        below_owned_searched(
            old(sh).log(),
            final(sh).log(),
            owned.deep_view(),
            frozen.deep_view(),
            error::res(r),
        ),
        r matches Ok(chain) ==> is_chain(chain.deep_view(), frozen.deep_view()),
{
    let none: Vec<FrozenDependency> = Vec::new();
    assert(none.deep_view() =~= Seq::<FrozenDependencyView>::empty());
    if owned.len() == 0 || frozen.len() == 0 {
        return Ok(none);
    }
    match frozen_by_commit(frozen) {
        Ok(_) => {},
        Err(error) => return Err(error),
    }
    let roots = stack_roots(owned);
    if roots.len() != 1 {
        return Err(report(many_roots_error(&roots)));
    }
    assert(roots.deep_view()[0] == roots@[0]@);
    let ghost start = sh.log();
    let ghost revset = bookmarks::nearest_revset(dep_commits(frozen.deep_view()), roots@[0].commit_id@);
    let commits = frozen_commit_ids(frozen);
    let found = nearest_frozen_ancestors(sh, &commits, &roots[0].commit_id);
    let ghost mid = sh.log();
    assert(record::called(start, mid, "jj"@, bookmarks::listed_args(revset)));
    let nearest = match found {
        Ok(nearest) => nearest,
        Err(error) => return Err(error),
    };
    if nearest.len() == 0 {
        return Ok(none);
    }
    if nearest.len() == 1 {
        assert(nearest.deep_view()[0] == nearest@[0]@);
        let found = frozen_dependency_chain_ending_at(sh, frozen, &nearest[0]);
        let ghost seen = error::res(found);
        assert(chain_searched(mid, sh.log(), frozen.deep_view(), nearest.deep_view()[0], seen));
        return match found {
            Err(error) => Err(error),
            Ok(Some(chain)) => Ok(chain),
            Ok(None) => Err(
                fail(
                    &cat3(
                        "frozen boundary ",
                        &short_commit_id(&nearest[0]),
                        " resolved no dependency chain",
                    ),
                ),
            ),
        };
    }
    Err(
        report(
            CliError::new(
                &cat5(
                    "multiple frozen boundaries below owned root ",
                    &short_change_id(&roots[0].change_id),
                    " (",
                    &number_text(nearest.len() as u64),
                    ")",
                ),
            ).reason(&join_text(&labels_at(frozen, &nearest), ", ")).resolution(
                "run `forklift sync` from a single linear stack",
            ),
        ),
    )
}

// ---------------------------------------------------------------------------
// The base of an owned stack
// ---------------------------------------------------------------------------

/// The non-empty commits below a root that are not in trunk.
pub open spec fn unmerged_below_revset(root: Seq<char>) -> Seq<char> {
    "(::"@ + root + " ~ ::trunk() ~ "@ + root + ") & ~empty()"@
}

pub open spec fn unmerged_base(root: ResolvedChangeView, parent: Seq<char>) -> CliErrorView {
    error::cli(
        "owned stack root "@ + stack::label_of(root) + " is based on un-merged commit "@ + stack::short_id(parent)
            + " which is not a frozen dependency; forklift would otherwise silently base the bottom PR on trunk and drop the intervening un-merged commits"@,
    ).fixed_by(
        "run `forklift get <pr>` to depend on its PR, or rebase onto trunk if it has already merged"@,
    )
}

/// The record from `before` to `after` holds the check that an owned stack without frozen
/// dependencies stands on trunk.
pub open spec fn base_checked(
    before: Seq<Event>,
    after: Seq<Event>,
    resolution: StackResolutionView,
    r: Result<(), Seq<CauseView>>,
) -> bool {
    if resolution.owned.len() == 0 || resolution.frozen_dependencies.len() > 0 {
        after == before && r == Ok::<(), Seq<CauseView>>(())
    } else {
        match stack::root_result(resolution.owned) {
            Err(e) => after == before && r == Err::<(), _>(e),
            Ok(root) => {
                let revset = unmerged_below_revset(root.commit_id);
                &&& record::called(before, after, "jj"@, bookmarks::listed_args(revset))
                &&& r == match bookmarks::listed_commits(revset, record::last_reply(after)) {
                    Err(e) => Err(
                        error::in_context(
                            "inspect ancestry below owned stack root for un-merged commits"@,
                            e,
                        ),
                    ),
                    Ok(commits) => if commits.len() > 0 {
                        Err(error::reported(unmerged_base(root, commits[0])))
                    } else {
                        Ok(())
                    },
                }
            },
        }
    }
}

/// Refuses an owned stack whose root stands on a commit that is neither in trunk nor frozen: submit
/// would open the bottom pull request against trunk, and sync would drop the commits between.
pub fn validate_owned_base<H: Host>(sh: &mut Shell<H>, resolution: &StackResolution) -> (r: Result<
    (),
    Error,
>)
    ensures
        record::extends(old(sh).log(), final(sh).log()),
        base_checked(old(sh).log(), final(sh).log(), resolution@, error::res_of(r)),
{
    if resolution.owned.len() == 0 || resolution.frozen_dependencies.len() > 0 {
        return Ok(());
    }
    let root = match stack_root(&resolution.owned) {
        Ok(root) => root,
        Err(error) => return Err(error),
    };
    let revset = cat5(
        "(::",
        &root.commit_id,
        " ~ ::trunk() ~ ",
        &root.commit_id,
        ") & ~empty()",
    );
    let commits = match list_commit_ids(sh, &revset) {
        Ok(commits) => commits,
        Err(error) => return Err(
            error.context("inspect ancestry below owned stack root for un-merged commits"),
        ),
    };
    if commits.len() > 0 {
        assert(commits.deep_view()[0] == commits@[0]@);
        return Err(
            report(
                CliError::new(
                    &cat5(
                        "owned stack root ",
                        &change_label(&root),
                        " is based on un-merged commit ",
                        &short_commit_id(&commits[0]),
                        " which is not a frozen dependency; forklift would otherwise silently base the bottom PR on trunk and drop the intervening un-merged commits",
                    ),
                ).resolution(
                    "run `forklift get <pr>` to depend on its PR, or rebase onto trunk if it has already merged",
                ),
            ),
        );
    }
    Ok(())
}

// ---------------------------------------------------------------------------
// Putting a stack together
// ---------------------------------------------------------------------------

/// The record from `before` to `after` holds the search for the frozen dependencies of an owned stack
/// among these bookmarks.
pub open spec fn dependencies_searched(
    before: Seq<Event>,
    after: Seq<Event>,
    owned: Seq<ResolvedChangeView>,
    bookmarks: Seq<FrozenBookmarkView>,
    r: Result<Seq<FrozenDependencyView>, Seq<CauseView>>,
) -> bool {
    if bookmarks.len() == 0 {
        after == before && r == Ok::<_, Seq<CauseView>>(Seq::<FrozenDependencyView>::empty())
    } else {
        exists|mid: Seq<Event>, frozen: Result<Seq<FrozenDependencyView>, Seq<CauseView>>|
            {
                &&& #[trigger] all_frozen_resolved(before, mid, bookmarks, frozen)
                &&& match frozen {
                    Err(e) => after == mid && r == Err::<Seq<FrozenDependencyView>, _>(e),
                    Ok(frozen) => below_owned_searched(mid, after, owned, frozen, r),
                }
            }
    }
}

fn search_dependencies<H: Host>(
    sh: &mut Shell<H>,
    owned: &Vec<ResolvedChange>,
    bookmarks: &Vec<FrozenBookmark>,
) -> (r: Result<Vec<FrozenDependency>, Error>)
    ensures
        record::extends(old(sh).log(), final(sh).log()),
        dependencies_searched(
            old(sh).log(),
            final(sh).log(),
            owned.deep_view(),
            bookmarks.deep_view(),
            error::res(r),
        ),
        r matches Ok(chain) ==> dep_commits(chain.deep_view()).no_duplicates(),
{
    if bookmarks.len() == 0 {
        let none: Vec<FrozenDependency> = Vec::new();
        assert(none.deep_view() =~= Seq::<FrozenDependencyView>::empty());
        return Ok(none);
    }
    let ghost start = sh.log();
    let found = resolve_frozen_changes(sh, bookmarks);
    let ghost seen = error::res(found);
    assert(all_frozen_resolved(start, sh.log(), bookmarks.deep_view(), seen));
    match found {
        Err(error) => Err(error),
        Ok(frozen) => frozen_dependencies_below_owned(sh, owned, &frozen),
    }
}

/// The record from `before` to `after` holds how an owned stack is put together with its frozen
/// dependencies and its base is checked.
pub open spec fn resolution_made(
    before: Seq<Event>,
    after: Seq<Event>,
    owned: Seq<ResolvedChangeView>,
    bookmarks: Seq<FrozenBookmarkView>,
    r: Result<StackResolutionView, Seq<CauseView>>,
) -> bool {
    exists|mid: Seq<Event>, found: Result<Seq<FrozenDependencyView>, Seq<CauseView>>|
        {
            &&& #[trigger] dependencies_searched(before, mid, owned, bookmarks, found)
            &&& match found {
                Err(e) => after == mid && r == Err::<StackResolutionView, _>(e),
                Ok(frozen_dependencies) => {
                    let made = StackResolutionView { owned, frozen_dependencies };
                    match r {
                        Ok(resolution) => resolution == made && base_checked(
                            mid,
                            after,
                            made,
                            Ok(()),
                        ),
                        Err(e) => base_checked(mid, after, made, Err(e)),
                    }
                },
            }
        }
}

pub fn resolve_stack_resolution<H: Host>(
    sh: &mut Shell<H>,
    owned: Vec<ResolvedChange>,
    frozen_bookmarks: &Vec<FrozenBookmark>,
) -> (r: Result<StackResolution, Error>)
    ensures
        record::extends(old(sh).log(), final(sh).log()),
        resolution_made(
            old(sh).log(),
            final(sh).log(),
            owned.deep_view(),
            frozen_bookmarks.deep_view(),
            error::res(r),
        ),
        r matches Ok(resolution) ==> resolution@.owned == owned.deep_view() && dep_commits(
            resolution@.frozen_dependencies,
        ).no_duplicates(),
{
    let ghost start = sh.log();
    let ghost own = owned.deep_view();
    let found = search_dependencies(sh, &owned, frozen_bookmarks);
    let ghost seen = error::res(found);
    assert(dependencies_searched(start, sh.log(), own, frozen_bookmarks.deep_view(), seen));
    let frozen_dependencies = match found {
        Ok(found) => found,
        Err(error) => return Err(error),
    };
    let resolution = StackResolution { owned, frozen_dependencies };
    match validate_owned_base(sh, &resolution) {
        Ok(_) => Ok(resolution),
        Err(error) => Err(error),
    }
}

} // verus!
