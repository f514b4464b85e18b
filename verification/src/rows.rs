//! What the rows that jj prints, and the rows of a stack comment, say.

use vstd::prelude::*;

use crate::bodies;
use crate::bookmarks;
use crate::error::CauseView;
use crate::model::{
    AppConfigView, FrozenBookmarkView, PrCacheEntryView, RemoteBookmarkStatusView,
    RemoteBookmarkView, ResolvedChangeView,
};
use crate::text;
use crate::words;

verus! {

/// These fields, with tabs between them.
pub open spec fn row_of(fields: Seq<Seq<char>>) -> Seq<char> {
    text::join(fields, seq!['\t'])
}

/// No field holds a tab.
pub open spec fn are_fields(fields: Seq<Seq<char>>) -> bool {
    fields.len() > 0 && forall|i: int|
        0 <= i < fields.len() ==> words::is_without(#[trigger] fields[i], '\t')
}

/// The law of the remote rows: a row that jj prints of a bookmark of a remote is read as that bookmark: its
/// name, its remote, whether it is followed, whether it is conflicted, and where it stands. A row without
/// a remote is none.
pub proof fn law_remote_row_reads_back(
    name: Seq<char>,
    remote: Seq<char>,
    followed: bool,
    conflicted: bool,
    commit: Seq<char>,
)
    requires
        words::is_without(name, '\t'),
        words::is_without(remote, '\t'),
        words::is_without(commit, '\t'),
        words::is_tight(remote),
        words::is_tight(commit),
    ensures
        ({
            let row = row_of(
                seq![
                    name,
                    remote,
                    if followed { "tracked"@ } else { "untracked"@ },
                    if conflicted { "conflicted"@ } else { "ok"@ },
                    commit,
                ],
            );
            &&& remote.len() > 0 ==> bookmarks::remote_row(row) == Ok::<_, Seq<CauseView>>(
                Some(
                    RemoteBookmarkView {
                        name,
                        remote,
                        is_tracked: followed,
                        is_conflicted: conflicted,
                        commit_id: commit,
                    },
                ),
            )
            &&& remote.len() == 0 ==> bookmarks::remote_row(row) == Ok::<_, Seq<CauseView>>(
                None::<RemoteBookmarkView>,
            )
        }),
{
    lemma_states();
    let fields = seq![
        name,
        remote,
        if followed { "tracked"@ } else { "untracked"@ },
        if conflicted { "conflicted"@ } else { "ok"@ },
        commit,
    ];
    assert forall|i: int| 0 <= i < fields.len() implies words::is_without(
        #[trigger] fields[i],
        '\t',
    ) by {
        if i == 0 {
            assert(fields[i] == name);
        } else if i == 1 {
            assert(fields[i] == remote);
        } else if i == 4 {
            assert(fields[i] == commit);
        }
    }
    words::law_join_splits_back(fields, '\t');
    words::law_trim_takes_only_space(remote);
    words::law_trim_takes_only_space(commit);
}

proof fn lemma_states()
    ensures
        words::is_without("tracked"@, '\t'),
        words::is_without("untracked"@, '\t'),
        words::is_without("conflicted"@, '\t'),
        words::is_without("ok"@, '\t'),
        "tracked"@ != "untracked"@,
        "conflicted"@ != "ok"@,
        words::is_tight("conflicted"@),
        words::is_tight("ok"@),
{
    reveal_strlit("tracked");
    reveal_strlit("untracked");
    reveal_strlit("conflicted");
    reveal_strlit("ok");
    assert("tracked"@.len() != "untracked"@.len());
    assert("conflicted"@.len() != "ok"@.len());
}

/// A row says of a remote whether its bookmark is followed and whether it is conflicted.
pub open spec fn says_status(row: Seq<char>, remote: Seq<char>, status: RemoteBookmarkStatusView) -> bool {
    let f = text::split(row, '\t');
    &&& f.len() == 3
    &&& f[0] == remote
    &&& status.is_tracked <==> f[1] == "tracked"@
    &&& status.is_conflicted <==> f[2] == "conflicted"@
}

/// The law of the status: the status of a bookmark at a remote is what the first row of that remote says,
/// and it is not known just where no row is of that remote.
pub proof fn law_status_is_of_the_remote(rows: Seq<Seq<char>>, remote: Seq<char>)
    ensures
        bookmarks::status_in_rows(rows, remote) matches Some(status) ==> exists|i: int|
            0 <= i < rows.len() && says_status(#[trigger] rows[i], remote, status),
        bookmarks::status_in_rows(rows, remote) is None ==> forall|i: int|
            0 <= i < rows.len() && !text::is_blank(#[trigger] rows[i]) ==> text::split(
                rows[i],
                '\t',
            ).len() != 3 || text::split(rows[i], '\t')[0] != remote,
    decreases rows.len(),
{
    if rows.len() > 0 {
        let rest = rows.drop_first();
        law_status_is_of_the_remote(rest, remote);
        let f = text::split(rows[0], '\t');
        match bookmarks::status_in_rows(rows, remote) {
            Some(status) => {
                if !text::is_blank(rows[0]) && f.len() == 3 && f[0] == remote {
                    assert(says_status(rows[0], remote, status));
                } else {
                    let i = choose|i: int|
                        0 <= i < rest.len() && says_status(#[trigger] rest[i], remote, status);
                    assert(rows[i + 1] == rest[i]);
                }
            },
            None => {
                assert forall|i: int|
                    0 <= i < rows.len() && !text::is_blank(#[trigger] rows[i]) implies text::split(
                    rows[i],
                    '\t',
                ).len() != 3 || text::split(rows[i], '\t')[0] != remote by {
                    if i > 0 {
                        assert(rest[i - 1] == rows[i]);
                    }
                }
            },
        }
    }
}

/// The law of the local rows: of the rows that jj prints of local bookmarks, those of stacks are the ones
/// without a remote whose name begins with the branch prefix and a slash; the ones that are usable are
/// not conflicted and stand somewhere.
pub proof fn law_local_row_reads_back(
    config: AppConfigView,
    name: Seq<char>,
    remote: Seq<char>,
    conflicted: bool,
    target: Seq<char>,
)
    requires
        words::is_without(name, '\t'),
        words::is_without(remote, '\t'),
        words::is_without(target, '\t'),
        words::is_tight(name),
        words::is_tight(remote),
        words::is_tight(target),
    ensures
        ({
            let row = row_of(
                seq![name, remote, if conflicted { "conflicted"@ } else { "ok"@ }, target],
            );
            &&& bookmarks::is_stack_row(row, config) <==> remote.len() == 0 && text::starts_with(
                name,
                text::trim_end_char(config.branch_prefix, '/') + "/"@,
            )
            &&& bookmarks::is_conflicted_stack_row(row, config) <==> bookmarks::is_stack_row(
                row,
                config,
            ) && conflicted
            &&& bookmarks::is_usable_row(row) <==> remote.len() == 0 && !conflicted && target.len() > 0
                && !text::starts_with(target, "<Error:"@)
            &&& bookmarks::names_in(seq![row], |line: Seq<char>| true) == seq![name]
        }),
{
    lemma_states();
    let fields = seq![name, remote, if conflicted { "conflicted"@ } else { "ok"@ }, target];
    let row = row_of(fields);
    assert forall|i: int| 0 <= i < fields.len() implies words::is_without(
        #[trigger] fields[i],
        '\t',
    ) by {
        if i == 0 {
            assert(fields[i] == name);
        } else if i == 1 {
            assert(fields[i] == remote);
        } else if i == 3 {
            assert(fields[i] == target);
        }
    }
    words::law_join_splits_back(fields, '\t');
    words::law_trim_takes_only_space(name);
    words::law_trim_takes_only_space(remote);
    words::law_trim_takes_only_space("conflicted"@);
    words::law_trim_takes_only_space("ok"@);
    words::law_trim_takes_only_space(target);
    reveal_with_fuel(bookmarks::names_in, 2);
    assert(seq![row].drop_last() =~= seq![]);
    assert(seq![row].last() == row);
    assert(bookmarks::names_in(seq![row], |line: Seq<char>| true) =~= seq![name]);
}

/// The law of the listed names: the names that are listed are those of the rows that are wanted.
pub proof fn law_names_are_of_the_wanted_rows(
    rows: Seq<Seq<char>>,
    wanted: spec_fn(Seq<char>) -> bool,
    name: Seq<char>,
)
    ensures
        bookmarks::names_in(rows, wanted).contains(name) <==> exists|i: int|
            0 <= i < rows.len() && wanted(#[trigger] rows[i]) && text::trim(
                text::split(rows[i], '\t')[0],
            ) == name,
    decreases rows.len(),
{
    if rows.len() > 0 {
        let front = rows.drop_last();
        let rest = bookmarks::names_in(front, wanted);
        let all = bookmarks::names_in(rows, wanted);
        let last = rows[rows.len() - 1];
        law_names_are_of_the_wanted_rows(front, wanted, name);
        words::law_split_joins_back(last, '\t');
        let own = text::trim(text::split(last, '\t')[0]);
        if wanted(last) {
            assert(all == rest.push(own));
            if all.contains(name) {
                let k = choose|k: int| 0 <= k < all.len() && all[k] == name;
                if k < rest.len() {
                    assert(rest[k] == name);
                }
            }
            if rest.contains(name) {
                let k = choose|k: int| 0 <= k < rest.len() && rest[k] == name;
                assert(all[k] == name);
            }
            if own == name {
                assert(all[rest.len() as int] == name);
            }
        }
        if rest.contains(name) {
            let i = choose|i: int|
                0 <= i < front.len() && wanted(#[trigger] front[i]) && text::trim(
                    text::split(front[i], '\t')[0],
                ) == name;
            assert(rows[i] == front[i]);
        }
        assert forall|i: int|
            0 <= i < rows.len() && wanted(#[trigger] rows[i]) && text::trim(
                text::split(rows[i], '\t')[0],
            ) == name implies all.contains(name) by {
            if i < front.len() {
                assert(front[i] == rows[i]);
            }
        }
    }
}

/// The law of the frozen bookmarks: the frozen bookmarks of a listing are ordered by the numbers of their
/// requests, and each comes from a row.
pub proof fn law_frozen_bookmarks_are_ordered(
    rows: Seq<Seq<char>>,
    list: Seq<FrozenBookmarkView>,
)
    requires
        bookmarks::frozen_from_rows(rows) == Ok::<_, Seq<CauseView>>(list),
    ensures
        forall|i: int, j: int|
            0 <= i < j < list.len() ==> (#[trigger] list[i]).pr_number <= (#[trigger] list[j]).pr_number,
        forall|k: int|
            0 <= k < list.len() ==> exists|i: int|
                0 <= i < rows.len() && bookmarks::frozen_row(#[trigger] rows[i]) == Ok::<
                    _,
                    Seq<CauseView>,
                >(Some(#[trigger] list[k])),
    decreases rows.len(),
{
    if rows.len() > 0 {
        let front = rows.drop_last();
        let rest = bookmarks::frozen_from_rows(front)->Ok_0;
        law_frozen_bookmarks_are_ordered(front, rest);
        let last = rows[rows.len() - 1];
        let grows = !text::is_blank(last) && bookmarks::frozen_row(last)->Ok_0 is Some;
        if grows {
            lemma_frozen_inserted(rest, (bookmarks::frozen_row(last)->Ok_0)->Some_0);
        }
        assert forall|k: int| 0 <= k < list.len() implies exists|i: int|
            0 <= i < rows.len() && bookmarks::frozen_row(#[trigger] rows[i]) == Ok::<
                _,
                Seq<CauseView>,
            >(Some(#[trigger] list[k])) by {
            if grows && list[k] == (bookmarks::frozen_row(last)->Ok_0)->Some_0 {
                assert(bookmarks::frozen_row(rows[rows.len() - 1]) == Ok::<_, Seq<CauseView>>(
                    Some(list[k]),
                ));
            } else {
                let m = choose|m: int| 0 <= m < rest.len() && rest[m] == list[k];
                let i = choose|i: int|
                    0 <= i < front.len() && bookmarks::frozen_row(#[trigger] front[i]) == Ok::<
                        _,
                        Seq<CauseView>,
                    >(Some(rest[m]));
                assert(rows[i] == front[i]);
            }
        }
    }
}

proof fn lemma_frozen_inserted(sorted: Seq<FrozenBookmarkView>, item: FrozenBookmarkView)
    requires
        forall|i: int, j: int|
            0 <= i < j < sorted.len() ==> (#[trigger] sorted[i]).pr_number <= (
            #[trigger] sorted[j]).pr_number,
    ensures
        bookmarks::frozen_inserted(sorted, item).len() == sorted.len() + 1,
        forall|i: int, j: int|
            0 <= i < j < bookmarks::frozen_inserted(sorted, item).len() ==> (
            #[trigger] bookmarks::frozen_inserted(sorted, item)[i]).pr_number <= (
            #[trigger] bookmarks::frozen_inserted(sorted, item)[j]).pr_number,
        forall|k: int|
            0 <= k < bookmarks::frozen_inserted(sorted, item).len() ==> (
            #[trigger] bookmarks::frozen_inserted(sorted, item)[k]) == item || sorted.contains(
                bookmarks::frozen_inserted(sorted, item)[k],
            ),
    decreases sorted.len(),
{
    let all = bookmarks::frozen_inserted(sorted, item);
    if sorted.len() == 0 || sorted.last().pr_number <= item.pr_number {
        assert forall|i: int, j: int| 0 <= i < j < all.len() implies (
        #[trigger] all[i]).pr_number <= (#[trigger] all[j]).pr_number by {
            if j == sorted.len() {
                assert(sorted[i].pr_number <= sorted[sorted.len() - 1].pr_number);
            }
        }
        assert forall|k: int| 0 <= k < all.len() implies (#[trigger] all[k]) == item
            || sorted.contains(all[k]) by {
            if k < sorted.len() {
                assert(sorted[k] == all[k]);
            }
        }
    } else {
        let front = sorted.drop_last();
        lemma_frozen_inserted(front, item);
        let rest = bookmarks::frozen_inserted(front, item);
        let last = sorted[sorted.len() - 1];
        assert forall|k: int| 0 <= k < rest.len() implies (#[trigger] rest[k]).pr_number
            <= last.pr_number by {
            if rest[k] != item {
                let m = choose|m: int| 0 <= m < front.len() && front[m] == rest[k];
                assert(sorted[m].pr_number <= sorted[sorted.len() - 1].pr_number);
            }
        }
        assert forall|k: int| 0 <= k < all.len() implies (#[trigger] all[k]) == item
            || sorted.contains(all[k]) by {
            if k < rest.len() {
                if rest[k] != item {
                    let m = choose|m: int| 0 <= m < front.len() && front[m] == rest[k];
                    assert(sorted[m] == all[k]);
                }
            } else {
                assert(sorted[sorted.len() - 1] == all[k]);
            }
        }
    }
}

// ---------------------------------------------------------------------------
// The rows of a comment
// ---------------------------------------------------------------------------

proof fn lemma_entry_for(entries: Seq<(Seq<char>, PrCacheEntryView)>, id: Seq<char>, k: int)
    requires
        0 <= k < entries.len(),
        entries[k].0 == id,
        forall|i: int, j: int|
            0 <= i < j < entries.len() ==> (#[trigger] entries[i]).0 != (#[trigger] entries[j]).0,
    ensures
        bodies::entry_for(entries, id) == Some(entries[k].1),
    decreases entries.len(),
{
    if k > 0 {
        let rest = entries.drop_first();
        assert(entries[0].0 != entries[k].0);
        assert(rest[k - 1] == entries[k]);
        assert forall|i: int, j: int| 0 <= i < j < rest.len() implies (#[trigger] rest[i]).0 != (
        #[trigger] rest[j]).0 by {
            assert(rest[i] == entries[i + 1]);
            assert(rest[j] == entries[j + 1]);
        }
        lemma_entry_for(rest, id, k - 1);
    }
}

/// The law of the rows: a stack whose changes each have an entry is listed from the top down, one row for
/// each change: with its title, the number and the date of its request, and the mark on the row of the
/// change that the comment is for, and on no other.
pub proof fn law_rows_are_the_changes(
    changes: Seq<ResolvedChangeView>,
    entries: Seq<(Seq<char>, PrCacheEntryView)>,
    current: Option<Seq<char>>,
)
    requires
        entries.len() >= changes.len(),
        forall|k: int| 0 <= k < changes.len() ==> (#[trigger] entries[k]).0 == changes[k].change_id,
        forall|i: int, j: int|
            0 <= i < j < entries.len() ==> (#[trigger] entries[i]).0 != (#[trigger] entries[j]).0,
    ensures
        bodies::change_rows(changes, entries, current).len() == changes.len(),
        forall|k: int|
            0 <= k < changes.len() ==> {
                let row = bodies::change_rows(changes, entries, current)[changes.len() - 1 - k];
                &&& row.title == (#[trigger] changes[k]).title
                &&& row.number == entries[k].1.pr_number
                &&& row.created_at == entries[k].1.created_at
                &&& row.is_current <==> current == Some(changes[k].change_id)
            },
    decreases changes.len(),
{
    if changes.len() > 0 {
        let front = changes.drop_last();
        let n = changes.len() - 1;
        law_rows_are_the_changes(front, entries, current);
        assert(entries[n].0 == changes[n].change_id);
        lemma_entry_for(entries, changes[n].change_id, n);
        let rest = bodies::change_rows(front, entries, current);
        let all = bodies::change_rows(changes, entries, current);
        assert(all.len() == rest.len() + 1);
        assert forall|k: int| 0 <= k < changes.len() implies {
            let row = all[changes.len() - 1 - k];
            &&& row.title == (#[trigger] changes[k]).title
            &&& row.number == entries[k].1.pr_number
            &&& row.created_at == entries[k].1.created_at
            &&& row.is_current <==> current == Some(changes[k].change_id)
        } by {
            if k < n {
                assert(front[k] == changes[k]);
                assert(all[changes.len() - 1 - k] == rest[front.len() - 1 - k]);
            }
        }
    }
}

} // verus!
