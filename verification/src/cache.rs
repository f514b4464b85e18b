//! What is remembered of pull requests between runs.
//!
//! The cache is no authority: where it cannot be read or written, the commands go on without it.

use vstd::prelude::*;

use crate::config::CONFIG_PREFIX;
use crate::error::{CauseView, Error};
use crate::model::{CacheRow, CacheRowView, Duplicate, PrCacheEntry, PrCacheEntryView};
use crate::paths;
use crate::paths::{PathStyle, join_path};
use crate::record;
use crate::record::Event;
use crate::repo;
use crate::shell::Host;
use crate::shell::wire::Shell;
use crate::text;
use crate::text::{cat5, same, text_before};
use crate::ui;
use crate::ui::log_warning;

verus! {

broadcast use crate::record::group_record;

pub open spec fn key_of(row: CacheRowView) -> (Seq<char>, Seq<char>) {
    (row.repo, row.change_id)
}

pub open spec fn key_before(a: (Seq<char>, Seq<char>), b: (Seq<char>, Seq<char>)) -> bool {
    text::comes_before(a.0, b.0) || (a.0 == b.0 && text::comes_before(a.1, b.1))
}

/// The rows stand in the order of their keys, no key twice.
pub open spec fn is_listing(rows: Seq<CacheRowView>) -> bool {
    forall|i: int, j: int|
        0 <= i < j < rows.len() ==> key_before(key_of(#[trigger] rows[i]), key_of(#[trigger] rows[j]))
}

/// What rows say of each change of each repository; a later row replaces an earlier one.
pub open spec fn entries(rows: Seq<CacheRowView>) -> Map<(Seq<char>, Seq<char>), PrCacheEntryView>
    decreases rows.len(),
{
    if rows.len() == 0 {
        Map::empty()
    } else {
        entries(rows.drop_last()).insert(key_of(rows.last()), rows.last().entry)
    }
}

proof fn lemma_key_order(a: (Seq<char>, Seq<char>), b: (Seq<char>, Seq<char>))
    ensures
        key_before(a, b) || a == b || key_before(b, a),
        key_before(a, b) ==> a != b && !key_before(b, a),
{
    text::lemma_order_total(a.0, b.0);
    text::lemma_order_total(a.1, b.1);
}

proof fn lemma_key_transitive(
    a: (Seq<char>, Seq<char>),
    b: (Seq<char>, Seq<char>),
    c: (Seq<char>, Seq<char>),
)
    requires
        key_before(a, b),
        key_before(b, c),
    ensures
        key_before(a, c),
{
    if text::comes_before(a.0, b.0) && text::comes_before(b.0, c.0) {
        text::lemma_order_transitive(a.0, b.0, c.0);
    } else if a.0 == b.0 && b.0 == c.0 {
        text::lemma_order_transitive(a.1, b.1, c.1);
    }
}

proof fn lemma_listed(rows: Seq<CacheRowView>)
    requires
        is_listing(rows),
    ensures
        forall|i: int|
            0 <= i < rows.len() ==> entries(rows).dom().contains(key_of(#[trigger] rows[i]))
                && entries(rows)[key_of(rows[i])] == rows[i].entry,
        forall|k: (Seq<char>, Seq<char>)| #[trigger]
            entries(rows).dom().contains(k) ==> exists|i: int|
                0 <= i < rows.len() && key_of(#[trigger] rows[i]) == k,
    decreases rows.len(),
{
    if rows.len() > 0 {
        let front = rows.drop_last();
        assert forall|i: int, j: int| 0 <= i < j < front.len() implies key_before(
            key_of(#[trigger] front[i]),
            key_of(#[trigger] front[j]),
        ) by {
            assert(front[i] == rows[i] && front[j] == rows[j]);
        }
        lemma_listed(front);
        let last = rows.len() - 1;
        assert forall|i: int| 0 <= i < rows.len() implies entries(rows).dom().contains(
            key_of(#[trigger] rows[i]),
        ) && entries(rows)[key_of(rows[i])] == rows[i].entry by {
            if i < last {
                assert(front[i] == rows[i]);
                assert(key_before(key_of(rows[i]), key_of(rows[last])));
                lemma_key_order(key_of(rows[i]), key_of(rows[last]));
            }
        }
        assert forall|k: (Seq<char>, Seq<char>)| #[trigger]
            entries(rows).dom().contains(k) implies exists|i: int|
            0 <= i < rows.len() && key_of(#[trigger] rows[i]) == k by {
            if k == key_of(rows[last]) {
                assert(key_of(rows[last]) == k);
            } else {
                assert(entries(front).dom().contains(k));
                let i = choose|i: int| 0 <= i < front.len() && key_of(#[trigger] front[i]) == k;
                assert(front[i] == rows[i]);
            }
        }
    }
}

/// A listing that holds one row more, or another entry for one key, says just that more.
proof fn lemma_listing_put(
    rows: Seq<CacheRowView>,
    next: Seq<CacheRowView>,
    at: int,
    row: CacheRowView,
)
    requires
        is_listing(rows),
        0 <= at <= rows.len(),
        forall|k: int| 0 <= k < at ==> key_before(key_of(#[trigger] rows[k]), key_of(row)),
        (at < rows.len() && key_of(rows[at]) == key_of(row) && next == rows.update(at, row)) || ((at
            == rows.len() || key_before(key_of(row), key_of(rows[at]))) && next == rows.insert(
            at,
            row,
        )),
    ensures
        is_listing(next),
        entries(next) == entries(rows).insert(key_of(row), row.entry),
{
    let key = key_of(row);
    let replaced = at < rows.len() && key_of(rows[at]) == key;
    if replaced {
        lemma_key_order(key, key);
        assert forall|i: int, j: int| 0 <= i < j < next.len() implies key_before(
            key_of(#[trigger] next[i]),
            key_of(#[trigger] next[j]),
        ) by {
            assert(key_of(next[i]) == key_of(rows[i]) && key_of(next[j]) == key_of(rows[j]));
        }
    } else {
        assert forall|i: int, j: int| 0 <= i < j < next.len() implies key_before(
            key_of(#[trigger] next[i]),
            key_of(#[trigger] next[j]),
        ) by {
            if i < at && j == at {
                assert(next[i] == rows[i]);
            } else if i < at && j < at {
                assert(next[i] == rows[i] && next[j] == rows[j]);
            } else if i < at {
                assert(next[i] == rows[i] && next[j] == rows[j - 1]);
            } else if i == at {
                assert(next[j] == rows[j - 1]);
                if j - 1 > at {
                    assert(key_before(key_of(rows[at]), key_of(rows[j - 1])));
                    lemma_key_transitive(key, key_of(rows[at]), key_of(rows[j - 1]));
                }
            } else {
                assert(next[i] == rows[i - 1] && next[j] == rows[j - 1]);
            }
        }
    }
    lemma_listed(rows);
    lemma_listed(next);
    let want = entries(rows).insert(key, row.entry);
    assert(next[at] == row);
    assert forall|k: (Seq<char>, Seq<char>)| #[trigger]
        entries(next).dom().contains(k) implies want.dom().contains(k) && entries(next)[k]
        == want[k] by {
        let i = choose|i: int| 0 <= i < next.len() && key_of(#[trigger] next[i]) == k;
        if i != at {
            let o = if replaced || i < at {
                i
            } else {
                i - 1
            };
            assert(next[i] == rows[o]);
            if i < at {
                lemma_key_order(key_of(next[i]), key_of(next[at]));
            } else {
                lemma_key_order(key_of(next[at]), key_of(next[i]));
            }
            assert(entries(rows)[key_of(rows[o])] == rows[o].entry);
        }
    }
    assert forall|k: (Seq<char>, Seq<char>)| #[trigger]
        want.dom().contains(k) implies entries(next).dom().contains(k) by {
        if k == key {
            assert(key_of(next[at]) == k);
        } else {
            assert(entries(rows).dom().contains(k));
            let o = choose|i: int| 0 <= i < rows.len() && key_of(#[trigger] rows[i]) == k;
            let i = if replaced || o < at {
                o
            } else {
                o + 1
            };
            assert(next[i] == rows[o]);
        }
    }
    assert(entries(next).dom() =~= want.dom());
    assert(entries(next) =~= want);
}

/// The remembered pull requests, by repository and change.
pub struct CacheStore {
    path: String,
    rows: Vec<CacheRow>,
}

impl View for CacheStore {
    type V = Map<(Seq<char>, Seq<char>), PrCacheEntryView>;

    closed spec fn view(&self) -> Map<(Seq<char>, Seq<char>), PrCacheEntryView> {
        entries(self.rows.deep_view())
    }
}

impl CacheStore {
    #[verifier::type_invariant]
    spec fn well_formed(&self) -> bool {
        is_listing(self.rows.deep_view())
    }

    /// The file that the entries are kept in.
    pub closed spec fn place(&self) -> Seq<char> {
        self.path@
    }

    pub fn empty(path: String) -> (r: Self)
        ensures
            r.place() == path@,
            r@ == Map::<(Seq<char>, Seq<char>), PrCacheEntryView>::empty(),
    {
        let rows: Vec<CacheRow> = Vec::new();
        assert(rows.deep_view() =~= Seq::<CacheRowView>::empty());
        CacheStore { path, rows }
    }

    pub fn get_pr(&self, repo: &str, change_id: &str) -> (r: Option<&PrCacheEntry>)
        ensures
            r is Some == self@.dom().contains((repo@, change_id@)),
            r matches Some(entry) ==> entry@ == self@[(repo@, change_id@)],
    {
        proof {
            use_type_invariant(self);
            lemma_listed(self.rows.deep_view());
        }
        let ghost key = (repo@, change_id@);
        let mut i: usize = 0;
        while i < self.rows.len()
            invariant
                i <= self.rows@.len(),
                key == (repo@, change_id@),
                forall|k: int| 0 <= k < i ==> key_of(#[trigger] self.rows.deep_view()[k]) != key,
                forall|k: int|
                    0 <= k < self.rows.deep_view().len() ==> self@.dom().contains(
                        key_of(#[trigger] self.rows.deep_view()[k]),
                    ) && self@[key_of(self.rows.deep_view()[k])]
                        == self.rows.deep_view()[k].entry,
            decreases self.rows@.len() - i,
        {
            let row = &self.rows[i];
            assert(self.rows.deep_view()[i as int] == row@);
            if same(&row.repo, repo) && same(&row.change_id, change_id) {
                return Some(&row.entry);
            }
            i = i + 1;
        }
        None
    }

    pub fn upsert_pr(&mut self, repo: &str, change_id: &str, entry: PrCacheEntry)
        ensures
            final(self)@ == old(self)@.insert((repo@, change_id@), entry@),
            final(self).place() == old(self).place(),
    {
        proof {
            use_type_invariant(&*self);
        }
        let mut rows: Vec<CacheRow> = Vec::new();
        assert(rows.deep_view() =~= Seq::<CacheRowView>::empty());
        std::mem::swap(&mut rows, &mut self.rows);
        let ghost before = rows.deep_view();
        let row = CacheRow { repo: repo.to_owned(), change_id: change_id.to_owned(), entry };
        let ghost put = row@;
        let mut at: usize = 0;
        while at < rows.len() && (text_before(&rows[at].repo, repo) || (same(
            &rows[at].repo,
            repo,
        ) && text_before(&rows[at].change_id, change_id)))
            invariant
                at <= rows@.len(),
                before == rows.deep_view(),
                key_of(put) == (repo@, change_id@),
                forall|k: int| 0 <= k < at ==> key_before(key_of(#[trigger] before[k]), key_of(put)),
            decreases rows@.len() - at,
        {
            assert(before[at as int] == rows@[at as int]@);
            at = at + 1;
        }
        if at < rows.len() {
            assert(before[at as int] == rows@[at as int]@);
            proof {
                lemma_key_order(key_of(before[at as int]), key_of(put));
            }
        }
        if at < rows.len() && same(&rows[at].repo, repo) && same(&rows[at].change_id, change_id) {
            rows.set(at, row);
            assert(rows.deep_view() =~= before.update(at as int, put));
        } else {
            rows.insert(at, row);
            assert(rows.deep_view() =~= before.insert(at as int, put));
        }
        proof {
            lemma_listing_put(before, rows.deep_view(), at as int, put);
        }
        self.rows = rows;
    }

    /// The entries that a file held.
    pub fn load(path: String, stored: Vec<CacheRow>) -> (r: Self)
        ensures
            r.place() == path@,
            r@ == entries(stored.deep_view()),
    {
        let mut store = CacheStore::empty(path);
        let ghost all = stored.deep_view();
        let mut i: usize = 0;
        assert(all.take(0) =~= Seq::<CacheRowView>::empty());
        while i < stored.len()
            invariant
                i <= stored@.len(),
                all == stored.deep_view(),
                store.place() == path@,
                store@ == entries(all.take(i as int)),
            decreases stored@.len() - i,
        {
            let row = stored[i].copy();
            assert(all[i as int] == stored@[i as int]@);
            assert(all.take(i + 1).drop_last() =~= all.take(i as int));
            assert(all.take(i + 1).last() == all[i as int]);
            store.upsert_pr(&row.repo, &row.change_id, row.entry);
            i = i + 1;
        }
        assert(all.take(i as int) =~= all);
        store
    }

    /// Reads the cache of the current repository. Where that fails, which is logged, nothing is
    /// remembered.
    pub fn load_current_best_effort<H: Host>(sh: &mut Shell<H>, phase: &str) -> (r: Result<
        CacheStore,
        Error,
    >)
        ensures
            record::extends(old(sh).log(), final(sh).log()),
            cache_opened(old(sh).log(), final(sh).log(), phase@, store_parts(r)),
    {
        let ghost before = sh.log();
        let (style, found) = sh.search();
        let ghost mid = sh.log();
        assert(mid.take(before.len() as int) =~= before);
        assert(mid[before.len() as int] == mid.last());
        match found {
            Err(error) => Err(error),
            Ok(dir) => {
                let path = join_path(style, &join_path(style, &dir, CONFIG_PREFIX), "cache.sqlite");
                let rows = sh.load_cache(&path);
                let ghost at = path@;
                let ghost seen = sh.log();
                assert(seen[before.len() as int] == mid.last());
                let store = match rows {
                    Ok(rows) => CacheStore::load(path, rows),
                    Err(error) => {
                        let mut message = cat5(
                            "phase=",
                            phase,
                            " object=",
                            &path,
                            " error=failed to read SQLite cache; continuing with live discovery: ",
                        );
                        message.append(&error.chain_line());
                        log_warning(sh, &message);
                        CacheStore::empty(path)
                    },
                };
                assert(sh.log().take(before.len() as int) =~= before);
                assert(sh.log()[before.len() as int] == seen[before.len() as int]);
                assert(sh.log()[before.len() as int + 1] == seen.last());
                assert(sh.log().take(before.len() as int + 2) =~= seen);
                assert(sh.log() =~= seen + ui::failure_logged(
                    unread_cache(phase@, at),
                    seen.last()->rows,
                ));
                Ok(store)
            },
        }
    }

    /// Writes the cache; a failure is logged, and is no reason to stop.
    pub fn save_best_effort<H: Host>(&self, sh: &mut Shell<H>, phase: &str) -> (r: bool)
        ensures
            record::extends(old(sh).log(), final(sh).log()),
            cache_saved(old(sh).log(), final(sh).log(), self.place(), self@, phase@, r),
    {
        proof {
            use_type_invariant(self);
        }
        let ghost n = sh.log().len() as int;
        let ghost before = sh.log();
        let written = sh.save_cache(&self.path, &self.rows);
        let ghost mid = sh.log();
        assert(mid.take(n) =~= before);
        match written {
            Ok(_) => {
                assert(mid =~= mid.take(n + 1) + Seq::<Event>::empty());
                true
            },
            Err(error) => {
                let mut message = cat5(
                    "phase=",
                    phase,
                    " object=",
                    &self.path,
                    " error=failed to write SQLite cache; continuing because cache is not authoritative: ",
                );
                message.append(&error.chain_line());
                log_warning(sh, &message);
                assert(sh.log().take(n) =~= before);
                assert(sh.log()[n] == mid[n]);
                assert(sh.log().take(n + 1) =~= mid);
                false
            },
        }
    }
}

/// The file of the cache below the repository directory.
pub open spec fn cache_path(style: PathStyle, dir: Seq<char>) -> Seq<char> {
    paths::path_below(style, paths::path_below(style, dir, CONFIG_PREFIX@), "cache.sqlite"@)
}

/// Where a store is kept and what it holds.
pub open spec fn store_parts(r: Result<CacheStore, Error>) -> Result<
    (Seq<char>, Map<(Seq<char>, Seq<char>), PrCacheEntryView>),
    Seq<CauseView>,
> {
    match r {
        Ok(store) => Ok((store.place(), store@)),
        Err(error) => Err(error@),
    }
}

/// Where the cache is kept, as a search for the repository directory of the current workspace found.
pub open spec fn place_found(event: Event) -> Option<Result<Seq<char>, Seq<CauseView>>> {
    if event is Searched {
        match repo::current_dir_found(event->Searched_steps) {
            None => None,
            Some(Err(e)) => Some(Err(e)),
            Some(Ok(dir)) => Some(
                Ok(cache_path(repo::style_told(event->Searched_steps)->Some_0, dir)),
            ),
        }
    } else {
        None
    }
}

/// What the log tells of a cache that cannot be read, before the reason.
pub open spec fn unread_cache(phase: Seq<char>, path: Seq<char>) -> Seq<char> {
    "phase="@ + phase + " object="@ + path
        + " error=failed to read SQLite cache; continuing with live discovery: "@
}

/// What the log tells of a cache that cannot be written, before the reason.
pub open spec fn unwritten_cache(phase: Seq<char>, path: Seq<char>) -> Seq<char> {
    "phase="@ + phase + " object="@ + path
        + " error=failed to write SQLite cache; continuing because cache is not authoritative: "@
}

/// The repository directory was searched, and where it was found the cache was read once from its
/// file there. An unreadable cache is logged and counts as empty.
pub open spec fn cache_opened(
    before: Seq<Event>,
    after: Seq<Event>,
    phase: Seq<char>,
    r: Result<(Seq<char>, Map<(Seq<char>, Seq<char>), PrCacheEntryView>), Seq<CauseView>>,
) -> bool {
    let n = before.len() as int;
    &&& record::extends(before, after)
    &&& after.len() > n
    &&& match place_found(after[n]) {
        None => false,
        Some(Err(e)) => after.len() == n + 1 && r == Err::<
            (Seq<char>, Map<(Seq<char>, Seq<char>), PrCacheEntryView>),
            _,
        >(e),
        Some(Ok(path)) => {
            &&& after.len() > n + 1
            &&& after[n + 1] is CacheRead
            &&& after[n + 1]->CacheRead_path == path
            &&& after == after.take(n + 2) + ui::failure_logged(
                unread_cache(phase, path),
                after[n + 1]->rows,
            )
            &&& r == Ok::<_, Seq<CauseView>>(
                (
                    path,
                    match after[n + 1]->rows {
                        Ok(rows) => entries(rows),
                        Err(e) => Map::empty(),
                    },
                ),
            )
        },
    }
}

/// The entries were written once, in the order of their keys; a failure is logged.
pub open spec fn cache_saved(
    before: Seq<Event>,
    after: Seq<Event>,
    path: Seq<char>,
    all: Map<(Seq<char>, Seq<char>), PrCacheEntryView>,
    phase: Seq<char>,
    r: bool,
) -> bool {
    let n = before.len() as int;
    &&& record::extends(before, after)
    &&& after.len() > n
    &&& after[n] is CacheWritten
    &&& after[n]->CacheWritten_path == path
    &&& is_listing(after[n]->stored)
    &&& entries(after[n]->stored) == all
    &&& after == after.take(n + 1) + ui::failure_logged(
        unwritten_cache(phase, path),
        after[n]->written,
    )
    &&& r == (after[n]->written is Ok)
}

/// The law of the right cache: a cache that was opened is kept in the file below the repository
/// directory that a search from the current workspace found.
pub proof fn law_cache_is_of_this_repository(
    before: Seq<Event>,
    after: Seq<Event>,
    phase: Seq<char>,
    place: Seq<char>,
    all: Map<(Seq<char>, Seq<char>), PrCacheEntryView>,
)
    requires
        cache_opened(before, after, phase, Ok((place, all))),
    ensures
        after[before.len() as int] is Searched,
        exists|dir: Seq<char>|
            repo::current_dir_found(after[before.len() as int]->Searched_steps) == Some(
                Ok::<Seq<char>, Seq<CauseView>>(dir),
            ) && place == #[trigger] cache_path(
                repo::style_told(after[before.len() as int]->Searched_steps)->Some_0,
                dir,
            ),
{
    let steps = after[before.len() as int]->Searched_steps;
    let dir = repo::current_dir_found(steps)->Some_0->Ok_0;
    assert(place == cache_path(repo::style_told(steps)->Some_0, dir));
}

/// The law of the cache: an entry that is put into a store is what is read under its key once the
/// store was written and opened again, and every other key reads as before, whichever file order the
/// rows come back in.
pub proof fn law_read_gives_what_was_written(
    all: Map<(Seq<char>, Seq<char>), PrCacheEntryView>,
    key: (Seq<char>, Seq<char>),
    entry: PrCacheEntryView,
    path: Seq<char>,
    phase: Seq<char>,
    start: Seq<Event>,
    saved: Seq<Event>,
    before: Seq<Event>,
    after: Seq<Event>,
    back: Seq<CacheRowView>,
    found: Map<(Seq<char>, Seq<char>), PrCacheEntryView>,
)
    requires
        cache_saved(start, saved, path, all.insert(key, entry), phase, true),
        cache_opened(before, after, phase, Ok((path, found))),
        after[before.len() as int + 1]->rows == Ok::<Seq<CacheRowView>, Seq<CauseView>>(back),
        back.to_multiset() == saved[start.len() as int]->stored.to_multiset(),
    ensures
        found.dom().contains(key),
        found[key] == entry,
        forall|other: (Seq<char>, Seq<char>)|
            other != key ==> #[trigger] found.dom().contains(other) == all.dom().contains(other),
        forall|other: (Seq<char>, Seq<char>)|
            other != key && #[trigger] found.dom().contains(other) ==> found[other] == all[other],
{
    law_listing_reads_back(saved[start.len() as int]->stored, back);
    assert(found == entries(back));
}

/// A cache that is written and read again holds what it held: whichever file order the rows come
/// back in, they say the same.
pub proof fn law_listing_reads_back(rows: Seq<CacheRowView>, back: Seq<CacheRowView>)
    requires
        is_listing(rows),
        back.to_multiset() == rows.to_multiset(),
    ensures
        entries(back) == entries(rows),
{
    lemma_listed(rows);
    back.to_multiset_ensures();
    rows.to_multiset_ensures();
    assert forall|i: int| 0 <= i < back.len() implies rows.contains(#[trigger] back[i]) by {
        assert(back.contains(back[i]));
        assert(back.to_multiset().count(back[i]) > 0);
    }
    assert forall|i: int| 0 <= i < rows.len() implies back.contains(#[trigger] rows[i]) by {
        assert(rows.contains(rows[i]));
        assert(rows.to_multiset().count(rows[i]) > 0);
    }
    lemma_read_in_any_order(rows, back);
    assert forall|k: (Seq<char>, Seq<char>)| entries(back).dom().contains(k) == entries(
        rows,
    ).dom().contains(k) && (entries(back).dom().contains(k) ==> entries(back)[k] == entries(
        rows,
    )[k]) by {
        if entries(rows).dom().contains(k) {
            let i = choose|i: int| 0 <= i < rows.len() && key_of(#[trigger] rows[i]) == k;
            assert(back.contains(rows[i]));
            let j = choose|j: int| 0 <= j < back.len() && back[j] == rows[i];
            assert(key_of(back[j]) == k);
        }
    }
    assert(entries(back) =~= entries(rows));
}

proof fn lemma_read_in_any_order(rows: Seq<CacheRowView>, back: Seq<CacheRowView>)
    requires
        is_listing(rows),
        forall|i: int| 0 <= i < back.len() ==> rows.contains(#[trigger] back[i]),
    ensures
        forall|i: int|
            0 <= i < back.len() ==> entries(back).dom().contains(key_of(#[trigger] back[i])),
        forall|k: (Seq<char>, Seq<char>)| #[trigger]
            entries(back).dom().contains(k) ==> entries(rows).dom().contains(k) && entries(back)[k]
                == entries(rows)[k],
    decreases back.len(),
{
    lemma_listed(rows);
    if back.len() > 0 {
        let front = back.drop_last();
        assert forall|i: int| 0 <= i < front.len() implies rows.contains(#[trigger] front[i]) by {
            assert(front[i] == back[i]);
        }
        lemma_read_in_any_order(rows, front);
        let last = back.len() - 1;
        assert(rows.contains(back[last]));
        let o = choose|o: int| 0 <= o < rows.len() && rows[o] == back[last];
        assert(entries(rows)[key_of(rows[o])] == rows[o].entry);
        assert forall|i: int| 0 <= i < back.len() implies entries(back).dom().contains(
            key_of(#[trigger] back[i]),
        ) by {
            if i < last {
                assert(front[i] == back[i]);
            }
        }
        let key = key_of(back[last]);
        assert(entries(back) == entries(front).insert(key, back[last].entry));
        assert(entries(rows).dom().contains(key));
        assert forall|k: (Seq<char>, Seq<char>)| #[trigger]
            entries(back).dom().contains(k) implies entries(rows).dom().contains(k) && entries(
            back,
        )[k] == entries(rows)[k] by {
            if k != key {
                assert(entries(front).dom().contains(k));
            }
        }
    }
}

} // verus!
