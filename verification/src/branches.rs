//! Names of the branches that pull requests are opened from.

use vstd::prelude::*;

use crate::error;
use crate::error::{CauseView, Error, fail};
use crate::model::{
    AppConfig, AppConfigView, Diagnostics, GhPr, GhPrView, ResolvedChange, ResolvedChangeView,
};
use crate::output;
use crate::output::display_command;
use crate::outside;
use crate::outside::decompose;
use crate::pr;
use crate::pr::join_pr_refs;
use crate::record;
use crate::record::{Event, LineView};
use crate::shell::{Host, Line, jj_run};
use crate::shell::wire::Shell;
use crate::text;
use crate::text::{
    after_last, cat, cat3, cat5, char_count, char_is_alnum, char_lower, chars, list_contains,
    number_text, text_all_digits, text_ends_with, text_take, trimmed, trimmed_char, words,
};

verus! {

broadcast use crate::record::group_record;

// ---------------------------------------------------------------------------
// Slugs
// ---------------------------------------------------------------------------

pub open spec fn slug_char(c: char) -> char {
    if text::is_alnum(c) || c == '_' {
        text::lower(c)
    } else {
        '-'
    }
}

/// The characters of a slug with every run of dashes made one.
pub open spec fn slug_body(s: Seq<char>) -> Seq<char>
    decreases s.len(),
{
    if s.len() == 0 {
        seq![]
    } else {
        let rest = slug_body(s.drop_last());
        let c = slug_char(s.last());
        if c == '-' && rest.len() > 0 && rest.last() == '-' {
            rest
        } else {
            rest.push(c)
        }
    }
}

/// The slug of a decomposed title.
pub open spec fn slug_of(title: Seq<char>) -> Seq<char> {
    text::trim_char(slug_body(title), '-')
}

/// The slug of a title whose characters are decomposed already.
pub fn slug_from_decomposed(title: &str) -> (r: String)
    ensures
        r@ == slug_of(title@),
{
    let v = chars(title);
    let mut out = String::new();
    let mut dashed = false;
    let mut i: usize = 0;
    assert(out@ =~= slug_body(v@.take(0)));
    while i < v.len()
        invariant
            i <= v@.len(),
            out@ == slug_body(v@.take(i as int)),
            dashed == (out@.len() > 0 && out@.last() == '-'),
        decreases v@.len() - i,
    {
        let ghost next = v@.take(i + 1);
        assert(next.drop_last() =~= v@.take(i as int));
        let c = v[i];
        let mapped = if char_is_alnum(c) || c == '_' {
            char_lower(c)
        } else {
            '-'
        };
        if !(mapped == '-' && dashed) {
            out.push(mapped);
            dashed = mapped == '-';
        }
        i = i + 1;
    }
    assert(v@.take(i as int) =~= v@);
    trimmed_char(&out, '-')
}

pub fn slugify_title(title: &str) -> (r: String)
    ensures
        r@ == slug_of(outside::decomposed(text::trim(title@))),
{
    slug_from_decomposed(&decompose(&trimmed(title)))
}

/// The characters that a slug is made of.
pub open spec fn is_slug_char(c: char) -> bool {
    '0' <= c <= '9' || 'a' <= c <= 'z' || c == '_' || c == '-'
}

pub open spec fn is_slug(s: Seq<char>) -> bool {
    &&& forall|i: int| 0 <= i < s.len() ==> is_slug_char(#[trigger] s[i])
    &&& forall|i: int, j: int|
        0 <= i < s.len() && j == i + 1 && j < s.len() && (#[trigger] s[i]) == '-' ==> (
        #[trigger] s[j]) != '-'
    &&& s.len() > 0 ==> s[0] != '-' && s.last() != '-'
}

proof fn lemma_slug_body(s: Seq<char>)
    ensures
        forall|i: int| 0 <= i < slug_body(s).len() ==> is_slug_char(#[trigger] slug_body(s)[i]),
        forall|i: int, j: int|
            0 <= i < slug_body(s).len() && j == i + 1 && j < slug_body(s).len() && (
            #[trigger] slug_body(s)[i]) == '-' ==> (#[trigger] slug_body(s)[j]) != '-',
    decreases s.len(),
{
    if s.len() > 0 {
        lemma_slug_body(s.drop_last());
        let rest = slug_body(s.drop_last());
        let all = slug_body(s);
        assert forall|i: int| 0 <= i < all.len() implies is_slug_char(#[trigger] all[i]) by {
            if i < rest.len() {
                assert(all[i] == rest[i]);
            }
        }
        assert forall|i: int, j: int|
            0 <= i < all.len() && j == i + 1 && j < all.len() && (#[trigger] all[i])
                == '-' implies (#[trigger] all[j]) != '-' by {
            if j < rest.len() {
                assert(rest[i] == all[i] && rest[j] == all[j]);
            } else if i < rest.len() {
                assert(rest[i] == all[i]);
            }
        }
    }
}

/// What trimming a character leaves is a part of the text in one piece, without it at the ends.
proof fn lemma_trim_char(s: Seq<char>, c: char)
    ensures
        exists|a: int, b: int|
            0 <= a <= b <= s.len() && #[trigger] s.subrange(a, b) == text::trim_char(s, c),
        text::trim_char(s, c).len() > 0 ==> text::trim_char(s, c)[0] != c && text::trim_char(s, c).last() != c,
{
    lemma_trim_start_char(s, c);
    let mid = text::trim_start_char(s, c);
    let a = s.len() - mid.len();
    lemma_trim_end_char(mid, c);
    let end = text::trim_end_char(mid, c);
    assert(end =~= s.subrange(a, a + end.len()));
}

proof fn lemma_trim_start_char(s: Seq<char>, c: char)
    ensures
        text::trim_start_char(s, c).len() <= s.len(),
        text::trim_start_char(s, c) == s.skip(s.len() - text::trim_start_char(s, c).len()),
        text::trim_start_char(s, c).len() > 0 ==> text::trim_start_char(s, c)[0] != c,
    decreases s.len(),
{
    if s.len() > 0 && s[0] == c {
        lemma_trim_start_char(s.drop_first(), c);
        assert(s.drop_first().skip(s.len() - 1 - text::trim_start_char(s, c).len()) =~= s.skip(
            s.len() - text::trim_start_char(s, c).len(),
        ));
    } else {
        assert(s.skip(0) =~= s);
    }
}

proof fn lemma_trim_end_char(s: Seq<char>, c: char)
    ensures
        text::trim_end_char(s, c).len() <= s.len(),
        text::trim_end_char(s, c) == s.take(text::trim_end_char(s, c).len() as int),
        text::trim_end_char(s, c).len() > 0 ==> text::trim_end_char(s, c).last() != c,
        text::trim_end_char(s, c).len() > 0 ==> text::trim_end_char(s, c)[0] == s[0],
    decreases s.len(),
{
    if s.len() > 0 && s.last() == c {
        lemma_trim_end_char(s.drop_last(), c);
        assert(s.drop_last().take(text::trim_end_char(s, c).len() as int) =~= s.take(
            text::trim_end_char(s, c).len() as int,
        ));
    } else {
        assert(s.take(s.len() as int) =~= s);
    }
}

/// A slug holds only lower-case letters, digits, underscores and single dashes between them.
pub proof fn law_slug_is_clean(title: Seq<char>)
    ensures
        is_slug(slug_of(title)),
{
    let body = slug_body(title);
    lemma_slug_body(title);
    lemma_trim_char(body, '-');
    let (a, b) = choose|a: int, b: int|
        0 <= a <= b <= body.len() && #[trigger] body.subrange(a, b) == text::trim_char(body, '-');
    let s = slug_of(title);
    assert forall|i: int| 0 <= i < s.len() implies is_slug_char(#[trigger] s[i]) by {
        assert(s[i] == body[a + i]);
    }
    assert forall|i: int, j: int|
        0 <= i < s.len() && j == i + 1 && j < s.len() && (#[trigger] s[i]) == '-' implies (
    #[trigger] s[j]) != '-' by {
        assert(s[i] == body[a + i]);
        assert(s[j] == body[a + j]);
    }
}

// ---------------------------------------------------------------------------
// Branch names
// ---------------------------------------------------------------------------

/// The part of a change id that branch names carry: its first eight characters.
pub open spec fn branch_prefix_of(change_id: Seq<char>) -> Seq<char> {
    if change_id.len() > 8 {
        change_id.take(8)
    } else {
        change_id
    }
}

pub fn change_id_branch_prefix(change_id: &str) -> (r: String)
    ensures
        r@ == branch_prefix_of(change_id@),
{
    if char_count(change_id) > 8 {
        text_take(change_id, 8)
    } else {
        change_id.to_owned()
    }
}

pub open spec fn numbered(base: Seq<char>, k: nat) -> Seq<char> {
    base + "-"@ + text::decimal(k)
}

/// The base if it is free, else the base with the least number from one on that makes it free.
pub open spec fn is_unused_branch(r: Seq<char>, base: Seq<char>, used: Seq<Seq<char>>) -> bool {
    if !used.contains(base) {
        r == base
    } else {
        exists|k: nat|
            {
                &&& k >= 1
                &&& r == #[trigger] numbered(base, k)
                &&& !used.contains(r)
                &&& forall|j: nat| 1 <= j < k ==> used.contains(#[trigger] numbered(base, j))
            }
    }
}

proof fn lemma_numbered_injective(base: Seq<char>, a: nat, b: nat)
    requires
        numbered(base, a) == numbered(base, b),
    ensures
        a == b,
{
    reveal_strlit("-");
    let n = base.len() as int + 1;
    assert(numbered(base, a).skip(n) =~= text::decimal(a));
    assert(numbered(base, b).skip(n) =~= text::decimal(b));
    text::law_decimal_reads_back(a);
    text::law_decimal_reads_back(b);
}

/// Distinct used names are at most as many as the list holds.
proof fn lemma_used_count(base: Seq<char>, used: Seq<Seq<char>>, k: nat)
    requires
        used.contains(base),
        forall|j: nat| 1 <= j <= k ==> used.contains(#[trigger] numbered(base, j)),
    ensures
        k + 1 <= used.len(),
{
    reveal_strlit("-");
    let names = Seq::new(k + 1, |j: int| if j == 0 {
        base
    } else {
        numbered(base, j as nat)
    });
    assert(names.no_duplicates()) by {
        assert forall|i: int, j: int| 0 <= i < names.len() && 0 <= j < names.len() && i
            != j implies names[i] != names[j] by {
            if i == 0 {
                assert(names[j].len() > base.len());
            } else if j == 0 {
                assert(names[i].len() > base.len());
            } else if names[i] == names[j] {
                lemma_numbered_injective(base, i as nat, j as nat);
            }
        }
    }
    names.unique_seq_to_set();
    let all = used.to_set();
    assert(names.to_set().subset_of(all)) by {
        assert forall|x: Seq<char>| names.to_set().contains(x) implies all.contains(x) by {
            let i = choose|i: int| 0 <= i < names.len() && names[i] == x;
            if i > 0 {
                assert(used.contains(numbered(base, i as nat)));
            }
        }
    }
    vstd::seq_lib::seq_to_set_is_finite(used);
    vstd::set_lib::lemma_len_subset(names.to_set(), all);
    used.lemma_cardinality_of_set();
}

pub fn find_unused_head_branch(base: &str, used_branches: &Vec<String>) -> (r: String)
    ensures
        is_unused_branch(r@, base@, used_branches.deep_view()),
        !used_branches.deep_view().contains(r@),
{
    if !list_contains(used_branches, base) {
        return base.to_owned();
    }
    let n: usize = used_branches.len();
    let mut i: u64 = 1;
    loop
        invariant
            n == used_branches@.len(),
            1 <= i <= n,
            used_branches.deep_view().contains(base@),
            forall|j: nat|
                1 <= j < i ==> used_branches.deep_view().contains(#[trigger] numbered(base@, j)),
        decreases n - i,
    {
        let candidate = cat3(base, "-", &number_text(i));
        assert(candidate@ == numbered(base@, i as nat));
        if !list_contains(used_branches, &candidate) {
            return candidate;
        }
        proof {
            assert forall|j: nat| 1 <= j <= i implies used_branches.deep_view().contains(
                #[trigger] numbered(base@, j),
            ) by {
                if j == i {
                }
            }
            lemma_used_count(base@, used_branches.deep_view(), i as nat);
        }
        i = i + 1;
    }
}

/// The name that a change's branch has when nothing else uses it.
pub open spec fn head_branch_base(
    config: AppConfigView,
    change: ResolvedChangeView,
) -> Seq<char> {
    let slug = slug_of(outside::decomposed(text::trim(change.title)));
    config.branch_prefix + "/"@ + (if slug.len() == 0 {
        "change"@
    } else {
        slug
    }) + "-"@ + branch_prefix_of(change.change_id)
}

pub fn deterministic_head_branch(
    config: &AppConfig,
    change: &ResolvedChange,
    used_branches: &Vec<String>,
) -> (r: String)
    ensures
        is_unused_branch(r@, head_branch_base(config@, change@), used_branches.deep_view()),
        !used_branches.deep_view().contains(r@),
{
    let slug = slugify_title(&change.title);
    let slug = if slug.as_str().is_empty() {
        "change".to_owned()
    } else {
        slug
    };
    let prefix = change_id_branch_prefix(&change.change_id);
    let base = cat5(&config.branch_prefix, "/", &slug, "-", &prefix);
    find_unused_head_branch(&base, used_branches)
}

/// Whether a branch is named after the change with this id prefix: the prefix stands at its end,
/// perhaps with a number behind it.
pub open spec fn branch_matches(branch: Seq<char>, prefix: Seq<char>) -> bool {
    text::ends_with(branch, "-"@ + prefix) || match text::rsplit_once(branch, "-"@ + prefix + "-"@) {
        Some((head, tail)) => tail.len() > 0 && text::all_digits(tail),
        None => false,
    }
}

pub fn head_branch_matches_change_prefix(branch: &str, prefix: &str) -> (r: bool)
    ensures
        r == branch_matches(branch@, prefix@),
{
    let exact = cat("-", prefix);
    if text_ends_with(branch, &exact) {
        return true;
    }
    let mut marker = exact;
    marker.append("-");
    match after_last(branch, &marker) {
        Some(tail) => {
            !tail.as_str().is_empty() && text_all_digits(&tail)
        },
        None => false,
    }
}

proof fn lemma_rfind_last(s: Seq<char>, pat: Seq<char>, i: int, from: int)
    requires
        text::stands_at(s, pat, i),
        i <= from,
        forall|j: int| i < j ==> !text::stands_at(s, pat, j),
    ensures
        text::rfind_from(s, pat, from) == Some(i),
    decreases from - i,
{
    if from > i {
        lemma_rfind_last(s, pat, i, from - 1);
    }
}

/// The branch that is made for a change is found again by the id of the change, whatever other
/// branches there are.
pub proof fn law_head_branch_matches_its_change(
    config: AppConfigView,
    change: ResolvedChangeView,
    used: Seq<Seq<char>>,
    branch: Seq<char>,
)
    requires
        is_unused_branch(branch, head_branch_base(config, change), used),
    ensures
        branch_matches(branch, branch_prefix_of(change.change_id)),
{
    reveal_strlit("-");
    let base = head_branch_base(config, change);
    let prefix = branch_prefix_of(change.change_id);
    let exact = "-"@ + prefix;
    let at = base.len() - exact.len();
    assert(base.skip(at) =~= exact);
    if used.contains(base) {
        let k = choose|k: nat| k >= 1 && branch == #[trigger] numbered(base, k);
        let pat = exact + "-"@;
        text::law_decimal_reads_back(k);
        assert(branch.subrange(at, at + pat.len()) =~= pat);
        assert forall|j: int| at < j implies !text::stands_at(branch, pat, j) by {
            if text::stands_at(branch, pat, j) {
                let end = j + pat.len() - 1;
                assert(branch.subrange(j, j + pat.len())[pat.len() - 1] == '-');
                assert(branch[end] == '-');
                assert(text::decimal(k)[end - base.len() - 1] == '-');
                assert(text::is_digit(text::decimal(k)[end - base.len() - 1]));
            }
        }
        lemma_rfind_last(branch, pat, at, branch.len() - pat.len());
        assert(branch.skip(at + pat.len()) =~= text::decimal(k));
    }
}

pub open spec fn branch_flags(prs: Seq<GhPrView>) -> Seq<Seq<char>>
    decreases prs.len(),
{
    if prs.len() == 0 {
        seq![]
    } else {
        branch_flags(prs.drop_last()) + seq!["--branch"@, prs.last().head_ref_name]
    }
}

pub open spec fn fetch_branches_args(remote: Seq<char>, prs: Seq<GhPrView>) -> Seq<Seq<char>> {
    seq!["git"@, "fetch"@, "--remote"@, remote] + branch_flags(prs)
}

fn fetch_args(remote: &str, prs: &Vec<GhPr>) -> (r: Vec<String>)
    ensures
        r.deep_view() == fetch_branches_args(remote@, prs.deep_view()),
{
    let ghost all = prs.deep_view();
    let mut args = words(&["git", "fetch", "--remote", remote]);
    let ghost front = seq!["git"@, "fetch"@, "--remote"@, remote@];
    assert(all.take(0) =~= Seq::<GhPrView>::empty());
    assert(args.deep_view() =~= front + branch_flags(all.take(0)));
    let mut i: usize = 0;
    while i < prs.len()
        invariant
            i <= prs@.len(),
            all == prs.deep_view(),
            args.deep_view() == front + branch_flags(all.take(i as int)),
        decreases prs@.len() - i,
    {
        let ghost before = args.deep_view();
        assert(all.take(i + 1).drop_last() =~= all.take(i as int));
        assert(all.take(i + 1).last() == prs@[i as int]@);
        args.push("--branch".to_owned());
        args.push(prs[i].head_ref_name.clone());
        assert(args.deep_view() =~= before + seq!["--branch"@, prs@[i as int]@.head_ref_name]);
        assert(args.deep_view() =~= front + branch_flags(all.take(i + 1)));
        i = i + 1;
    }
    assert(all.take(i as int) =~= all);
    args
}

/// The record from `before` to `after` holds the fetch of the head branches, or in a dry run the plan
/// of it.
pub open spec fn branches_fetched(
    before: Seq<Event>,
    after: Seq<Event>,
    remote: Seq<char>,
    prs: Seq<GhPrView>,
    dry_run: bool,
    r: Result<(), Seq<CauseView>>,
) -> bool {
    let args = fetch_branches_args(remote, prs);
    if dry_run {
        &&& after == before.push(Event::Said(LineView::Info("- "@ + output::shown("jj"@, args))))
        &&& r == Ok::<(), Seq<CauseView>>(())
    } else {
        &&& record::called(before, after, "jj"@, args)
        &&& r == match record::last_reply(after) {
            Err(e) => Err(e),
            Ok(output) => if output.success {
                Ok(())
            } else {
                Err(
                    error::plain(
                        "failed-command=`"@ + output::shown("jj"@, args)
                            + "` error=failed to fetch PR head branches "@ + pr::pr_refs(prs)
                            + "; an open PR branch may have been deleted or renamed: "@ + text::trim(
                            output.stderr,
                        ),
                    ),
                )
            },
        }
    }
}

pub fn fetch_get_branches<H: Host>(
    sh: &mut Shell<H>,
    config: &AppConfig,
    prs: &Vec<GhPr>,
    diagnostics: Diagnostics,
) -> (r: Result<(), Error>)
    ensures
        record::extends(old(sh).log(), final(sh).log()),
        branches_fetched(
            old(sh).log(),
            final(sh).log(),
            config@.remote,
            prs.deep_view(),
            diagnostics.dry_run,
            error::res_of(r),
        ),
{
    let args = fetch_args(&config.remote, prs);
    if diagnostics.dry_run {
        sh.say(Line::Info(cat("- ", &display_command("jj", &args))));
        return Ok(());
    }
    let reply = jj_run(sh, &args);
    match reply {
        Err(error) => Err(error),
        Ok(output) => if output.success {
            Ok(())
        } else {
            let mut message = cat5(
                "failed-command=`",
                &display_command("jj", &args),
                "` error=failed to fetch PR head branches ",
                &join_pr_refs(prs),
                "; an open PR branch may have been deleted or renamed: ",
            );
            message.append(&trimmed(&output.stderr));
            Err(fail(&message))
        },
    }
}

} // verus!
