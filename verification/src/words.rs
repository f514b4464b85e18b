//! What the operations on text keep.

use vstd::prelude::*;

use crate::text;

verus! {

/// Every character is white space.
pub open spec fn all_space(s: Seq<char>) -> bool {
    forall|i: int| 0 <= i < s.len() ==> text::is_space(#[trigger] s[i])
}

/// The text neither begins nor ends with white space.
pub open spec fn is_tight(s: Seq<char>) -> bool {
    s.len() > 0 ==> !text::is_space(s[0]) && !text::is_space(s.last())
}

/// The character stands nowhere in the text.
pub open spec fn is_without(s: Seq<char>, c: char) -> bool {
    forall|i: int| 0 <= i < s.len() ==> #[trigger] s[i] != c
}

proof fn lemma_trim_start(s: Seq<char>) -> (lead: Seq<char>)
    ensures
        s == lead + text::trim_start(s),
        all_space(lead),
        text::trim_start(s).len() > 0 ==> !text::is_space(text::trim_start(s)[0]),
    decreases s.len(),
{
    if s.len() > 0 && text::is_space(s[0]) {
        let rest = lemma_trim_start(s.drop_first());
        let lead = seq![s[0]] + rest;
        assert(s =~= lead + text::trim_start(s)) by {
            assert(s =~= seq![s[0]] + s.drop_first());
        }
        lead
    } else {
        assert(s =~= Seq::<char>::empty() + s);
        seq![]
    }
}

proof fn lemma_trim_end(s: Seq<char>) -> (tail: Seq<char>)
    ensures
        s == text::trim_end(s) + tail,
        all_space(tail),
        text::trim_end(s).len() > 0 ==> !text::is_space(text::trim_end(s).last()),
    decreases s.len(),
{
    if s.len() > 0 && text::is_space(s.last()) {
        let rest = lemma_trim_end(s.drop_last());
        let tail = rest.push(s.last());
        assert(s =~= text::trim_end(s) + tail) by {
            assert(s =~= s.drop_last().push(s.last()));
        }
        tail
    } else {
        assert(s =~= s + Seq::<char>::empty());
        seq![]
    }
}

/// The law of trimming: a text is its trimmed self between white space; what is trimmed neither begins
/// nor ends with white space, and only a text of white space is trimmed to nothing.
pub proof fn law_trim_takes_only_space(s: Seq<char>) -> (around: (Seq<char>, Seq<char>))
    ensures
        s == around.0 + text::trim(s) + around.1,
        all_space(around.0),
        all_space(around.1),
        is_tight(text::trim(s)),
        text::is_blank(s) <==> all_space(s),
        is_tight(s) ==> text::trim(s) == s,
{
    let lead = lemma_trim_start(s);
    let rest = text::trim_start(s);
    let tail = lemma_trim_end(rest);
    let core = text::trim(s);
    assert(s =~= lead + core + tail);
    if core.len() > 0 {
        assert(core[0] == rest[0]);
        assert(s[lead.len() as int] == core[0]);
    } else {
        assert forall|i: int| 0 <= i < s.len() implies text::is_space(#[trigger] s[i]) by {
            if i < lead.len() {
                assert(s[i] == lead[i]);
            } else {
                assert(s[i] == tail[i - lead.len()]);
            }
        }
    }
    if is_tight(s) {
        if lead.len() > 0 {
            assert(s[0] == lead[0]);
        }
        if tail.len() > 0 {
            assert(s.last() == tail.last());
        }
        assert(core =~= s);
    }
    (lead, tail)
}

/// The law of splitting: the pieces hold no separator, and put together with it they are the text.
pub proof fn law_split_joins_back(s: Seq<char>, c: char)
    ensures
        text::split(s, c).len() > 0,
        text::join(text::split(s, c), seq![c]) == s,
        forall|i: int| 0 <= i < text::split(s, c).len() ==> is_without(#[trigger] text::split(s, c)[i], c),
    decreases s.len(),
{
    text::lemma_until(s, c);
    let n = text::until(s, c) as int;
    if n < s.len() {
        let first = s.take(n);
        let rest = s.skip(n + 1);
        law_split_joins_back(rest, c);
        let parts = text::split(rest, c);
        let all = text::split(s, c);
        assert(all =~= seq![first] + parts);
        lemma_join_front(first, parts, seq![c]);
        assert(s =~= first + seq![c] + rest);
        assert forall|i: int| 0 <= i < all.len() implies is_without(#[trigger] all[i], c) by {
            if i > 0 {
                assert(all[i] == parts[i - 1]);
            }
        }
    }
}

pub proof fn lemma_join_front(first: Seq<char>, rest: Seq<Seq<char>>, sep: Seq<char>)
    requires
        rest.len() > 0,
    ensures
        text::join(seq![first] + rest, sep) == first + sep + text::join(rest, sep),
    decreases rest.len(),
{
    let all = seq![first] + rest;
    assert(all.last() == rest.last());
    assert(all.drop_last() =~= seq![first] + rest.drop_last());
    if rest.len() > 1 {
        lemma_join_front(first, rest.drop_last(), sep);
        assert(text::join(all, sep) =~= first + sep + text::join(rest, sep));
    } else {
        assert(all.drop_last() =~= seq![first]);
        assert(text::join(seq![first], sep) == first);
        assert(text::join(rest, sep) == rest[0]);
    }
}

/// The law of joining: pieces without the separator, put together with it, split into themselves.
pub proof fn law_join_splits_back(parts: Seq<Seq<char>>, c: char)
    requires
        parts.len() > 0,
        forall|i: int| 0 <= i < parts.len() ==> is_without(#[trigger] parts[i], c),
    ensures
        text::split(text::join(parts, seq![c]), c) == parts,
    decreases parts.len(),
{
    let s = text::join(parts, seq![c]);
    let first = parts[0];
    assert(is_without(parts[0], c));
    if parts.len() == 1 {
        text::lemma_until_at(s, c, s.len() as int);
        assert(text::split(s, c) =~= parts);
    } else {
        let rest = parts.drop_first();
        assert(parts =~= seq![first] + rest);
        lemma_join_front(first, rest, seq![c]);
        assert forall|i: int| 0 <= i < rest.len() implies is_without(#[trigger] rest[i], c) by {
            assert(rest[i] == parts[i + 1]);
        }
        law_join_splits_back(rest, c);
        let n = first.len() as int;
        assert(s[n] == c);
        assert forall|i: int| 0 <= i < n implies s[i] != c by {
            assert(s[i] == first[i]);
        }
        text::lemma_until_at(s, c, n);
        assert(s.take(n) =~= first);
        assert(s.skip(n + 1) =~= text::join(rest, seq![c]));
        assert(text::split(s, c) =~= parts);
    }
}

/// The text of these lines, each with its end.
pub open spec fn listing(rows: Seq<Seq<char>>) -> Seq<char>
    decreases rows.len(),
{
    if rows.len() == 0 {
        seq![]
    } else {
        rows[0] + seq!['\n'] + listing(rows.drop_first())
    }
}

/// The law of lines: a listing of lines reads back as these lines; and where none is blank and each is
/// trimmed, the filled lines are these lines too.
pub proof fn law_listing_reads_back(rows: Seq<Seq<char>>)
    requires
        forall|i: int|
            0 <= i < rows.len() ==> is_without(#[trigger] rows[i], '\n') && is_without(rows[i], '\r'),
    ensures
        text::lines(listing(rows)) == rows,
        (forall|i: int| 0 <= i < rows.len() ==> (#[trigger] rows[i]).len() > 0 && is_tight(rows[i]))
            ==> text::filled_lines(listing(rows)) == rows,
    decreases rows.len(),
{
    let s = listing(rows);
    if rows.len() > 0 {
        let first = rows[0];
        let rest = rows.drop_first();
        assert(is_without(rows[0], '\n'));
        assert forall|i: int| 0 <= i < rest.len() implies is_without(#[trigger] rest[i], '\n')
            && is_without(rest[i], '\r') by {
            assert(rest[i] == rows[i + 1]);
        }
        law_listing_reads_back(rest);
        let n = first.len() as int;
        assert(s[n] == '\n');
        assert forall|i: int| 0 <= i < n implies s[i] != '\n' by {
            assert(s[i] == first[i]);
        }
        text::lemma_until_at(s, '\n', n);
        assert(s.take(n) =~= first);
        assert(s.skip(n + 1) =~= listing(rest));
        if first.len() > 0 {
            assert(first[first.len() - 1] != '\r');
        }
        assert(text::lines(s) =~= rows);
    }
    if forall|i: int| 0 <= i < rows.len() ==> (#[trigger] rows[i]).len() > 0 && is_tight(rows[i]) {
        lemma_kept(rows);
    }
}

proof fn lemma_kept(rows: Seq<Seq<char>>)
    requires
        forall|i: int| 0 <= i < rows.len() ==> (#[trigger] rows[i]).len() > 0 && is_tight(rows[i]),
    ensures
        text::trimmed_kept(rows) == rows,
    decreases rows.len(),
{
    if rows.len() > 0 {
        let front = rows.drop_last();
        assert forall|i: int| 0 <= i < front.len() implies (#[trigger] front[i]).len() > 0
            && is_tight(front[i]) by {
            assert(front[i] == rows[i]);
        }
        lemma_kept(front);
        let last = rows[rows.len() - 1];
        law_trim_takes_only_space(last);
        assert(text::trimmed_kept(rows) =~= rows);
    }
}

/// The law of the filled lines: each is trimmed and not empty.
pub proof fn law_filled_lines_are_filled(s: Seq<char>, i: int)
    requires
        0 <= i < text::filled_lines(s).len(),
    ensures
        text::filled_lines(s)[i].len() > 0,
        is_tight(text::filled_lines(s)[i]),
{
    lemma_trimmed_kept(text::lines(s), i);
}

proof fn lemma_trimmed_kept(rows: Seq<Seq<char>>, i: int)
    requires
        0 <= i < text::trimmed_kept(rows).len(),
    ensures
        text::trimmed_kept(rows)[i].len() > 0,
        is_tight(text::trimmed_kept(rows)[i]),
    decreases rows.len(),
{
    if rows.len() > 0 {
        let rest = text::trimmed_kept(rows.drop_last());
        if i < rest.len() {
            lemma_trimmed_kept(rows.drop_last(), i);
        } else {
            law_trim_takes_only_space(rows.last());
        }
    }
}

/// The law of finding: the first place is one where the pattern stands, with none before it, and the last
/// place is one with none after it; what is cut there is the text before, the pattern and the text
/// after.
pub proof fn law_cut_is_at_the_place(s: Seq<char>, pat: Seq<char>)
    ensures
        text::find(s, pat) is Some <==> text::contains(s, pat),
        text::rfind(s, pat) is Some <==> text::contains(s, pat),
        forall|i: int, j: int|
            text::find(s, pat) == Some(i) && #[trigger] text::stands_at(s, pat, j) ==> #[trigger]
            text::stands_at(s, pat, i) && i <= j,
        forall|i: int, j: int|
            text::rfind(s, pat) == Some(i) && #[trigger] text::stands_at(s, pat, j) ==> #[trigger]
            text::stands_at(s, pat, i) && j <= i,
        text::split_once(s, pat) is Some <==> text::contains(s, pat),
        text::split_once(s, pat) matches Some(cut) ==> s == cut.0 + pat + cut.1,
        text::split_once(s, pat) matches Some(cut) ==> Some(cut.0.len() as int) == text::find(s, pat),
        text::rsplit_once(s, pat) is Some <==> text::contains(s, pat),
        text::rsplit_once(s, pat) matches Some(cut) ==> s == cut.0 + pat + cut.1,
        text::rsplit_once(s, pat) matches Some(cut) ==> Some(cut.0.len() as int) == text::rfind(
            s,
            pat,
        ),
{
    text::lemma_find_contains(s, pat);
    text::lemma_find_from(s, pat, 0);
    lemma_rfind(s, pat, s.len() - pat.len());
    assert forall|j: int| text::stands_at(s, pat, j) implies j <= s.len() - pat.len() by {}
    if text::find(s, pat) is Some {
        let i = text::find(s, pat)->0;
        assert(s =~= s.take(i) + s.subrange(i, i + pat.len()) + s.skip(i + pat.len()));
    }
    if text::rfind(s, pat) is Some {
        let i = text::rfind(s, pat)->0;
        assert(s =~= s.take(i) + s.subrange(i, i + pat.len()) + s.skip(i + pat.len()));
    }
}

proof fn lemma_rfind(s: Seq<char>, pat: Seq<char>, i: int)
    ensures
        match text::rfind_from(s, pat, i) {
            Some(k) => k <= i && text::stands_at(s, pat, k) && forall|j: int|
                k < j <= i ==> !text::stands_at(s, pat, j),
            None => forall|j: int| j <= i ==> !text::stands_at(s, pat, j),
        },
    decreases i + 1,
{
    if i >= 0 && !text::stands_at(s, pat, i) {
        lemma_rfind(s, pat, i - 1);
    }
}

/// The law of prefixes: a text begins with a prefix just where it is the prefix and what is left when
/// that is taken off; it ends with a suffix just where it is something and the suffix.
pub proof fn law_prefix_and_rest_make_the_text(pat: Seq<char>, rest: Seq<char>, s: Seq<char>)
    ensures
        text::strip_prefix(pat + rest, pat) == Some(rest),
        text::starts_with(pat + rest, pat),
        text::ends_with(rest + pat, pat),
        text::starts_with(s, pat) ==> text::strip_prefix(s, pat) is Some && s == pat
            + text::strip_prefix(s, pat)->0,
        text::strip_prefix(s, pat) is Some ==> text::starts_with(s, pat),
        text::ends_with(s, pat) ==> s == s.take(s.len() - pat.len()) + pat,
{
    assert((pat + rest).take(pat.len() as int) =~= pat);
    assert((pat + rest).skip(pat.len() as int) =~= rest);
    assert((rest + pat).skip((rest + pat).len() - pat.len()) =~= pat);
    if text::starts_with(s, pat) {
        assert(s =~= s.take(pat.len() as int) + s.skip(pat.len() as int));
    }
    if text::ends_with(s, pat) {
        assert(s =~= s.take(s.len() - pat.len()) + s.skip(s.len() - pat.len()));
    }
}

/// The law of case: lower case keeps the length and every character but the letters from A to Z, which
/// become the letters from a to z; and it changes nothing a second time.
pub proof fn law_lower_case_changes_letters_only(s: Seq<char>, i: int)
    requires
        0 <= i < s.len(),
    ensures
        text::lower_all(s).len() == s.len(),
        text::lower_all(text::lower_all(s)) == text::lower_all(s),
        !('A' <= s[i] <= 'Z') ==> text::lower_all(s)[i] == s[i],
        'A' <= s[i] <= 'Z' ==> text::lower_all(s)[i] as int - 'a' as int == s[i] as int - 'A' as int,
{
    assert(text::lower_all(text::lower_all(s)) =~= text::lower_all(s));
}

/// How many bytes a text takes.
pub open spec fn width(s: Seq<char>) -> nat
    decreases s.len(),
{
    if s.len() == 0 {
        0
    } else {
        text::utf8_width(s[0]) + width(s.drop_first())
    }
}

/// The law of the byte prefix: it begins the text and takes just so many bytes; there is none where the
/// text is shorter, or where a character would be cut.
pub proof fn law_byte_prefix_is_so_wide(s: Seq<char>, n: int)
    requires
        0 <= n,
    ensures
        text::byte_prefix(s, n) matches Some(prefix) ==> text::starts_with(s, prefix) && width(prefix)
            == n,
        text::byte_prefix(s, n) is None ==> forall|k: int|
            0 <= k <= s.len() ==> width(#[trigger] s.take(k)) != n,
    decreases s.len(),
{
    if n == 0 {
        assert(s.take(0) =~= seq![]);
    } else if s.len() > 0 && n >= text::utf8_width(s[0]) {
        let rest = s.drop_first();
        let left = n - text::utf8_width(s[0]);
        law_byte_prefix_is_so_wide(rest, left);
        match text::byte_prefix(rest, left) {
            Some(prefix) => {
                let whole = seq![s[0]] + prefix;
                assert(whole.drop_first() =~= prefix);
                assert(s.take(whole.len() as int) =~= whole) by {
                    assert(rest.take(prefix.len() as int) == prefix);
                    assert forall|i: int| 0 <= i < whole.len() implies s[i] == whole[i] by {
                        if i > 0 {
                            assert(rest.take(prefix.len() as int)[i - 1] == rest[i - 1]);
                        }
                    }
                }
            },
            None => {
                assert forall|k: int| 0 <= k <= s.len() implies width(#[trigger] s.take(k)) != n by {
                    if k > 0 {
                        assert(s.take(k).drop_first() =~= rest.take(k - 1));
                    }
                }
            },
        }
    } else {
        assert forall|k: int| 0 <= k <= s.len() implies width(#[trigger] s.take(k)) != n by {
            if k > 0 {
                assert(width(s.take(k)) >= text::utf8_width(s[0]));
            }
        }
    }
}

/// The law of the order: of two texts that differ, just one comes before the other, and what comes before
/// a text comes before all that come after it.
pub proof fn law_order_is_total(a: Seq<char>, b: Seq<char>, c: Seq<char>)
    ensures
        a != b <==> (text::comes_before(a, b) || text::comes_before(b, a)),
        !(text::comes_before(a, b) && text::comes_before(b, a)),
        text::comes_before(a, b) && text::comes_before(b, c) ==> text::comes_before(a, c),
        c.len() > 0 ==> text::comes_before(a, a + c),
{
    text::lemma_order_total(a, b);
    if text::comes_before(a, b) && text::comes_before(b, c) {
        text::lemma_order_transitive(a, b, c);
    }
    if c.len() > 0 {
        lemma_longer_comes_after(a, c);
    }
}

proof fn lemma_longer_comes_after(a: Seq<char>, c: Seq<char>)
    requires
        c.len() > 0,
    ensures
        text::comes_before(a, a + c),
    decreases a.len(),
{
    if a.len() > 0 {
        assert((a + c).drop_first() =~= a.drop_first() + c);
        lemma_longer_comes_after(a.drop_first(), c);
    }
}

} // verus!
