//! Paths as text, in the two ways in which systems write them.
//!
//! A Unix path parts its names by `/`. A Windows path may begin with a prefix, which names a drive, a
//! share or a device; after it, names are parted by `\` or `/`. Where the prefix begins with `\\?\`,
//! the path is verbatim: `\` alone parts its names, and `.` and `..` mean nothing special in it.

use vstd::prelude::*;

use crate::text;
use crate::text::{cat, cat3, chars, join_text, same, slice_text};

verus! {

/// How paths are written.
#[derive(Clone, Copy, Debug, PartialEq, Eq, Structural)]
pub enum PathStyle {
    Unix,
    Windows,
}

/// The characters that part names.
#[derive(Clone, Copy, Debug, PartialEq, Eq, Structural)]
pub enum Cut {
    Slash,
    Backslash,
    Either,
}

pub open spec fn is_sep(cut: Cut, c: char) -> bool {
    match cut {
        Cut::Slash => c == '/',
        Cut::Backslash => c == '\\',
        Cut::Either => c == '/' || c == '\\',
    }
}

pub open spec fn sep_at(s: Seq<char>, cut: Cut, i: int) -> bool {
    0 <= i < s.len() && is_sep(cut, s[i])
}

/// Where the first separator from `i` on stands; the end of the text where there is none.
pub open spec fn sep_from(s: Seq<char>, cut: Cut, i: int) -> int
    decreases s.len() - i,
{
    if i >= s.len() {
        s.len() as int
    } else if is_sep(cut, s[i]) {
        i
    } else {
        sep_from(s, cut, i + 1)
    }
}

/// A path that begins with `\\?\`.
pub open spec fn is_verbatim(s: Seq<char>) -> bool {
    s.len() >= 4 && s[0] == '\\' && s[1] == '\\' && s[2] == '?' && s[3] == '\\'
}

/// A drive, such as `C:`, stands at `i`.
pub open spec fn drive_at(s: Seq<char>, i: int) -> bool {
    i + 2 <= s.len() && ('a' <= s[i] <= 'z' || 'A' <= s[i] <= 'Z') && s[i + 1] == ':'
}

/// Where a server and its share, which begin at `i`, end.
pub open spec fn share_end(s: Seq<char>, cut: Cut, i: int) -> int {
    let server = sep_from(s, cut, i);
    let share = sep_from(s, cut, server + 1);
    if server + 1 < share {
        share
    } else {
        server
    }
}

/// How long the prefix of a path is: `C:`, `\\server\share`, `\\.\device`, `\\?\C:`,
/// `\\?\UNC\server\share` or `\\?\name`.
pub open spec fn prefix_len(style: PathStyle, s: Seq<char>) -> int {
    if style == PathStyle::Unix {
        0
    } else if is_verbatim(s) {
        if s.len() >= 8 && s[4] == 'U' && s[5] == 'N' && s[6] == 'C' && s[7] == '\\' {
            share_end(s, Cut::Backslash, 8)
        } else if drive_at(s, 4) && (s.len() == 6 || sep_at(s, Cut::Either, 6)) {
            6
        } else {
            sep_from(s, Cut::Backslash, 4)
        }
    } else if sep_at(s, Cut::Either, 0) && sep_at(s, Cut::Either, 1) {
        let server = sep_from(s, Cut::Either, 2);
        if s.len() >= 4 && s[2] == '.' && sep_at(s, Cut::Either, 3) {
            sep_from(s, Cut::Either, 4)
        } else if 2 < server && server < share_end(s, Cut::Either, 2) {
            share_end(s, Cut::Either, 2)
        } else {
            0
        }
    } else if drive_at(s, 0) {
        2
    } else {
        0
    }
}

/// What parts the names of a path that has no verbatim prefix.
pub open spec fn usual_cut(style: PathStyle) -> Cut {
    match style {
        PathStyle::Unix => Cut::Slash,
        PathStyle::Windows => Cut::Either,
    }
}

/// What parts the names of this path.
pub open spec fn cut_of(style: PathStyle, s: Seq<char>) -> Cut {
    if style == PathStyle::Windows && is_verbatim(s) {
        Cut::Backslash
    } else {
        usual_cut(style)
    }
}

/// Whether a separator follows the prefix of a path.
pub open spec fn is_rooted(style: PathStyle, s: Seq<char>) -> bool {
    sep_at(s, usual_cut(style), prefix_len(style, s))
}

/// Where the names of a path begin: behind its prefix and its root.
pub open spec fn body_start(style: PathStyle, s: Seq<char>) -> int {
    prefix_len(style, s) + if is_rooted(style, s) {
        1int
    } else {
        0
    }
}

/// The end of `from..to` without the separators at its end.
pub open spec fn trimmed_to(s: Seq<char>, cut: Cut, from: int, to: int) -> int
    decreases to - from,
{
    if from < to && is_sep(cut, s[to - 1]) {
        trimmed_to(s, cut, from, to - 1)
    } else {
        to
    }
}

/// Where the last name of `from..to` begins.
pub open spec fn last_name(s: Seq<char>, cut: Cut, from: int, to: int) -> int
    decreases to - from,
{
    if from < to && !is_sep(cut, s[to - 1]) {
        last_name(s, cut, from, to - 1)
    } else {
        to
    }
}

/// The directory that holds a path without `.` and `..` in it; a prefix, a root and the empty path
/// have none.
pub open spec fn parent_of(style: PathStyle, s: Seq<char>) -> Option<Seq<char>> {
    let cut = cut_of(style, s);
    let start = body_start(style, s);
    let end = trimmed_to(s, cut, start, s.len() as int);
    if end <= start {
        None
    } else {
        Some(s.take(trimmed_to(s, cut, start, last_name(s, cut, start, end))))
    }
}

/// The names from `i` on.
pub open spec fn names_from(s: Seq<char>, cut: Cut, i: int) -> Seq<Seq<char>>
    decreases s.len() - i,
{
    if i >= s.len() {
        seq![]
    } else if is_sep(cut, s[i]) {
        names_from(s, cut, i + 1)
    } else {
        proof {
            lemma_sep_from(s, cut, i + 1);
        }
        seq![s.subrange(i, sep_from(s, cut, i))] + names_from(s, cut, sep_from(s, cut, i))
    }
}

/// Where a name leads: `.` stays, `..` goes up by a name, any other goes down.
pub open spec fn stepped(at: Seq<Seq<char>>, name: Seq<char>) -> Seq<Seq<char>> {
    if name == "."@ {
        at
    } else if name == ".."@ {
        if at.len() > 0 && at.last() != "."@ && at.last() != ".."@ {
            at.drop_last()
        } else {
            at
        }
    } else {
        at.push(name)
    }
}

/// Where names lead, one after the other.
pub open spec fn walked(at: Seq<Seq<char>>, names: Seq<Seq<char>>) -> Seq<Seq<char>>
    decreases names.len(),
{
    if names.len() == 0 {
        at
    } else {
        stepped(walked(at, names.drop_last()), names.last())
    }
}

/// A path without prefix below a verbatim one: `.` and `..` are resolved, and `\` parts the names.
pub open spec fn verbatim_below(dir: Seq<char>, rest: Seq<char>) -> Seq<char> {
    let style = PathStyle::Windows;
    let names = walked(
        if is_rooted(style, rest) {
            seq![]
        } else {
            names_from(dir, Cut::Backslash, body_start(style, dir))
        },
        names_from(rest, Cut::Either, 0),
    );
    let prefix = dir.take(prefix_len(style, dir));
    if names.len() == 0 && !is_rooted(style, dir) && !is_rooted(style, rest) {
        prefix
    } else {
        prefix + "\\"@ + text::join(names, "\\"@)
    }
}

/// What parts two names that are put together.
pub open spec fn sep_text(style: PathStyle) -> Seq<char> {
    match style {
        PathStyle::Unix => "/"@,
        PathStyle::Windows => "\\"@,
    }
}

/// `rest` below `dir`. An absolute `rest`, or one with a prefix, stands alone; one that begins at the
/// root keeps the prefix of `dir` alone.
pub open spec fn path_below(style: PathStyle, dir: Seq<char>, rest: Seq<char>) -> Seq<char> {
    if prefix_len(style, rest) > 0 {
        rest
    } else if style == PathStyle::Windows && is_verbatim(dir) && rest.len() > 0 {
        verbatim_below(dir, rest)
    } else if is_rooted(style, rest) {
        dir.take(prefix_len(style, dir)) + rest
    } else if dir.len() == 0 || is_sep(usual_cut(style), dir.last()) {
        dir + rest
    } else if style == PathStyle::Windows && dir.len() == 2 && drive_at(dir, 0) {
        dir + rest
    } else {
        dir + sep_text(style) + rest
    }
}

pub proof fn lemma_sep_from(s: Seq<char>, cut: Cut, i: int)
    requires
        i <= s.len(),
    ensures
        i <= sep_from(s, cut, i) <= s.len(),
        forall|j: int| i <= j < sep_from(s, cut, i) ==> !is_sep(cut, #[trigger] s[j]),
        sep_from(s, cut, i) < s.len() ==> is_sep(cut, s[sep_from(s, cut, i)]),
    decreases s.len() - i,
{
    if i < s.len() && !is_sep(cut, s[i]) {
        lemma_sep_from(s, cut, i + 1);
    }
}

proof fn lemma_sep_in_front(s: Seq<char>, cut: Cut, i: int, k: int)
    requires
        0 <= i <= k <= s.len(),
    ensures
        sep_from(s.take(k), cut, i) == if sep_from(s, cut, i) < k {
            sep_from(s, cut, i)
        } else {
            k
        },
    decreases k - i,
{
    lemma_sep_from(s, cut, i);
    if i < k {
        assert(s.take(k)[i] == s[i]);
        if !is_sep(cut, s[i]) {
            lemma_sep_in_front(s, cut, i + 1, k);
        }
    }
}

proof fn lemma_prefix_bounds(style: PathStyle, s: Seq<char>)
    ensures
        0 <= prefix_len(style, s) <= s.len(),
        style == PathStyle::Windows && is_verbatim(s) ==> prefix_len(style, s) >= 4,
{
    if style == PathStyle::Windows {
        if is_verbatim(s) {
            lemma_sep_from(s, Cut::Backslash, 4);
            if s.len() >= 8 {
                lemma_share_in_front(s, Cut::Backslash, 8, 8);
            }
        } else if sep_at(s, Cut::Either, 0) && sep_at(s, Cut::Either, 1) {
            lemma_share_in_front(s, Cut::Either, 2, 2);
            if s.len() >= 4 {
                lemma_sep_from(s, Cut::Either, 4);
            }
        }
    }
}

/// The front of a path has the prefix and the root of the path, where it reaches beyond them by three
/// characters.
pub proof fn lemma_front_keeps_start(style: PathStyle, s: Seq<char>, k: int)
    requires
        body_start(style, s) + 3 <= k < s.len(),
    ensures
        cut_of(style, s.take(k)) == cut_of(style, s),
        prefix_len(style, s.take(k)) == prefix_len(style, s),
        body_start(style, s.take(k)) == body_start(style, s),
{
    let t = s.take(k);
    lemma_prefix_bounds(style, s);
    if style == PathStyle::Windows {
        if is_verbatim(s) {
            lemma_sep_in_front(s, Cut::Backslash, 4, k);
            if s.len() >= 8 && s[4] == 'U' && s[5] == 'N' && s[6] == 'C' && s[7] == '\\' {
                lemma_share_in_front(s, Cut::Backslash, 8, 8);
                lemma_share_in_front(s, Cut::Backslash, 8, k);
            }
        } else if sep_at(s, Cut::Either, 0) && sep_at(s, Cut::Either, 1) {
            lemma_sep_in_front(s, Cut::Either, 2, k);
            lemma_share_in_front(s, Cut::Either, 2, k);
            if s[2] == '.' && sep_at(s, Cut::Either, 3) {
                lemma_sep_in_front(s, Cut::Either, 4, k);
            }
        }
    }
    assert(prefix_len(style, t) == prefix_len(style, s));
}

proof fn lemma_share_in_front(s: Seq<char>, cut: Cut, i: int, k: int)
    requires
        0 <= i <= k <= s.len(),
    ensures
        i <= sep_from(s, cut, i) <= share_end(s, cut, i) <= s.len(),
        share_end(s, cut, i) < k ==> share_end(s.take(k), cut, i) == share_end(s, cut, i),
        share_end(s, cut, i) == sep_from(s, cut, i) ==> share_end(s.take(k), cut, i) == sep_from(
            s.take(k),
            cut,
            i,
        ),
{
    let server = sep_from(s, cut, i);
    lemma_sep_from(s, cut, i);
    lemma_sep_in_front(s, cut, i, k);
    if server < s.len() {
        lemma_sep_from(s, cut, server + 1);
        if server < k {
            lemma_sep_in_front(s, cut, server + 1, k);
        }
    }
    assert(sep_from(s.take(k), cut, k + 1) == k);
}

fn char_is_sep(cut: Cut, c: char) -> (r: bool)
    ensures
        r == is_sep(cut, c),
{
    match cut {
        Cut::Slash => c == '/',
        Cut::Backslash => c == '\\',
        Cut::Either => c == '/' || c == '\\',
    }
}

fn char_is_sep_at(v: &Vec<char>, cut: Cut, i: usize) -> (r: bool)
    ensures
        r == sep_at(v@, cut, i as int),
{
    i < v.len() && char_is_sep(cut, v[i])
}

fn next_sep(v: &Vec<char>, cut: Cut, i: usize) -> (r: usize)
    requires
        i <= v@.len(),
    ensures
        i <= r <= v@.len(),
        r == sep_from(v@, cut, i as int),
{
    let mut j: usize = i;
    while j < v.len() && !char_is_sep(cut, v[j])
        invariant
            i <= j <= v@.len(),
            sep_from(v@, cut, i as int) == sep_from(v@, cut, j as int),
        decreases v@.len() - j,
    {
        j = j + 1;
    }
    j
}

fn next_share(v: &Vec<char>, cut: Cut, i: usize) -> (r: usize)
    requires
        i <= v@.len(),
    ensures
        i <= r <= v@.len(),
        r == share_end(v@, cut, i as int),
{
    let server = next_sep(v, cut, i);
    if server >= v.len() {
        return server;
    }
    let share = next_sep(v, cut, server + 1);
    if server + 1 < share {
        share
    } else {
        server
    }
}

fn drive_stands_at(v: &Vec<char>, i: usize) -> (r: bool)
    requires
        i <= v@.len(),
    ensures
        r == drive_at(v@, i as int),
{
    v.len() - i >= 2 && (('a' <= v[i] && v[i] <= 'z') || ('A' <= v[i] && v[i] <= 'Z')) && v[i + 1]
        == ':'
}

fn begins_verbatim(v: &Vec<char>) -> (r: bool)
    ensures
        r == is_verbatim(v@),
{
    v.len() >= 4 && v[0] == '\\' && v[1] == '\\' && v[2] == '?' && v[3] == '\\'
}

fn prefix_end(style: PathStyle, v: &Vec<char>) -> (r: usize)
    ensures
        r <= v@.len(),
        r == prefix_len(style, v@),
{
    if style == PathStyle::Unix {
        0
    } else if begins_verbatim(v) {
        if v.len() >= 8 && v[4] == 'U' && v[5] == 'N' && v[6] == 'C' && v[7] == '\\' {
            next_share(v, Cut::Backslash, 8)
        } else if drive_stands_at(v, 4) && (v.len() == 6 || char_is_sep_at(v, Cut::Either, 6)) {
            6
        } else {
            next_sep(v, Cut::Backslash, 4)
        }
    } else if char_is_sep_at(v, Cut::Either, 0) && char_is_sep_at(v, Cut::Either, 1) {
        if v.len() >= 4 && v[2] == '.' && char_is_sep_at(v, Cut::Either, 3) {
            next_sep(v, Cut::Either, 4)
        } else {
            let server = next_sep(v, Cut::Either, 2);
            let share = next_share(v, Cut::Either, 2);
            if 2 < server && server < share {
                share
            } else {
                0
            }
        }
    } else if drive_stands_at(v, 0) {
        2
    } else {
        0
    }
}

fn usual_separators(style: PathStyle) -> (r: Cut)
    ensures
        r == usual_cut(style),
{
    match style {
        PathStyle::Unix => Cut::Slash,
        PathStyle::Windows => Cut::Either,
    }
}

fn has_root(style: PathStyle, v: &Vec<char>) -> (r: bool)
    ensures
        r == is_rooted(style, v@),
{
    char_is_sep_at(v, usual_separators(style), prefix_end(style, v))
}

fn body_begin(style: PathStyle, v: &Vec<char>) -> (r: usize)
    ensures
        r <= v@.len(),
        r == body_start(style, v@),
{
    let prefix = prefix_end(style, v);
    if has_root(style, v) {
        assert(prefix < v.len());
        prefix + 1
    } else {
        prefix
    }
}

fn trim_back(v: &Vec<char>, cut: Cut, from: usize, to: usize) -> (r: usize)
    requires
        from <= to <= v@.len(),
    ensures
        from <= r <= to,
        r == trimmed_to(v@, cut, from as int, to as int),
{
    let mut end: usize = to;
    while from < end && char_is_sep(cut, v[end - 1])
        invariant
            from <= end <= to <= v@.len(),
            trimmed_to(v@, cut, from as int, to as int) == trimmed_to(
                v@,
                cut,
                from as int,
                end as int,
            ),
        decreases end,
    {
        end = end - 1;
    }
    end
}

fn name_back(v: &Vec<char>, cut: Cut, from: usize, to: usize) -> (r: usize)
    requires
        from <= to <= v@.len(),
    ensures
        from <= r <= to,
        r == last_name(v@, cut, from as int, to as int),
{
    let mut start: usize = to;
    while from < start && !char_is_sep(cut, v[start - 1])
        invariant
            from <= start <= to <= v@.len(),
            last_name(v@, cut, from as int, to as int) == last_name(
                v@,
                cut,
                from as int,
                start as int,
            ),
        decreases start,
    {
        start = start - 1;
    }
    start
}

/// The directory that holds a path.
pub fn parent_path(style: PathStyle, path: &str) -> (r: Option<String>)
    ensures
        r.deep_view() == parent_of(style, path@),
{
    let v = chars(path);
    let cut = if style == PathStyle::Windows && begins_verbatim(&v) {
        Cut::Backslash
    } else {
        usual_separators(style)
    };
    let start = body_begin(style, &v);
    let end = trim_back(&v, cut, start, v.len());
    if end <= start {
        None
    } else {
        let name = name_back(&v, cut, start, end);
        let held = trim_back(&v, cut, start, name);
        assert(v@.subrange(0, held as int) =~= v@.take(held as int));
        Some(slice_text(&v, 0, held))
    }
}

fn list_names(v: &Vec<char>, cut: Cut, from: usize) -> (r: Vec<String>)
    requires
        from <= v@.len(),
    ensures
        r.deep_view() == names_from(v@, cut, from as int),
{
    let mut out: Vec<String> = Vec::new();
    let mut i: usize = from;
    assert(out.deep_view() =~= seq![]);
    assert(out.deep_view() + names_from(v@, cut, from as int) =~= names_from(v@, cut, from as int));
    while i < v.len()
        invariant
            from <= i <= v@.len(),
            out.deep_view() + names_from(v@, cut, i as int) == names_from(v@, cut, from as int),
        decreases v@.len() - i,
    {
        if char_is_sep(cut, v[i]) {
            i = i + 1;
        } else {
            let end = next_sep(v, cut, i);
            let ghost before = out.deep_view();
            let name = slice_text(v, i, end);
            proof {
                lemma_sep_from(v@, cut, i + 1);
            }
            out.push(name);
            assert(out.deep_view() =~= before.push(v@.subrange(i as int, end as int)));
            assert(before + names_from(v@, cut, i as int) =~= out.deep_view() + names_from(
                v@,
                cut,
                end as int,
            ));
            i = end;
        }
    }
    assert(out.deep_view() + names_from(v@, cut, i as int) =~= out.deep_view());
    out
}

fn walk_names(at: Vec<String>, names: &Vec<String>) -> (r: Vec<String>)
    ensures
        r.deep_view() == walked(at.deep_view(), names.deep_view()),
{
    let ghost from = at.deep_view();
    let ghost all = names.deep_view();
    let mut at = at;
    let mut i: usize = 0;
    assert(all.take(0) =~= seq![]);
    while i < names.len()
        invariant
            i <= names@.len(),
            all == names.deep_view(),
            at.deep_view() == walked(from, all.take(i as int)),
        decreases names@.len() - i,
    {
        let ghost before = at.deep_view();
        let name: &str = names[i].as_str();
        assert(all.take(i + 1).drop_last() =~= all.take(i as int));
        assert(all.take(i + 1).last() == name@);
        if same(name, ".") {
        } else if same(name, "..") {
            let n = at.len();
            if n > 0 && !same(&at[n - 1], ".") && !same(&at[n - 1], "..") {
                at.pop();
                assert(at.deep_view() =~= before.drop_last());
            }
        } else {
            at.push(name.to_owned());
            assert(at.deep_view() =~= before.push(name@));
        }
        i = i + 1;
    }
    assert(all.take(i as int) =~= all);
    at
}

fn join_verbatim(d: &Vec<char>, r: &Vec<char>) -> (joined: String)
    ensures
        joined@ == verbatim_below(d@, r@),
{
    let style = PathStyle::Windows;
    let at = if has_root(style, r) {
        let none: Vec<String> = Vec::new();
        assert(none.deep_view() =~= seq![]);
        none
    } else {
        list_names(d, Cut::Backslash, body_begin(style, d))
    };
    let names = walk_names(at, &list_names(r, Cut::Either, 0));
    let end = prefix_end(style, d);
    let prefix = slice_text(d, 0, end);
    assert(d@.subrange(0, end as int) =~= d@.take(end as int));
    if names.len() == 0 && !has_root(style, d) && !has_root(style, r) {
        prefix
    } else {
        cat3(&prefix, "\\", &join_text(&names, "\\"))
    }
}

/// Puts a path below a directory.
pub fn join_path(style: PathStyle, dir: &str, rest: &str) -> (r: String)
    ensures
        r@ == path_below(style, dir@, rest@),
{
    let d = chars(dir);
    let r = chars(rest);
    if prefix_end(style, &r) > 0 {
        rest.to_owned()
    } else if style == PathStyle::Windows && begins_verbatim(&d) && r.len() > 0 {
        join_verbatim(&d, &r)
    } else if has_root(style, &r) {
        let end = prefix_end(style, &d);
        assert(d@.subrange(0, end as int) =~= d@.take(end as int));
        cat(&slice_text(&d, 0, end), rest)
    } else if d.len() == 0 || char_is_sep(usual_separators(style), d[d.len() - 1]) {
        cat(dir, rest)
    } else if style == PathStyle::Windows && d.len() == 2 && drive_stands_at(&d, 0) {
        cat(dir, rest)
    } else {
        match style {
            PathStyle::Unix => cat3(dir, "/", rest),
            PathStyle::Windows => cat3(dir, "\\", rest),
        }
    }
}

} // verus!
