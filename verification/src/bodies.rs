//! The text of the comment that lists a stack.

use vstd::prelude::*;

use crate::branches;
use crate::branches::change_id_branch_prefix;
use crate::comments;
use crate::comments::STACK_COMMENT_MARKER;
use crate::model::{
    AppContext, AppContextView, Duplicate, FrozenDependency, FrozenDependencyView, GhPr, GhPrView,
    GitHubContext, PrCacheEntry, PrCacheEntryView, ResolvedChange, ResolvedChangeView,
};
use crate::pr;
use crate::pr::github_pr_url;
use crate::text;
use crate::text::{
    cat, cat3, cat5, char_is_control, chars, number_text, same, slice_text, split_text,
    text_all_digits, text_byte_prefix, trimmed,
};

verus! {

// ---------------------------------------------------------------------------
// Pieces of a line
// ---------------------------------------------------------------------------

/// A character as it stands in the label of a Markdown link.
pub open spec fn label_char(c: char) -> Seq<char> {
    if c == '&' {
        "&amp;"@
    } else if c == '<' {
        "&lt;"@
    } else if c == '>' {
        "&gt;"@
    } else if c == '\\' || c == '[' || c == ']' {
        seq!['\\', c]
    } else if c == '\n' || c == '\r' || c == '\t' {
        seq![' ']
    } else if text::is_control(c) {
        seq![]
    } else {
        seq![c]
    }
}

/// A text as the label of a Markdown link.
pub open spec fn link_label(s: Seq<char>) -> Seq<char>
    decreases s.len(),
{
    if s.len() == 0 {
        seq![]
    } else {
        link_label(s.drop_last()) + label_char(s.last())
    }
}

pub fn markdown_link_label(value: &str) -> (r: String)
    ensures
        r@ == link_label(value@),
{
    let v = chars(value);
    let mut out = String::new();
    let mut i: usize = 0;
    assert(out@ =~= link_label(v@.take(0)));
    while i < v.len()
        invariant
            i <= v@.len(),
            v@ == value@,
            out@ == link_label(v@.take(i as int)),
        decreases v@.len() - i,
    {
        let ghost before = out@;
        assert(v@.take(i + 1).drop_last() =~= v@.take(i as int));
        assert(v@.take(i + 1).last() == v@[i as int]);
        let c = v[i];
        if c == '&' {
            out.append("&amp;");
        } else if c == '<' {
            out.append("&lt;");
        } else if c == '>' {
            out.append("&gt;");
        } else if c == '\\' || c == '[' || c == ']' {
            out.push('\\');
            out.push(c);
            assert(out@ =~= before + seq!['\\', c]);
        } else if c == '\n' || c == '\r' || c == '\t' {
            out.push(' ');
            assert(out@ =~= before + seq![' ']);
        } else if char_is_control(c) {
            assert(out@ =~= before + Seq::<char>::empty());
        } else {
            out.push(c);
            assert(out@ =~= before + seq![c]);
        }
        i = i + 1;
    }
    assert(v@.take(i as int) =~= v@);
    out
}

/// A text with its first `from` replaced.
pub open spec fn first_replaced(s: Seq<char>, from: char, to: char) -> Seq<char> {
    let n = text::until(s, from);
    if n < s.len() {
        s.update(n as int, to)
    } else {
        s
    }
}

fn replace_first(s: &str, from: char, to: char) -> (r: String)
    ensures
        r@ == first_replaced(s@, from, to),
{
    let mut v = chars(s);
    let n: usize = v.len();
    let mut i: usize = 0;
    while i < n && v[i] != from
        invariant
            i <= n == v@.len(),
            v@ == s@,
            forall|k: int| 0 <= k < i ==> v@[k] != from,
        decreases n - i,
    {
        i = i + 1;
    }
    proof {
        text::lemma_until_at(s@, from, i as int);
    }
    if i < n {
        v.set(i, to);
    }
    assert(v@.subrange(0, n as int) =~= v@);
    slice_text(&v, 0, n)
}

/// The time of an ISO date as a reader sees it: `YYYY-MM-DD HH:MM:SS`, or what there is of it.
pub open spec fn stamp_of(created_at: Seq<char>) -> Seq<char> {
    let front = match text::byte_prefix(created_at, 19) {
        Some(front) => front,
        None => created_at,
    };
    first_replaced(text::trim(front), 'T', ' ')
}

pub open spec fn date_fragment(created_at: Seq<char>) -> Seq<char> {
    if stamp_of(created_at).len() == 0 {
        seq![]
    } else {
        " · "@ + stamp_of(created_at)
    }
}

pub fn created_date_fragment(created_at: &str) -> (r: String)
    ensures
        r@ == date_fragment(created_at@),
{
    let front = match text_byte_prefix(created_at, 19) {
        Some(front) => front,
        None => created_at.to_owned(),
    };
    let stamp = replace_first(&trimmed(&front), 'T', ' ');
    if stamp.as_str().is_empty() {
        String::new()
    } else {
        cat(" · ", &stamp)
    }
}

/// The part of a head branch that names its change: the last word, or the one before a number.
pub open spec fn change_hint(head_branch: Seq<char>) -> Seq<char> {
    let last = text::split(head_branch, '/').last();
    let words = text::split(last, '-');
    if text::all_digits(words.last()) && words.len() > 1 {
        words[words.len() - 2]
    } else {
        words.last()
    }
}

proof fn lemma_split_some(s: Seq<char>, c: char)
    ensures
        text::split(s, c).len() > 0,
    decreases s.len(),
{
    text::lemma_until(s, c);
}

pub fn stack_comment_change_hint(head_branch: &str) -> (r: String)
    ensures
        r@ == change_hint(head_branch@),
{
    let parts = split_text(head_branch, '/');
    proof {
        lemma_split_some(head_branch@, '/');
        assert(parts@.len() == parts.deep_view().len());
    }
    let n: usize = parts.len();
    assert(parts.deep_view().last() == parts@[n - 1]@);
    let pieces = split_text(&parts[n - 1], '-');
    proof {
        lemma_split_some(parts@[n - 1]@, '-');
        assert(pieces@.len() == pieces.deep_view().len());
    }
    let m: usize = pieces.len();
    assert(pieces.deep_view().last() == pieces@[m - 1]@);
    if text_all_digits(&pieces[m - 1]) && m > 1 {
        assert(pieces.deep_view()[m - 2] == pieces@[m - 2]@);
        pieces[m - 2].clone()
    } else {
        pieces[m - 1].clone()
    }
}

// ---------------------------------------------------------------------------
// Lines
// ---------------------------------------------------------------------------

/// A pull request as the comment lists it.
pub struct CommentRow {
    pub title: String,
    pub number: u64,
    pub hint: String,
    pub created_at: String,
    pub is_current: bool,
}

pub struct CommentRowView {
    pub title: Seq<char>,
    pub number: u64,
    pub hint: Seq<char>,
    pub created_at: Seq<char>,
    pub is_current: bool,
}

impl View for CommentRow {
    type V = CommentRowView;

    open spec fn view(&self) -> CommentRowView {
        CommentRowView {
            title: self.title@,
            number: self.number,
            hint: self.hint@,
            created_at: self.created_at@,
            is_current: self.is_current,
        }
    }
}

impl DeepView for CommentRow {
    type V = CommentRowView;

    open spec fn deep_view(&self) -> CommentRowView {
        self@
    }
}

/// The link to a pull request.
pub open spec fn row_link(repo: Seq<char>, row: CommentRowView) -> Seq<char> {
    "["@ + link_label(row.title) + " #"@ + text::decimal(row.number as nat) + "]("@ + pr::pr_url(
        repo,
        row.number,
    ) + ")"@
}

/// One line of the list, with the current pull request in bold and marked.
pub open spec fn row_line(repo: Seq<char>, row: CommentRowView) -> Seq<char> {
    "- "@ + if row.is_current {
        "**"@ + row_link(repo, row) + "**"@
    } else {
        row_link(repo, row)
    } + " _"@ + row.hint + "_"@ + date_fragment(row.created_at) + if row.is_current {
        " 👈"@
    } else {
        ""@
    } + "\n"@
}

/// Appends the line of a pull request.
pub fn push_stack_comment_line(body: &mut String, repo: &str, row: &CommentRow)
    ensures
        final(body)@ == old(body)@ + row_line(repo@, row@),
{
    let ghost before = body@;
    let mut link = cat5(
        "[",
        &markdown_link_label(&row.title),
        " #",
        &number_text(row.number),
        "](",
    );
    link.append(&github_pr_url(repo, row.number));
    link.append(")");
    let mut line = "- ".to_owned();
    if row.is_current {
        line.append(&cat3("**", &link, "**"));
    } else {
        line.append(&link);
    }
    line.append(" _");
    line.append(&row.hint);
    line.append("_");
    line.append(&created_date_fragment(&row.created_at));
    if row.is_current {
        line.append(" 👈");
    } else {
        line.append("");
    }
    line.append("\n");
    body.append(&line);
}

pub open spec fn rows_text(repo: Seq<char>, rows: Seq<CommentRowView>) -> Seq<char>
    decreases rows.len(),
{
    if rows.len() == 0 {
        seq![]
    } else {
        rows_text(repo, rows.drop_last()) + row_line(repo, rows.last())
    }
}

fn push_rows(body: &mut String, repo: &str, rows: &Vec<CommentRow>)
    ensures
        final(body)@ == old(body)@ + rows_text(repo@, rows.deep_view()),
{
    let ghost before = body@;
    let ghost view = rows.deep_view();
    let mut i: usize = 0;
    assert(body@ =~= before + rows_text(repo@, view.take(0)));
    while i < rows.len()
        invariant
            i <= rows@.len(),
            view == rows.deep_view(),
            body@ == before + rows_text(repo@, view.take(i as int)),
        decreases rows@.len() - i,
    {
        assert(view.take(i + 1).drop_last() =~= view.take(i as int));
        assert(view.take(i + 1).last() == rows@[i as int]@);
        push_stack_comment_line(body, repo, &rows[i]);
        assert(body@ =~= before + rows_text(repo@, view.take(i + 1)));
        i = i + 1;
    }
    assert(view.take(i as int) =~= view);
}

// ---------------------------------------------------------------------------
// The whole comment
// ---------------------------------------------------------------------------

pub open spec fn comment_head(repo: Seq<char>) -> Seq<char> {
    STACK_COMMENT_MARKER@ + "\nStack for "@ + repo + "\n\n"@
}

pub open spec fn checkout_line(current: Option<u64>) -> Seq<char> {
    match current {
        Some(number) => "Check out this stack: `forklift get "@ + text::decimal(number as nat) + "`\n"@,
        None => seq![],
    }
}

pub open spec fn comment_foot(trunk: Seq<char>, current: Option<u64>) -> Seq<char> {
    "- "@ + trunk + "\n"@ + "\n"@ + checkout_line(current)
        + "Pull/update this stack: `forklift sync`\n"@
        + "Publish local edits: `forklift submit`\n"@ + "Merge when ready: `forklift merge`\n"@
}

/// The comment: the stack from its top down to trunk, then what to do with it.
pub open spec fn comment_body(
    repo: Seq<char>,
    rows: Seq<CommentRowView>,
    below: Option<Seq<CommentRowView>>,
    trunk: Seq<char>,
    current: Option<u64>,
) -> Seq<char> {
    match below {
        None => comment_head(repo) + rows_text(repo, rows) + comment_foot(trunk, current),
        Some(below) => comment_head(repo) + "Current stack:\n"@ + rows_text(repo, rows)
            + "\nDependencies:\n"@ + rows_text(repo, below) + comment_foot(trunk, current),
    }
}

fn render_comment(
    repo: &str,
    rows: &Vec<CommentRow>,
    below: &Option<Vec<CommentRow>>,
    trunk: &str,
    current: Option<u64>,
) -> (r: String)
    ensures
        r@ == comment_body(repo@, rows.deep_view(), below.deep_view(), trunk@, current),
{
    let mut body = STACK_COMMENT_MARKER.to_owned();
    body.append("\nStack for ");
    body.append(repo);
    body.append("\n\n");
    assert(body@ == comment_head(repo@));
    match below {
        None => {
            push_rows(&mut body, repo, rows);
        },
        Some(below) => {
            body.append("Current stack:\n");
            push_rows(&mut body, repo, rows);
            body.append("\nDependencies:\n");
            push_rows(&mut body, repo, below);
        },
    }
    let mut foot = "- ".to_owned();
    foot.append(trunk);
    foot.append("\n");
    foot.append("\n");
    match current {
        Some(number) => {
            foot.append(
                &cat3("Check out this stack: `forklift get ", &number_text(number), "`\n"),
            );
        },
        None => {
            let ghost before = foot@;
            foot.append(&String::new());
            assert(foot@ =~= before + Seq::<char>::empty());
        },
    }
    foot.append("Pull/update this stack: `forklift sync`\n");
    foot.append("Publish local edits: `forklift submit`\n");
    foot.append("Merge when ready: `forklift merge`\n");
    assert(foot@ == comment_foot(trunk@, current));
    body.append(&foot);
    body
}

// ---------------------------------------------------------------------------
// The comment of a submitted stack
// ---------------------------------------------------------------------------

/// The entry of a change, the first where there are several.
pub open spec fn entry_for(
    entries: Seq<(Seq<char>, PrCacheEntryView)>,
    change_id: Seq<char>,
) -> Option<PrCacheEntryView>
    decreases entries.len(),
{
    if entries.len() == 0 {
        None
    } else if entries[0].0 == change_id {
        Some(entries[0].1)
    } else {
        entry_for(entries.drop_first(), change_id)
    }
}

pub fn find_entry_for(entries: &Vec<(String, PrCacheEntry)>, change_id: &str) -> (r: Option<usize>)
    ensures
        match r {
            Some(i) => i < entries@.len() && entry_for(entries.deep_view(), change_id@) == Some(
                entries.deep_view()[i as int].1,
            ),
            None => entry_for(entries.deep_view(), change_id@) is None,
        },
{
    let ghost view = entries.deep_view();
    let mut i: usize = 0;
    assert(view.skip(0) =~= view);
    while i < entries.len()
        invariant
            i <= entries@.len(),
            view == entries.deep_view(),
            entry_for(view, change_id@) == entry_for(view.skip(i as int), change_id@),
        decreases entries@.len() - i,
    {
        assert(view.skip(i as int)[0] == view[i as int]);
        assert(view[i as int].0 == entries@[i as int].0@);
        assert(view.skip(i as int).drop_first() =~= view.skip(i + 1));
        if same(&entries[i].0, change_id) {
            return Some(i);
        }
        i = i + 1;
    }
    None
}

pub open spec fn change_row(
    change: ResolvedChangeView,
    entry: PrCacheEntryView,
    is_current: bool,
) -> CommentRowView {
    CommentRowView {
        title: change.title,
        number: entry.pr_number,
        hint: branches::branch_prefix_of(change.change_id),
        created_at: entry.created_at,
        is_current,
    }
}

/// The rows of these changes from the last to the first; one without an entry has none.
pub open spec fn change_rows(
    changes: Seq<ResolvedChangeView>,
    entries: Seq<(Seq<char>, PrCacheEntryView)>,
    current: Option<Seq<char>>,
) -> Seq<CommentRowView>
    decreases changes.len(),
{
    if changes.len() == 0 {
        seq![]
    } else {
        let change = changes.last();
        let rest = change_rows(changes.drop_last(), entries, current);
        match entry_for(entries, change.change_id) {
            Some(entry) => seq![change_row(change, entry, current == Some(change.change_id))]
                + rest,
            None => rest,
        }
    }
}

fn rows_of_changes(
    changes: &Vec<ResolvedChange>,
    entries: &Vec<(String, PrCacheEntry)>,
    current: Option<&str>,
) -> (r: Vec<CommentRow>)
    ensures
        r.deep_view() == change_rows(
            changes.deep_view(),
            entries.deep_view(),
            current.deep_view(),
        ),
{
    let ghost view = changes.deep_view();
    let ghost e = entries.deep_view();
    let ghost c = current.deep_view();
    let mut out: Vec<CommentRow> = Vec::new();
    let mut n: usize = changes.len();
    assert(view.take(n as int) =~= view);
    assert(out.deep_view() + change_rows(view, e, c) =~= change_rows(view, e, c));
    while n > 0
        invariant
            n <= changes@.len(),
            view == changes.deep_view(),
            e == entries.deep_view(),
            c == current.deep_view(),
            out.deep_view() + change_rows(view.take(n as int), e, c) == change_rows(view, e, c),
        decreases n,
    {
        let ghost before = out.deep_view();
        let ghost front = view.take(n as int);
        assert(front.last() == changes@[n - 1]@);
        assert(front.drop_last() =~= view.take(n - 1));
        n = n - 1;
        let change = &changes[n];
        if let Some(i) = find_entry_for(entries, &change.change_id) {
            assert(e[i as int].1 == entries@[i as int].1@);
            let is_current = match current {
                Some(id) => same(id, &change.change_id),
                None => false,
            };
            let row = CommentRow {
                title: change.title.clone(),
                number: entries[i].1.pr_number,
                hint: change_id_branch_prefix(&change.change_id),
                created_at: entries[i].1.created_at.clone(),
                is_current,
            };
            let ghost put = row@;
            assert(put == change_row(change@, e[i as int].1, c == Some(change@.change_id)));
            out.push(row);
            assert(out.deep_view() =~= before.push(put));
            assert(out.deep_view() + change_rows(view.take(n as int), e, c) =~= before + (seq![put]
                + change_rows(view.take(n as int), e, c)));
        }
    }
    assert(out.deep_view() + change_rows(view.take(0), e, c) =~= out.deep_view());
    out
}

pub open spec fn dep_changes(frozen: Seq<FrozenDependencyView>) -> Seq<ResolvedChangeView> {
    frozen.map_values(|d: FrozenDependencyView| d.change)
}

fn changes_of_frozen(frozen: &Vec<FrozenDependency>) -> (r: Vec<ResolvedChange>)
    ensures
        r.deep_view() == dep_changes(frozen.deep_view()),
{
    let mut out: Vec<ResolvedChange> = Vec::new();
    let mut i: usize = 0;
    while i < frozen.len()
        invariant
            i <= frozen@.len(),
            out@.len() == i,
            forall|k: int| 0 <= k < i ==> (#[trigger] out@[k])@ == frozen@[k]@.change,
        decreases frozen@.len() - i,
    {
        out.push(frozen[i].change.copy());
        i = i + 1;
    }
    assert(out.deep_view() =~= dep_changes(frozen.deep_view()));
    out
}

/// The comment on the pull request of one change of a stack.
pub open spec fn stack_comment(
    context: AppContextView,
    frozen_entries: Seq<(Seq<char>, PrCacheEntryView)>,
    entries: Seq<(Seq<char>, PrCacheEntryView)>,
    current: Seq<char>,
    trunk: Seq<char>,
) -> Seq<char> {
    comment_body(
        context.github.repo,
        change_rows(context.stack, entries, Some(current)),
        if context.frozen_dependencies.len() > 0 {
            Some(
                change_rows(
                    dep_changes(context.frozen_dependencies),
                    frozen_entries,
                    None,
                ),
            )
        } else {
            None
        },
        trunk,
        match entry_for(entries, current) {
            Some(entry) => Some(entry.pr_number),
            None => None,
        },
    )
}

pub fn stack_comment_body_with_frozen(
    context: &AppContext,
    frozen_entries: &Vec<(String, PrCacheEntry)>,
    entries: &Vec<(String, PrCacheEntry)>,
    current_change_id: &str,
    trunk: &str,
) -> (r: String)
    ensures
        r@ == stack_comment(
            context@,
            frozen_entries.deep_view(),
            entries.deep_view(),
            current_change_id@,
            trunk@,
        ),
{
    let rows = rows_of_changes(&context.stack, entries, Some(current_change_id));
    let below = if context.frozen_dependencies.len() > 0 {
        let changes = changes_of_frozen(&context.frozen_dependencies);
        Some(rows_of_changes(&changes, frozen_entries, None))
    } else {
        None
    };
    let current = match find_entry_for(entries, current_change_id) {
        Some(i) => {
            assert(entries.deep_view()[i as int].1 == entries@[i as int].1@);
            Some(entries[i].1.pr_number)
        },
        None => None,
    };
    render_comment(&context.github.repo, &rows, &below, trunk, current)
}

// ---------------------------------------------------------------------------
// The repaired comment
// ---------------------------------------------------------------------------

pub open spec fn repaired_row(pr: GhPrView, current: u64) -> CommentRowView {
    CommentRowView {
        title: pr.title,
        number: pr.number,
        hint: change_hint(pr.head_ref_name),
        created_at: pr.created_at,
        is_current: pr.number == current,
    }
}

pub open spec fn repaired_rows(prs: Seq<GhPrView>, current: u64) -> Seq<CommentRowView> {
    Seq::new(prs.len(), |i: int| repaired_row(prs[prs.len() - 1 - i], current))
}

pub open spec fn repaired_comment(
    repo: Seq<char>,
    prs: Seq<GhPrView>,
    current: u64,
    trunk: Seq<char>,
) -> Seq<char> {
    comment_body(
        repo,
        repaired_rows(prs, current),
        None,
        trunk,
        if pr::numbers_of(prs).contains(current) {
            Some(current)
        } else {
            None
        },
    )
}

pub fn repaired_stack_comment_body(
    github: &GitHubContext,
    prs: &Vec<GhPr>,
    current_pr_number: u64,
    trunk: &str,
) -> (r: String)
    ensures
        r@ == repaired_comment(github@.repo, prs.deep_view(), current_pr_number, trunk@),
{
    let ghost view = prs.deep_view();
    let mut rows: Vec<CommentRow> = Vec::new();
    let mut listed = false;
    let mut n: usize = prs.len();
    while n > 0
        invariant
            n <= prs@.len(),
            view == prs.deep_view(),
            rows@.len() == prs@.len() - n,
            forall|k: int|
                0 <= k < rows@.len() ==> (#[trigger] rows@[k])@ == repaired_row(
                    view[view.len() - 1 - k],
                    current_pr_number,
                ),
            listed ==> pr::numbers_of(view).contains(current_pr_number),
            !listed ==> forall|k: int|
                n <= k < view.len() ==> (#[trigger] view[k]).number != current_pr_number,
        decreases n,
    {
        n = n - 1;
        let pr = &prs[n];
        assert(view[n as int] == pr@);
        let is_current = pr.number == current_pr_number;
        if is_current {
            assert(pr::numbers_of(view)[n as int] == current_pr_number);
            listed = true;
        }
        rows.push(
            CommentRow {
                title: pr.title.clone(),
                number: pr.number,
                hint: stack_comment_change_hint(&pr.head_ref_name),
                created_at: pr.created_at.clone(),
                is_current,
            },
        );
    }
    assert(rows.deep_view() =~= repaired_rows(view, current_pr_number));
    assert(listed == pr::numbers_of(view).contains(current_pr_number)) by {
        if !listed && pr::numbers_of(view).contains(current_pr_number) {
            let k = choose|k: int|
                0 <= k < pr::numbers_of(view).len() && pr::numbers_of(view)[k] == current_pr_number;
            assert(view[k].number == current_pr_number);
        }
    }
    let current = if listed {
        Some(current_pr_number)
    } else {
        None
    };
    render_comment(&github.repo, &rows, &None, trunk, current)
}

// ---------------------------------------------------------------------------
// What a reader of the comment finds
// ---------------------------------------------------------------------------

/// The text holds no line break.
pub open spec fn one_line(s: Seq<char>) -> bool {
    forall|i: int| 0 <= i < s.len() ==> #[trigger] s[i] != '\n' && s[i] != '\r'
}

/// The text of these lines, each with its line break.
pub open spec fn text_of(rows: Seq<Seq<char>>) -> Seq<char>
    decreases rows.len(),
{
    if rows.len() == 0 {
        seq![]
    } else {
        rows[0] + seq!['\n'] + text_of(rows.drop_first())
    }
}

proof fn lemma_text_of_add(a: Seq<Seq<char>>, b: Seq<Seq<char>>)
    ensures
        text_of(a + b) == text_of(a) + text_of(b),
    decreases a.len(),
{
    if a.len() == 0 {
        assert(a + b =~= b);
        assert(text_of(a) + text_of(b) =~= text_of(b));
    } else {
        lemma_text_of_add(a.drop_first(), b);
        assert((a + b).drop_first() =~= a.drop_first() + b);
        assert(text_of(a + b) =~= text_of(a) + text_of(b));
    }
}

proof fn lemma_lines_of_text(rows: Seq<Seq<char>>)
    requires
        forall|i: int| 0 <= i < rows.len() ==> one_line(#[trigger] rows[i]),
    ensures
        text::lines(text_of(rows)) == rows,
    decreases rows.len(),
{
    if rows.len() == 0 {
        assert(text::lines(text_of(rows)) =~= rows);
    } else {
        let s = text_of(rows);
        let first = rows[0];
        let rest = rows.drop_first();
        assert forall|i: int| 0 <= i < rest.len() implies one_line(#[trigger] rest[i]) by {
            assert(rest[i] == rows[i + 1]);
        }
        lemma_lines_of_text(rest);
        let n = first.len() as int;
        assert(s =~= first + seq!['\n'] + text_of(rest));
        assert forall|i: int| 0 <= i < n implies s[i] != '\n' by {
            assert(s[i] == first[i]);
        }
        text::lemma_until_at(s, '\n', n);
        assert(s.take(n) =~= first);
        assert(s.skip(n + 1) =~= text_of(rest));
        assert(text::strip_cr(first) == first);
        assert(seq![first] + rest =~= rows);
    }
}

proof fn lemma_label_one_line(s: Seq<char>)
    ensures
        one_line(link_label(s)),
    decreases s.len(),
{
    if s.len() > 0 {
        lemma_label_one_line(s.drop_last());
        let c = s.last();
        reveal_strlit("&amp;");
        reveal_strlit("&lt;");
        reveal_strlit("&gt;");
        assert(one_line(label_char(c)));
    }
}

proof fn lemma_byte_prefix_is_prefix(s: Seq<char>, n: int)
    ensures
        text::byte_prefix(s, n) matches Some(front) ==> front.len() <= s.len() && front == s.take(
            front.len() as int,
        ),
    decreases s.len(),
{
    if n != 0 && s.len() > 0 && n >= text::utf8_width(s[0]) {
        lemma_byte_prefix_is_prefix(s.drop_first(), n - text::utf8_width(s[0]));
        if let Some(rest) = text::byte_prefix(s.drop_first(), n - text::utf8_width(s[0])) {
            let front = seq![s[0]] + rest;
            assert(front =~= s.take(front.len() as int));
        }
    } else if n == 0 {
        assert(s.take(0) =~= Seq::<char>::empty());
    }
}

proof fn lemma_trim_one_line(s: Seq<char>)
    requires
        one_line(s),
    ensures
        one_line(text::trim_start(s)),
        one_line(text::trim_end(s)),
    decreases s.len(),
{
    if s.len() > 0 {
        assert forall|i: int| 0 <= i < s.drop_first().len() implies #[trigger] s.drop_first()[i]
            != '\n' && s.drop_first()[i] != '\r' by {
            assert(s.drop_first()[i] == s[i + 1]);
        }
        assert forall|i: int| 0 <= i < s.drop_last().len() implies #[trigger] s.drop_last()[i]
            != '\n' && s.drop_last()[i] != '\r' by {
            assert(s.drop_last()[i] == s[i]);
        }
        lemma_trim_one_line(s.drop_first());
        lemma_trim_one_line(s.drop_last());
    }
}

proof fn lemma_date_one_line(created_at: Seq<char>)
    requires
        one_line(created_at),
    ensures
        one_line(date_fragment(created_at)),
{
    lemma_byte_prefix_is_prefix(created_at, 19);
    let front = match text::byte_prefix(created_at, 19) {
        Some(front) => front,
        None => created_at,
    };
    assert(one_line(front)) by {
        assert forall|i: int| 0 <= i < front.len() implies #[trigger] front[i] != '\n' && front[i]
            != '\r' by {
            assert(front[i] == created_at[i]);
        }
    }
    lemma_trim_one_line(front);
    lemma_trim_one_line(text::trim_start(front));
    lemma_trim_one_line(text::trim_end(front));
    reveal_strlit(" · ");
}

proof fn lemma_split_one_line(s: Seq<char>, c: char)
    requires
        one_line(s),
    ensures
        forall|i: int| 0 <= i < text::split(s, c).len() ==> one_line(#[trigger] text::split(s, c)[i]),
    decreases s.len(),
{
    let n = text::until(s, c);
    text::lemma_until(s, c);
    if n < s.len() {
        let rest = s.skip(n as int + 1);
        assert(one_line(s.take(n as int)));
        assert forall|i: int| 0 <= i < rest.len() implies #[trigger] rest[i] != '\n' && rest[i]
            != '\r' by {
            assert(rest[i] == s[n + 1 + i]);
        }
        lemma_split_one_line(rest, c);
        assert forall|i: int| 0 <= i < text::split(s, c).len() implies one_line(
            #[trigger] text::split(s, c)[i],
        ) by {
            if i > 0 {
                assert(text::split(s, c)[i] == text::split(rest, c)[i - 1]);
            }
        }
    }
}

proof fn lemma_hint_one_line(head_branch: Seq<char>)
    requires
        one_line(head_branch),
    ensures
        one_line(change_hint(head_branch)),
{
    lemma_split_some(head_branch, '/');
    lemma_split_one_line(head_branch, '/');
    let last = text::split(head_branch, '/').last();
    lemma_split_some(last, '-');
    lemma_split_one_line(last, '-');
}

pub proof fn lemma_leading_digits(d: Seq<char>, rest: Seq<char>)
    requires
        text::all_digits(d),
        rest.len() > 0 ==> !text::is_digit(rest[0]),
    ensures
        comments::leading_digits(d + rest) == d,
    decreases d.len(),
{
    if d.len() == 0 {
        assert(d + rest =~= rest);
        assert(comments::leading_digits(rest) =~= d);
    } else {
        assert(text::all_digits(d.drop_first())) by {
            assert forall|i: int| 0 <= i < d.drop_first().len() implies text::is_digit(
                #[trigger] d.drop_first()[i],
            ) by {
                assert(d.drop_first()[i] == d[i + 1]);
            }
        }
        lemma_leading_digits(d.drop_first(), rest);
        assert((d + rest)[0] == d[0]);
        assert((d + rest).drop_first() =~= d.drop_first() + rest);
        assert(text::is_digit(d[0]));
        assert(seq![d[0]] + d.drop_first() =~= d);
    }
}

/// A line without `/p` in it links to no pull request.
proof fn lemma_no_link(s: Seq<char>)
    requires
        forall|i: int| 0 <= i && i + 1 < s.len() ==> !(#[trigger] s[i] == '/' && s[i + 1] == 'p'),
    ensures
        comments::line_number(s) is None,
{
    reveal_strlit("/pull/");
    text::lemma_find_from(s, "/pull/"@, 0);
    if let Some(k) = text::find(s, "/pull/"@) {
        assert(s.subrange(k, k + 6) == "/pull/"@);
        assert(s.subrange(k, k + 6)[0] == '/');
        assert(s.subrange(k, k + 6)[1] == 'p');
        assert(s[k] == '/');
    }
}

/// A line of fixed words and a text that holds no link links to no pull request.
proof fn lemma_no_link_behind(words: Seq<char>, rest: Seq<char>)
    requires
        forall|i: int| 0 <= i < words.len() ==> #[trigger] words[i] != '/',
        !text::contains(rest, "/pull/"@),
    ensures
        comments::line_number(words + rest) is None,
{
    let s = words + rest;
    text::lemma_find_from(s, "/pull/"@, 0);
    reveal_strlit("/pull/");
    if let Some(k) = text::find(s, "/pull/"@) {
        assert(s.subrange(k, k + 6)[0] == '/');
        assert(s[k] == '/');
        if k < words.len() {
            assert(words[k] == '/');
        } else {
            let o = k - words.len();
            assert(rest.subrange(o, o + 6) =~= s.subrange(k, k + 6));
            assert(text::stands_at(rest, "/pull/"@, o));
        }
    }
}

/// The line of a pull request without its line break.
pub open spec fn bare_line(repo: Seq<char>, row: CommentRowView) -> Seq<char> {
    row_line(repo, row).drop_last()
}

/// What the comment says of the repository and the title cannot be taken for a link.
pub open spec fn is_plain_row(repo: Seq<char>, row: CommentRowView) -> bool {
    &&& !text::contains(link_label(row.title), "/pull/"@)
    &&& !text::contains("/"@ + repo + "/pull"@, "/pull/"@)
    &&& one_line(repo)
    &&& one_line(row.hint)
    &&& one_line(row.created_at)
}

proof fn lemma_one_line_add(a: Seq<char>, b: Seq<char>)
    requires
        one_line(a),
        one_line(b),
    ensures
        one_line(a + b),
{
    assert forall|i: int| 0 <= i < (a + b).len() implies #[trigger] (a + b)[i] != '\n' && (a + b)[i]
        != '\r' by {
        if i < a.len() {
            assert((a + b)[i] == a[i]);
        } else {
            assert((a + b)[i] == b[i - a.len()]);
        }
    }
}

/// Wherever one starts in the text, it soon differs from `/pull/`.
spec fn starts_no_link(s: Seq<char>) -> bool {
    forall|j: int| 0 <= j < s.len() ==> #[trigger] differs_from(s, j)
}

spec fn differs_from(s: Seq<char>, j: int) -> bool {
    exists|q: int| 0 <= q < 6 && j + q < s.len() && #[trigger] s[j + q] != "/pull/"@[q]
}

proof fn lemma_no_start_add(a: Seq<char>, b: Seq<char>)
    requires
        starts_no_link(a),
        starts_no_link(b),
    ensures
        starts_no_link(a + b),
{
    let s = a + b;
    assert forall|j: int| 0 <= j < s.len() implies #[trigger] differs_from(s, j) by {
        if j < a.len() {
            assert(differs_from(a, j));
            let q = choose|q: int|
                0 <= q < 6 && j + q < a.len() && #[trigger] a[j + q] != "/pull/"@[q];
            assert(s[j + q] == a[j + q]);
        } else {
            let o = j - a.len();
            assert(differs_from(b, o));
            let q = choose|q: int|
                0 <= q < 6 && o + q < b.len() && #[trigger] b[o + q] != "/pull/"@[q];
            assert(s[j + q] == b[o + q]);
        }
    }
}

proof fn lemma_no_start_slashless(s: Seq<char>)
    requires
        forall|i: int| 0 <= i < s.len() ==> #[trigger] s[i] != '/',
    ensures
        starts_no_link(s),
{
    reveal_strlit("/pull/");
    assert forall|j: int| 0 <= j < s.len() implies #[trigger] differs_from(s, j) by {
        assert(s[j + 0] != "/pull/"@[0]);
    }
}

proof fn lemma_no_start_label(label: Seq<char>, next: Seq<char>)
    requires
        !text::contains(label, "/pull/"@),
        next.len() > 0,
        next[0] == ' ',
        starts_no_link(next),
    ensures
        starts_no_link(label + next),
{
    reveal_strlit("/pull/");
    let s = label + next;
    let n = label.len() as int;
    assert forall|j: int| 0 <= j < s.len() implies #[trigger] differs_from(s, j) by {
        if j >= n {
            let o = j - n;
            assert(differs_from(next, o));
            let q = choose|q: int|
                0 <= q < 6 && o + q < next.len() && #[trigger] next[o + q] != "/pull/"@[q];
            assert(s[j + q] == next[o + q]);
        } else if j + 6 <= n {
            if !differs_from(s, j) {
                assert forall|q: int| 0 <= q < 6 implies label.subrange(j, j + 6)[q]
                    == "/pull/"@[q] by {
                    assert(s[j + q] == label[j + q]);
                }
                assert(label.subrange(j, j + 6) =~= "/pull/"@);
                assert(text::stands_at(label, "/pull/"@, j));
            }
        } else {
            let q = n - j;
            assert(s[j + q] == next[0]);
            assert(s[j + q] != "/pull/"@[q]);
        }
    }
}

proof fn lemma_no_start_host()
    ensures
        starts_no_link("](https://github.com"@),
{
    reveal_strlit("/pull/");
    reveal_strlit("](https://github.com");
    let s = "](https://github.com"@;
    assert forall|j: int| 0 <= j < s.len() implies #[trigger] differs_from(s, j) by {
        if s[j] == '/' {
            assert(s[j + 1] != "/pull/"@[1]);
        } else {
            assert(s[j + 0] != "/pull/"@[0]);
        }
    }
}

/// The first link of such a text is the one that ends `inner`.
proof fn lemma_first_link(front: Seq<char>, inner: Seq<char>, d: Seq<char>, tail: Seq<char>)
    requires
        starts_no_link(front),
        !text::contains(inner, "/pull/"@),
        inner.len() >= 5,
        inner.skip(inner.len() - 5) == "/pull"@,
        text::all_digits(d),
        tail.len() > 0,
        tail[0] == ')',
    ensures
        comments::line_number(front + inner + ("/"@ + d + tail)) == text::parse_number(d),
{
    let pat = "/pull/"@;
    reveal_strlit("/pull/");
    reveal_strlit("/pull");
    reveal_strlit("/");
    let back = "/"@ + d + tail;
    let line = front + inner + back;
    let f = front.len() as int;
    let n = inner.len() as int;
    let k = f + n - 5;
    assert forall|q: int| 0 <= q < 5 implies #[trigger] line[k + q] == pat[q] by {
        assert(inner.skip(n - 5)[q] == inner[n - 5 + q]);
    }
    assert(line[k + 5] == back[0]);
    assert(back[0] == '/');
    assert forall|q: int| 0 <= q < 6 implies #[trigger] line.subrange(k, k + 6)[q] == pat[q] by {
        if q < 5 {
            assert(line[k + q] == pat[q]);
        }
    }
    assert(line.subrange(k, k + 6) =~= pat);
    assert(text::stands_at(line, pat, k));
    assert forall|j: int| 0 <= j < k implies !#[trigger] text::stands_at(line, pat, j) by {
        if text::stands_at(line, pat, j) {
            let w = line.subrange(j, j + 6);
            if j < f {
                assert(differs_from(front, j));
                let q = choose|q: int|
                    0 <= q < 6 && j + q < front.len() && #[trigger] front[j + q] != pat[q];
                assert(w[q] == line[j + q]);
                assert(line[j + q] == front[j + q]);
            } else {
                let o = j - f;
                assert(inner.subrange(o, o + 6) =~= w);
                assert(text::stands_at(inner, pat, o));
            }
        }
    }
    text::lemma_find_from(line, pat, 0);
    assert(text::find(line, pat) == Some(k));
    let rest = line.skip(k + 6);
    assert(rest =~= d + tail);
    text::lemma_find_from(rest, pat, 0);
    match text::find(rest, pat) {
        Some(j) => {
            assert(rest.subrange(j, j + 6)[0] == '/');
            assert(rest[j] == '/');
            if j < d.len() {
                assert(text::is_digit(d[j]));
            }
            assert(rest[d.len() as int] == tail[0]);
            let after = rest.take(j).skip(d.len() as int);
            assert(rest.take(j) =~= d + after);
            assert(after[0] == tail[0]);
            lemma_leading_digits(d, after);
        },
        None => {
            lemma_leading_digits(d, tail);
        },
    }
}

proof fn lemma_url_parts(repo: Seq<char>, number: u64)
    ensures
        "]("@ + pr::pr_url(repo, number) == "](https://github.com"@ + ("/"@ + repo + "/pull"@) + ("/"@
            + text::decimal(number as nat)),
{
    reveal_strlit("https://github.com/");
    reveal_strlit("](");
    reveal_strlit("](https://github.com");
    reveal_strlit("/pull/");
    reveal_strlit("/pull");
    reveal_strlit("/");
    let d = text::decimal(number as nat);
    assert("]("@ + "https://github.com/"@ =~= "](https://github.com"@ + "/"@);
    assert("/pull/"@ =~= "/pull"@ + "/"@);
    assert("]("@ + pr::pr_url(repo, number) =~= ("]("@ + "https://github.com/"@) + repo + "/pull/"@ + d);
    assert("]("@ + pr::pr_url(repo, number) =~= "](https://github.com"@ + ("/"@ + repo + "/pull"@) + ("/"@
        + d));
}

proof fn lemma_link_parts(repo: Seq<char>, row: CommentRowView)
    ensures
        row_link(repo, row) == "["@ + row_named(row) + ("/"@ + repo + "/pull"@) + ("/"@ + text::decimal(
            row.number as nat,
        ) + ")"@),
{
    lemma_url_parts(repo, row.number);
    let d = text::decimal(row.number as nat);
    let label = link_label(row.title);
    let host = "](https://github.com"@;
    let inner = "/"@ + repo + "/pull"@;
    let url = pr::pr_url(repo, row.number);
    let before = "["@ + label + " #"@ + d;
    assert(row_link(repo, row) =~= before + ("]("@ + url) + ")"@);
    assert("["@ + row_named(row) =~= before + host);
    assert(before + (host + inner + ("/"@ + d)) + ")"@ =~= before + host + inner + ("/"@ + d
        + ")"@));
}

spec fn row_shown(repo: Seq<char>, row: CommentRowView) -> Seq<char> {
    if row.is_current {
        "**"@ + row_link(repo, row) + "**"@
    } else {
        row_link(repo, row)
    }
}

spec fn row_bold(row: CommentRowView) -> Seq<char> {
    if row.is_current {
        "**"@
    } else {
        ""@
    }
}

proof fn lemma_shown_parts(repo: Seq<char>, row: CommentRowView)
    ensures
        "- "@ + row_shown(repo, row) == row_front(row) + ("/"@ + repo + "/pull"@) + ("/"@ + text::decimal(
            row.number as nat,
        ) + (")"@ + row_bold(row))),
{
    lemma_link_parts(repo, row);
    let d = text::decimal(row.number as nat);
    let named = row_named(row);
    let inner = "/"@ + repo + "/pull"@;
    let end = "/"@ + d + ")"@;
    let link = "["@ + named + inner + end;
    reveal_strlit("");
    if row.is_current {
        assert("- "@ + ("**"@ + link + "**"@) =~= "- "@ + "**"@ + "["@ + named + inner + (end
            + "**"@));
        assert(end + "**"@ =~= "/"@ + d + (")"@ + "**"@));
    } else {
        assert("- "@ + link =~= "- "@ + "["@ + named + inner + end);
        assert(end =~= "/"@ + d + (")"@ + ""@));
    }
}

/// The line of a pull request in the parts that its reader tells apart.
proof fn lemma_row_parts(repo: Seq<char>, row: CommentRowView)
    ensures
        bare_line(repo, row) == row_front(row) + ("/"@ + repo + "/pull"@) + ("/"@ + text::decimal(
            row.number as nat,
        ) + row_tail(row)),
        row_line(repo, row) == bare_line(repo, row) + seq!['\n'],
{
    lemma_shown_parts(repo, row);
    reveal_strlit("\n");
    let d = text::decimal(row.number as nat);
    let inner = "/"@ + repo + "/pull"@;
    let shown = "- "@ + row_shown(repo, row);
    let mark = if row.is_current {
        " 👈"@
    } else {
        ""@
    };
    let rest = " _"@ + row.hint + "_"@ + date_fragment(row.created_at) + mark;
    let closing = ")"@ + row_bold(row);
    assert(row_line(repo, row) =~= shown + rest + "\n"@);
    assert(row_tail(row) =~= closing + rest);
    assert(row_front(row) + inner + ("/"@ + d + closing) + rest =~= row_front(row) + inner + ("/"@
        + d + (closing + rest)));
    assert("\n"@ =~= seq!['\n']);
    assert(row_line(repo, row).drop_last() =~= shown + rest);
}

spec fn row_named(row: CommentRowView) -> Seq<char> {
    link_label(row.title) + (" #"@ + (text::decimal(row.number as nat) + "](https://github.com"@))
}

spec fn row_opening(row: CommentRowView) -> Seq<char> {
    if row.is_current {
        "- "@ + "**"@ + "["@
    } else {
        "- "@ + "["@
    }
}

spec fn row_front(row: CommentRowView) -> Seq<char> {
    row_opening(row) + row_named(row)
}

spec fn row_tail(row: CommentRowView) -> Seq<char> {
    ")"@ + if row.is_current {
        "**"@
    } else {
        ""@
    } + " _"@ + row.hint + "_"@ + date_fragment(row.created_at) + if row.is_current {
        " 👈"@
    } else {
        ""@
    }
}

proof fn lemma_front(row: CommentRowView)
    requires
        !text::contains(link_label(row.title), "/pull/"@),
    ensures
        starts_no_link(row_front(row)),
        one_line(row_front(row)),
{
    let d = text::decimal(row.number as nat);
    text::law_decimal_reads_back(row.number as nat);
    assert forall|i: int| 0 <= i < d.len() implies #[trigger] d[i] != '\n' && d[i] != '\r' && d[i]
        != '/' by {
        assert(text::is_digit(d[i]));
    }
    reveal_strlit("- ");
    reveal_strlit("**");
    reveal_strlit("[");
    reveal_strlit(" #");
    reveal_strlit("](https://github.com");
    let host = "](https://github.com"@;
    let open = row_opening(row);
    let label = link_label(row.title);
    lemma_no_start_host();
    lemma_no_start_slashless(d);
    lemma_no_start_add(d, host);
    lemma_no_start_slashless(" #"@);
    lemma_no_start_add(" #"@, d + host);
    let next = " #"@ + (d + host);
    assert(next[0] == ' ');
    lemma_no_start_label(label, next);
    lemma_no_start_slashless(open);
    lemma_no_start_add(open, label + next);
    assert(one_line(host) && one_line(open) && one_line(" #"@) && one_line(d));
    lemma_one_line_add(d, host);
    lemma_one_line_add(" #"@, d + host);
    lemma_label_one_line(row.title);
    lemma_one_line_add(label, next);
    lemma_one_line_add(open, label + next);
}

proof fn lemma_tail(row: CommentRowView)
    requires
        one_line(row.hint),
        one_line(row.created_at),
    ensures
        one_line(row_tail(row)),
        row_tail(row).len() > 0,
        row_tail(row)[0] == ')',
{
    reveal_strlit(")");
    reveal_strlit("**");
    reveal_strlit("");
    reveal_strlit(" _");
    reveal_strlit("_");
    reveal_strlit(" 👈");
    lemma_date_one_line(row.created_at);
    let bold = if row.is_current {
        "**"@
    } else {
        ""@
    };
    let mark = if row.is_current {
        " 👈"@
    } else {
        ""@
    };
    assert(one_line(")"@) && one_line(bold) && one_line(" _"@) && one_line("_"@) && one_line(mark));
    let a = ")"@ + bold;
    let b = a + " _"@;
    let c = b + row.hint;
    let e = c + "_"@;
    let f = e + date_fragment(row.created_at);
    lemma_one_line_add(")"@, bold);
    lemma_one_line_add(a, " _"@);
    lemma_one_line_add(b, row.hint);
    lemma_one_line_add(c, "_"@);
    lemma_one_line_add(e, date_fragment(row.created_at));
    lemma_one_line_add(f, mark);
    assert(row_tail(row) == f + mark);
}

proof fn lemma_row_line(repo: Seq<char>, row: CommentRowView)
    requires
        is_plain_row(repo, row),
    ensures
        row_line(repo, row) == bare_line(repo, row) + seq!['\n'],
        one_line(bare_line(repo, row)),
        comments::line_number(bare_line(repo, row)) == Some(row.number as nat),
{
    let d = text::decimal(row.number as nat);
    text::law_decimal_reads_back(row.number as nat);
    lemma_row_parts(repo, row);
    lemma_front(row);
    lemma_tail(row);
    reveal_strlit("/");
    reveal_strlit("/pull");
    let inner = "/"@ + repo + "/pull"@;
    let back = "/"@ + d + row_tail(row);
    assert(inner.skip(inner.len() - 5) =~= "/pull"@);
    lemma_first_link(row_front(row), inner, d, row_tail(row));
    assert(one_line(d)) by {
        assert forall|i: int| 0 <= i < d.len() implies #[trigger] d[i] != '\n' && d[i] != '\r' by {
            assert(text::is_digit(d[i]));
        }
    }
    assert(one_line("/"@) && one_line("/pull"@));
    lemma_one_line_add("/"@, repo);
    lemma_one_line_add("/"@ + repo, "/pull"@);
    lemma_one_line_add("/"@, d);
    lemma_one_line_add("/"@ + d, row_tail(row));
    lemma_one_line_add(row_front(row), inner);
    lemma_one_line_add(row_front(row) + inner, back);
}

pub open spec fn row_numbers(rows: Seq<CommentRowView>) -> Seq<u64> {
    rows.map_values(|row: CommentRowView| row.number)
}

pub open spec fn bare_lines(repo: Seq<char>, rows: Seq<CommentRowView>) -> Seq<Seq<char>> {
    rows.map_values(|row: CommentRowView| bare_line(repo, row))
}

proof fn lemma_rows_text(repo: Seq<char>, rows: Seq<CommentRowView>)
    requires
        forall|i: int| 0 <= i < rows.len() ==> is_plain_row(repo, #[trigger] rows[i]),
    ensures
        rows_text(repo, rows) == text_of(bare_lines(repo, rows)),
        forall|i: int|
            0 <= i < rows.len() ==> one_line(#[trigger] bare_lines(repo, rows)[i]) && comments::line_number(
                bare_lines(repo, rows)[i],
            ) == Some(rows[i].number as nat),
    decreases rows.len(),
{
    if rows.len() > 0 {
        let front = rows.drop_last();
        assert forall|i: int| 0 <= i < front.len() implies is_plain_row(repo, #[trigger] front[i]) by {
            assert(front[i] == rows[i]);
        }
        lemma_rows_text(repo, front);
        lemma_row_line(repo, rows.last());
        let last = bare_line(repo, rows.last());
        assert(bare_lines(repo, rows) =~= bare_lines(repo, front) + seq![last]);
        lemma_text_of_add(bare_lines(repo, front), seq![last]);
        lemma_single(last);
        assert forall|i: int| 0 <= i < rows.len() implies one_line(
            #[trigger] bare_lines(repo, rows)[i],
        ) && comments::line_number(bare_lines(repo, rows)[i]) == Some(rows[i].number as nat) by {
            if i < front.len() {
                assert(bare_lines(repo, rows)[i] == bare_lines(repo, front)[i]);
                assert(front[i] == rows[i]);
            }
        }
    }
}

/// Lines that link to nothing add no number.
proof fn lemma_numbers_quiet(rows: Seq<Seq<char>>, quiet: Seq<Seq<char>>)
    requires
        forall|i: int| 0 <= i < quiet.len() ==> comments::line_number(#[trigger] quiet[i]) is None,
    ensures
        comments::numbers_in(rows + quiet) == comments::numbers_in(rows),
    decreases quiet.len(),
{
    if quiet.len() == 0 {
        assert(rows + quiet =~= rows);
    } else {
        let front = quiet.drop_last();
        assert forall|i: int| 0 <= i < front.len() implies comments::line_number(#[trigger] front[i]) is None by {
            assert(front[i] == quiet[i]);
        }
        lemma_numbers_quiet(rows, front);
        assert((rows + quiet).drop_last() =~= rows + front);
        assert((rows + quiet).last() == quiet[quiet.len() - 1]);
    }
}

/// Lines that link to new pull requests add their numbers in order.
proof fn lemma_numbers_new(rows: Seq<Seq<char>>, linked: Seq<Seq<char>>, numbers: Seq<u64>)
    requires
        linked.len() == numbers.len(),
        forall|i: int|
            0 <= i < linked.len() ==> comments::line_number(#[trigger] linked[i]) == Some(numbers[i] as nat),
        (comments::numbers_in(rows) + numbers).no_duplicates(),
    ensures
        comments::numbers_in(rows + linked) == comments::numbers_in(rows) + numbers,
    decreases linked.len(),
{
    if linked.len() == 0 {
        assert(rows + linked =~= rows);
        assert(comments::numbers_in(rows) + numbers =~= comments::numbers_in(rows));
    } else {
        let front = linked.drop_last();
        let fewer = numbers.drop_last();
        let all = comments::numbers_in(rows) + numbers;
        assert(comments::numbers_in(rows) + fewer =~= all.drop_last());
        assert forall|i: int| 0 <= i < front.len() implies comments::line_number(#[trigger] front[i]) == Some(
            fewer[i] as nat,
        ) by {
            assert(front[i] == linked[i]);
        }
        lemma_numbers_new(rows, front, fewer);
        assert((rows + linked).drop_last() =~= rows + front);
        let last = linked.len() - 1;
        assert((rows + linked).last() == linked[last]);
        assert(comments::line_number(linked[last]) == Some(numbers[last] as nat));
        let rest = comments::numbers_in(rows) + fewer;
        assert(!rest.contains(numbers[last])) by {
            if rest.contains(numbers[last]) {
                let i = choose|i: int| 0 <= i < rest.len() && rest[i] == numbers[last];
                assert(all[i] == all[all.len() - 1]);
            }
        }
        assert(rest.push(numbers[last]) =~= all);
    }
}

pub open spec fn head_lines(repo: Seq<char>) -> Seq<Seq<char>> {
    seq![STACK_COMMENT_MARKER@, "Stack for "@ + repo, ""@]
}

pub open spec fn foot_lines(trunk: Seq<char>, current: Option<u64>) -> Seq<Seq<char>> {
    seq!["- "@ + trunk, ""@] + match current {
        Some(number) => seq![
            "Check out this stack: `forklift get "@ + text::decimal(number as nat) + "`"@,
        ],
        None => seq![],
    } + seq![
        "Pull/update this stack: `forklift sync`"@,
        "Publish local edits: `forklift submit`"@,
        "Merge when ready: `forklift merge`"@,
    ]
}

proof fn lemma_single(line: Seq<char>)
    ensures
        text_of(seq![line]) == line + seq!['\n'],
{
    reveal_with_fuel(text_of, 2);
    assert(seq![line].drop_first() =~= Seq::<Seq<char>>::empty());
    assert(text_of(seq![line]) =~= line + seq!['\n']);
}

proof fn lemma_head(repo: Seq<char>)
    requires
        one_line(repo),
        !text::contains(repo, "/pull/"@),
    ensures
        comment_head(repo) == text_of(head_lines(repo)),
        forall|i: int|
            0 <= i < 3 ==> one_line(#[trigger] head_lines(repo)[i]) && comments::line_number(
                head_lines(repo)[i],
            ) is None,
{
    reveal_strlit("<!-- stack:v1 -->");
    reveal_strlit("\nStack for ");
    reveal_strlit("Stack for ");
    reveal_strlit("\n\n");
    reveal_strlit("");
    let l = head_lines(repo);
    lemma_single(l[0]);
    lemma_single(l[1]);
    lemma_single(l[2]);
    lemma_text_of_add(seq![l[0]], seq![l[1]]);
    lemma_text_of_add(seq![l[0]] + seq![l[1]], seq![l[2]]);
    assert(l =~= seq![l[0]] + seq![l[1]] + seq![l[2]]);
    assert(comment_head(repo) =~= text_of(l));
    lemma_no_link(l[0]);
    lemma_no_link_behind("Stack for "@, repo);
    lemma_no_link(l[2]);
}

proof fn lemma_foot(trunk: Seq<char>, current: Option<u64>)
    requires
        one_line(trunk),
        !text::contains(trunk, "/pull/"@),
    ensures
        comment_foot(trunk, current) == text_of(foot_lines(trunk, current)),
        forall|i: int|
            0 <= i < foot_lines(trunk, current).len() ==> one_line(
                #[trigger] foot_lines(trunk, current)[i],
            ) && comments::line_number(foot_lines(trunk, current)[i]) is None,
{
    reveal_strlit("- ");
    reveal_strlit("\n");
    reveal_strlit("");
    reveal_strlit("`");
    reveal_strlit("`\n");
    reveal_strlit("Check out this stack: `forklift get ");
    reveal_strlit("Pull/update this stack: `forklift sync`");
    reveal_strlit("Pull/update this stack: `forklift sync`\n");
    reveal_strlit("Publish local edits: `forklift submit`");
    reveal_strlit("Publish local edits: `forklift submit`\n");
    reveal_strlit("Merge when ready: `forklift merge`");
    reveal_strlit("Merge when ready: `forklift merge`\n");
    let a = seq!["- "@ + trunk];
    let b = seq![""@];
    let p = seq!["Pull/update this stack: `forklift sync`"@];
    let q = seq!["Publish local edits: `forklift submit`"@];
    let m = seq!["Merge when ready: `forklift merge`"@];
    let c: Seq<Seq<char>> = match current {
        Some(number) => seq![
            "Check out this stack: `forklift get "@ + text::decimal(number as nat) + "`"@,
        ],
        None => seq![],
    };
    lemma_single(a[0]);
    lemma_single(b[0]);
    lemma_single(p[0]);
    lemma_single(q[0]);
    lemma_single(m[0]);
    if let Some(number) = current {
        text::law_decimal_reads_back(number as nat);
        let d = text::decimal(number as nat);
        assert forall|i: int| 0 <= i < d.len() implies #[trigger] d[i] != '\n' && d[i] != '\r'
            && d[i] != '/' by {
            assert(text::is_digit(d[i]));
        }
        lemma_single(c[0]);
        lemma_no_link(c[0]);
        assert(one_line(c[0]));
        assert(text_of(c) =~= checkout_line(current));
    } else {
        assert(text_of(c) =~= checkout_line(current));
    }
    lemma_text_of_add(a, b);
    lemma_text_of_add(a + b, c);
    lemma_text_of_add(a + b + c, p);
    lemma_text_of_add(a + b + c + p, q);
    lemma_text_of_add(a + b + c + p + q, m);
    let all = a + b + c + p + q + m;
    assert(foot_lines(trunk, current) =~= all);
    assert(text_of(p) =~= "Pull/update this stack: `forklift sync`\n"@);
    assert(text_of(q) =~= "Publish local edits: `forklift submit`\n"@);
    assert(text_of(m) =~= "Merge when ready: `forklift merge`\n"@);
    assert(comment_foot(trunk, current) =~= text_of(all));
    lemma_no_link_behind("- "@, trunk);
    lemma_no_link(b[0]);
    lemma_no_link(p[0]);
    lemma_no_link(q[0]);
    lemma_no_link(m[0]);
    assert forall|i: int| 0 <= i < all.len() implies one_line(#[trigger] all[i]) && comments::line_number(
        all[i],
    ) is None by {
        assert(one_line(a[0]) && one_line(b[0]) && one_line(p[0]) && one_line(q[0]) && one_line(
            m[0],
        ));
        if i == 0 {
            assert(all[i] == a[0]);
        } else if i == 1 {
            assert(all[i] == b[0]);
        } else if i < 2 + c.len() {
            assert(all[i] == c[0]);
        } else if i == 2 + c.len() {
            assert(all[i] == p[0]);
        } else if i == 3 + c.len() {
            assert(all[i] == q[0]);
        } else {
            assert(all[i] == m[0]);
        }
    }
}

proof fn lemma_repo_plain(repo: Seq<char>)
    requires
        !text::contains("/"@ + repo + "/pull"@, "/pull/"@),
    ensures
        !text::contains(repo, "/pull/"@),
{
    reveal_strlit("/");
    reveal_strlit("/pull/");
    if text::contains(repo, "/pull/"@) {
        let i = choose|i: int| text::stands_at(repo, "/pull/"@, i);
        let s = "/"@ + repo + "/pull"@;
        assert(s.subrange(i + 1, i + 7) =~= repo.subrange(i, i + 6));
        assert(text::stands_at(s, "/pull/"@, i + 1));
    }
}

proof fn lemma_plain_comment(
    repo: Seq<char>,
    rows: Seq<CommentRowView>,
    trunk: Seq<char>,
    current: Option<u64>,
)
    requires
        one_line(repo),
        !text::contains(repo, "/pull/"@),
        one_line(trunk),
        !text::contains(trunk, "/pull/"@),
        forall|i: int| 0 <= i < rows.len() ==> is_plain_row(repo, #[trigger] rows[i]),
        row_numbers(rows).no_duplicates(),
    ensures
        comments::numbers_in(text::lines(comment_body(repo, rows, None, trunk, current))) == row_numbers(rows),
{
    lemma_head(repo);
    lemma_foot(trunk, current);
    lemma_rows_text(repo, rows);
    let head = head_lines(repo);
    let foot = foot_lines(trunk, current);
    let mid = bare_lines(repo, rows);
    lemma_numbers_head(repo);
    let all = head + mid + foot;
    lemma_text_of_add(head, mid);
    lemma_text_of_add(head + mid, foot);
    assert(comment_body(repo, rows, None, trunk, current) == text_of(all));
    assert forall|i: int| 0 <= i < all.len() implies one_line(#[trigger] all[i]) by {
        if i < 3 {
            assert(all[i] == head[i]);
        } else if i < 3 + mid.len() {
            assert(all[i] == mid[i - 3]);
        } else {
            assert(all[i] == foot[i - 3 - mid.len()]);
        }
    }
    lemma_lines_of_text(all);
    assert(comments::numbers_in(head) + row_numbers(rows) =~= row_numbers(rows));
    lemma_numbers_new(head, mid, row_numbers(rows));
    lemma_numbers_quiet(head + mid, foot);
}

proof fn lemma_numbers_head(repo: Seq<char>)
    requires
        one_line(repo),
        !text::contains(repo, "/pull/"@),
    ensures
        comments::numbers_in(head_lines(repo)) == Seq::<u64>::empty(),
{
    lemma_head(repo);
    let none = Seq::<Seq<char>>::empty();
    assert(none + head_lines(repo) =~= head_lines(repo));
    lemma_numbers_quiet(none, head_lines(repo));
}

spec fn gap_lines() -> Seq<Seq<char>> {
    seq![""@, "Dependencies:"@]
}

spec fn title_lines() -> Seq<Seq<char>> {
    seq!["Current stack:"@]
}

proof fn lemma_gap()
    ensures
        text_of(title_lines()) == "Current stack:\n"@,
        text_of(gap_lines()) == "\nDependencies:\n"@,
        forall|i: int|
            0 <= i < 1 ==> one_line(#[trigger] title_lines()[i]) && comments::line_number(title_lines()[i])
                is None,
        forall|i: int|
            0 <= i < 2 ==> one_line(#[trigger] gap_lines()[i]) && comments::line_number(gap_lines()[i])
                is None,
{
    reveal_strlit("Current stack:");
    reveal_strlit("Current stack:\n");
    reveal_strlit("Dependencies:");
    reveal_strlit("\nDependencies:\n");
    reveal_strlit("");
    lemma_single("Current stack:"@);
    lemma_single(""@);
    lemma_single("Dependencies:"@);
    lemma_text_of_add(seq![""@], seq!["Dependencies:"@]);
    assert(gap_lines() =~= seq![""@] + seq!["Dependencies:"@]);
    assert(text_of(title_lines()) =~= "Current stack:\n"@);
    assert(text_of(gap_lines()) =~= "\nDependencies:\n"@);
    lemma_no_link(title_lines()[0]);
    lemma_no_link(gap_lines()[0]);
    lemma_no_link(gap_lines()[1]);
    assert(one_line("Current stack:"@) && one_line(""@) && one_line("Dependencies:"@));
}

#[verifier::rlimit(60)]
proof fn lemma_deep_comment(
    repo: Seq<char>,
    rows: Seq<CommentRowView>,
    more: Seq<CommentRowView>,
    trunk: Seq<char>,
    current: Option<u64>,
)
    requires
        one_line(repo),
        !text::contains(repo, "/pull/"@),
        one_line(trunk),
        !text::contains(trunk, "/pull/"@),
        forall|i: int| 0 <= i < rows.len() ==> is_plain_row(repo, #[trigger] rows[i]),
        forall|i: int| 0 <= i < more.len() ==> is_plain_row(repo, #[trigger] more[i]),
        (row_numbers(rows) + row_numbers(more)).no_duplicates(),
    ensures
        comments::numbers_in(text::lines(comment_body(repo, rows, Some(more), trunk, current))) == row_numbers(rows)
            + row_numbers(more),
{
    lemma_head(repo);
    lemma_foot(trunk, current);
    lemma_rows_text(repo, rows);
    lemma_rows_text(repo, more);
    lemma_gap();
    lemma_numbers_head(repo);
    let head = head_lines(repo);
    let foot = foot_lines(trunk, current);
    let mid = bare_lines(repo, rows);
    let low = bare_lines(repo, more);
    let title = title_lines();
    let gap = gap_lines();
    let upper = head + title + mid;
    let lower = upper + gap + low;
    let all = lower + foot;
    lemma_text_of_add(head, title);
    lemma_text_of_add(head + title, mid);
    lemma_text_of_add(upper, gap);
    lemma_text_of_add(upper + gap, low);
    lemma_text_of_add(lower, foot);
    assert(comment_body(repo, rows, Some(more), trunk, current) == text_of(all));
    let m = mid.len() as int;
    let n = low.len() as int;
    assert forall|i: int| 0 <= i < all.len() implies one_line(#[trigger] all[i]) by {
        if i < 3 {
            assert(all[i] == head[i]);
        } else if i == 3 {
            assert(all[i] == title[0]);
        } else if i < 4 + m {
            assert(all[i] == mid[i - 4]);
        } else if i < 6 + m {
            assert(all[i] == gap[i - 4 - m]);
        } else if i < 6 + m + n {
            assert(all[i] == low[i - 6 - m]);
        } else {
            assert(all[i] == foot[i - 6 - m - n]);
        }
    }
    lemma_lines_of_text(all);
    lemma_numbers_quiet(head, title);
    let a = row_numbers(rows);
    let b = row_numbers(more);
    assert(comments::numbers_in(head + title) + a =~= a);
    assert(a.no_duplicates()) by {
        assert forall|i: int, j: int|
            0 <= i < a.len() && 0 <= j < a.len() && i != j implies a[i] != a[j] by {
            assert((a + b)[i] == a[i] && (a + b)[j] == a[j]);
        }
    }
    lemma_numbers_new(head + title, mid, a);
    lemma_numbers_quiet(upper, gap);
    lemma_numbers_new(upper + gap, low, b);
    lemma_numbers_quiet(lower, foot);
}

/// The rows of a comment, those of the stack first.
pub open spec fn all_row_numbers(
    rows: Seq<CommentRowView>,
    below: Option<Seq<CommentRowView>>,
) -> Seq<u64> {
    match below {
        Some(more) => row_numbers(rows) + row_numbers(more),
        None => row_numbers(rows),
    }
}

/// Whoever reads a stack comment finds the pull requests that it was written with: those of the
/// stack and then those below it, each from the top down.
pub proof fn law_comment_lists_its_rows(
    repo: Seq<char>,
    rows: Seq<CommentRowView>,
    below: Option<Seq<CommentRowView>>,
    trunk: Seq<char>,
    current: Option<u64>,
)
    requires
        one_line(repo),
        !text::contains("/"@ + repo + "/pull"@, "/pull/"@),
        one_line(trunk),
        !text::contains(trunk, "/pull/"@),
        forall|i: int| 0 <= i < rows.len() ==> is_plain_row(repo, #[trigger] rows[i]),
        below matches Some(more) ==> forall|i: int|
            0 <= i < more.len() ==> is_plain_row(repo, #[trigger] more[i]),
        all_row_numbers(rows, below).no_duplicates(),
    ensures
        comments::numbers_in(text::lines(comment_body(repo, rows, below, trunk, current))) == all_row_numbers(
            rows,
            below,
        ),
{
    lemma_repo_plain(repo);
    match below {
        None => {
            lemma_plain_comment(repo, rows, trunk, current);
        },
        Some(more) => {
            lemma_deep_comment(repo, rows, more, trunk, current);
        },
    }
}

/// A repaired comment, read back, gives the pull requests that it was repaired to, bottom first.
pub proof fn law_repaired_comment_reads_back(
    repo: Seq<char>,
    prs: Seq<GhPrView>,
    current: u64,
    trunk: Seq<char>,
)
    requires
        one_line(repo),
        !text::contains("/"@ + repo + "/pull"@, "/pull/"@),
        one_line(trunk),
        !text::contains(trunk, "/pull/"@),
        pr::numbers_of(prs).no_duplicates(),
        forall|i: int|
            0 <= i < prs.len() ==> !text::contains(link_label((#[trigger] prs[i]).title), "/pull/"@)
                && one_line(prs[i].head_ref_name) && one_line(prs[i].created_at),
    ensures
        comments::numbers_in(text::lines(repaired_comment(repo, prs, current, trunk))).reverse() == pr::numbers_of(prs),
{
    let rows = repaired_rows(prs, current);
    let numbers = row_numbers(rows);
    assert forall|i: int| 0 <= i < rows.len() implies is_plain_row(repo, #[trigger] rows[i]) by {
        let pr = prs[prs.len() - 1 - i];
        lemma_hint_one_line(pr.head_ref_name);
    }
    assert(numbers =~= pr::numbers_of(prs).reverse());
    assert(numbers.no_duplicates()) by {
        assert forall|i: int, j: int|
            0 <= i < numbers.len() && 0 <= j < numbers.len() && i != j implies numbers[i]
            != numbers[j] by {
            assert(numbers[i] == pr::numbers_of(prs)[prs.len() - 1 - i]);
            assert(numbers[j] == pr::numbers_of(prs)[prs.len() - 1 - j]);
        }
    }
    let listed = if pr::numbers_of(prs).contains(current) {
        Some(current)
    } else {
        None
    };
    law_comment_lists_its_rows(repo, rows, None, trunk, listed);
    assert(numbers.reverse() =~= pr::numbers_of(prs));
}

} // verus!
