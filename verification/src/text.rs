//! Plain text as sequences of characters.
//!
//! Every function here takes and returns ordinary `&str` and `String` values
//! and says what it computes over their character sequences.

use vstd::prelude::*;

verus! {

/// `String::push` appends one character at the end.
pub assume_specification[ String::push ](string: &mut String, c: char)
    ensures
        final(string)@ == old(string)@.push(c),
;

// ---------------------------------------------------------------------------
// Character classes
// ---------------------------------------------------------------------------

/// The characters with the Unicode property `White_Space`.
pub open spec fn is_space(c: char) -> bool {
    let n = c as int;
    ||| 0x9 <= n <= 0xd
    ||| n == 0x20
    ||| n == 0x85
    ||| n == 0xa0
    ||| n == 0x1680
    ||| 0x2000 <= n <= 0x200a
    ||| n == 0x2028
    ||| n == 0x2029
    ||| n == 0x202f
    ||| n == 0x205f
    ||| n == 0x3000
}

/// The characters of the Unicode category `Cc`.
pub open spec fn is_control(c: char) -> bool {
    let n = c as int;
    n <= 0x1f || 0x7f <= n <= 0x9f
}

pub open spec fn is_digit(c: char) -> bool {
    '0' <= c <= '9'
}

pub open spec fn is_alnum(c: char) -> bool {
    '0' <= c <= '9' || 'a' <= c <= 'z' || 'A' <= c <= 'Z'
}

/// The ASCII lower-case form of a character; other characters stay.
pub open spec fn lower(c: char) -> char {
    if 'A' <= c <= 'Z' {
        ((c as int) + 32) as char
    } else {
        c
    }
}

pub open spec fn lower_all(s: Seq<char>) -> Seq<char> {
    s.map_values(|c: char| lower(c))
}

pub fn char_is_space(c: char) -> (r: bool)
    ensures
        r == is_space(c),
{
    let n: u32 = c as u32;
    (0x9 <= n && n <= 0xd) || n == 0x20 || n == 0x85 || n == 0xa0 || n == 0x1680 || (0x2000 <= n
        && n <= 0x200a) || n == 0x2028 || n == 0x2029 || n == 0x202f || n == 0x205f || n == 0x3000
}

pub fn char_is_control(c: char) -> (r: bool)
    ensures
        r == is_control(c),
{
    let n: u32 = c as u32;
    n <= 0x1f || (0x7f <= n && n <= 0x9f)
}

pub fn char_is_digit(c: char) -> (r: bool)
    ensures
        r == is_digit(c),
{
    let n: u32 = c as u32;
    0x30 <= n && n <= 0x39
}

pub fn char_is_alnum(c: char) -> (r: bool)
    ensures
        r == is_alnum(c),
{
    let n: u32 = c as u32;
    (0x30 <= n && n <= 0x39) || (0x61 <= n && n <= 0x7a) || (0x41 <= n && n <= 0x5a)
}

pub fn char_lower(c: char) -> (r: char)
    ensures
        r == lower(c),
{
    let n: u32 = c as u32;
    if 0x41 <= n && n <= 0x5a {
        let b: u8 = n as u8;
        (b + 32) as char
    } else {
        c
    }
}

// ---------------------------------------------------------------------------
// Building blocks
// ---------------------------------------------------------------------------

/// The characters of a text.
pub fn chars(s: &str) -> (r: Vec<char>)
    ensures
        r@ == s@,
{
    let mut out: Vec<char> = Vec::new();
    for c in it: s.chars()
        invariant
            it.seq() == s@,
            out@ == s@.take(it.index()),
    {
        out.push(c);
        assert(out@ =~= s@.take(it.index() + 1));
    }
    assert(out@ =~= s@);
    out
}

/// The characters `from..to` of a vector, as text.
pub fn slice_text(v: &Vec<char>, from: usize, to: usize) -> (r: String)
    requires
        from <= to <= v@.len(),
    ensures
        r@ == v@.subrange(from as int, to as int),
{
    let mut out = String::new();
    let mut i: usize = from;
    while i < to
        invariant
            from <= i <= to <= v@.len(),
            out@ == v@.subrange(from as int, i as int),
        decreases to - i,
    {
        out.push(v[i]);
        i = i + 1;
        assert(out@ =~= v@.subrange(from as int, i as int));
    }
    out
}

/// Whether two texts hold the same characters.
pub fn same(a: &str, b: &str) -> (r: bool)
    ensures
        r == (a@ == b@),
{
    a.to_owned() == b.to_owned()
}

/// `prefix` followed by `rest`.
pub fn cat(prefix: &str, rest: &str) -> (r: String)
    ensures
        r@ == prefix@ + rest@,
{
    let mut s = prefix.to_owned();
    s.append(rest);
    s
}

/// `left`, `middle` and `right` in a row: the usual shape of a message about one name.
pub fn cat3(left: &str, middle: &str, right: &str) -> (r: String)
    ensures
        r@ == left@ + middle@ + right@,
{
    let mut s = left.to_owned();
    s.append(middle);
    s.append(right);
    s
}

/// Five pieces in a row.
pub fn cat5(a: &str, b: &str, c: &str, d: &str, e: &str) -> (r: String)
    ensures
        r@ == a@ + b@ + c@ + d@ + e@,
{
    let mut s = a.to_owned();
    s.append(b);
    s.append(c);
    s.append(d);
    s.append(e);
    s
}

/// Seven pieces in a row.
pub fn cat7(a: &str, b: &str, c: &str, d: &str, e: &str, f: &str, g: &str) -> (r: String)
    ensures
        r@ == a@ + b@ + c@ + d@ + e@ + f@ + g@,
{
    let mut s = a.to_owned();
    s.append(b);
    s.append(c);
    s.append(d);
    s.append(e);
    s.append(f);
    s.append(g);
    s
}

/// Owned copies of the pieces, in order: the usual shape of a command line.
pub fn words(parts: &[&str]) -> (r: Vec<String>)
    ensures
        r.deep_view() == parts.deep_view(),
{
    let mut v: Vec<String> = Vec::new();
    let mut i: usize = 0;
    while i < parts.len()
        invariant
            i <= parts@.len(),
            v@.len() == i,
            forall|k: int| 0 <= k < i ==> (#[trigger] v@[k])@ == parts@[k]@,
        decreases parts@.len() - i,
    {
        v.push(parts[i].to_owned());
        i = i + 1;
    }
    assert(v.deep_view() =~= parts.deep_view());
    v
}

/// A copy of a list of texts.
pub fn copy_list(items: &Vec<String>) -> (r: Vec<String>)
    ensures
        r.deep_view() == items.deep_view(),
{
    let mut v: Vec<String> = Vec::new();
    let mut i: usize = 0;
    while i < items.len()
        invariant
            i <= items@.len(),
            v@.len() == i,
            forall|k: int| 0 <= k < i ==> (#[trigger] v@[k])@ == items@[k]@,
        decreases items@.len() - i,
    {
        v.push(items[i].clone());
        i = i + 1;
    }
    assert(v.deep_view() =~= items.deep_view());
    v
}

/// A copy of an optional text.
pub fn copy_option(item: &Option<String>) -> (r: Option<String>)
    ensures
        r.deep_view() == item.deep_view(),
{
    match item {
        Some(s) => Some(s.clone()),
        None => None,
    }
}

/// Whether the list holds a text with these characters.
pub fn list_contains(items: &Vec<String>, name: &str) -> (r: bool)
    ensures
        r == items.deep_view().contains(name@),
{
    let mut i: usize = 0;
    while i < items.len()
        invariant
            i <= items@.len(),
            forall|k: int| 0 <= k < i ==> (#[trigger] items@[k])@ != name@,
        decreases items@.len() - i,
    {
        if same(&items[i], name) {
            assert(items.deep_view()[i as int] == name@);
            return true;
        }
        i = i + 1;
    }
    assert forall|k: int| 0 <= k < items.deep_view().len() implies items.deep_view()[k]
        != name@ by {
        assert(items@[k]@ != name@);
    }
    false
}

/// The text in ASCII lower case.
pub fn lowered(s: &str) -> (r: String)
    ensures
        r@ == lower_all(s@),
{
    let v = chars(s);
    let mut out = String::new();
    let mut i: usize = 0;
    while i < v.len()
        invariant
            i <= v@.len(),
            out@ == lower_all(v@.take(i as int)),
        decreases v@.len() - i,
    {
        out.push(char_lower(v[i]));
        i = i + 1;
        assert(out@ =~= lower_all(v@.take(i as int)));
    }
    assert(v@.take(i as int) =~= v@);
    out
}

/// Whether two texts differ at most in the case of ASCII letters.
pub fn same_ignoring_case(a: &str, b: &str) -> (r: bool)
    ensures
        r == (lower_all(a@) == lower_all(b@)),
{
    same(&lowered(a), &lowered(b))
}

// ---------------------------------------------------------------------------
// Trimming
// ---------------------------------------------------------------------------

/// The text without leading white space.
pub open spec fn trim_start(s: Seq<char>) -> Seq<char>
    decreases s.len(),
{
    if s.len() > 0 && is_space(s[0]) {
        trim_start(s.drop_first())
    } else {
        s
    }
}

/// The text without trailing white space.
pub open spec fn trim_end(s: Seq<char>) -> Seq<char>
    decreases s.len(),
{
    if s.len() > 0 && is_space(s.last()) {
        trim_end(s.drop_last())
    } else {
        s
    }
}

/// The text without leading and trailing white space.
pub open spec fn trim(s: Seq<char>) -> Seq<char> {
    trim_end(trim_start(s))
}

/// Whether nothing is left of a text once it is trimmed.
pub open spec fn is_blank(s: Seq<char>) -> bool {
    trim(s).len() == 0
}

/// The text without any `c` at its end.
pub open spec fn trim_end_char(s: Seq<char>, c: char) -> Seq<char>
    decreases s.len(),
{
    if s.len() > 0 && s.last() == c {
        trim_end_char(s.drop_last(), c)
    } else {
        s
    }
}

/// The text without any `c` at its start.
pub open spec fn trim_start_char(s: Seq<char>, c: char) -> Seq<char>
    decreases s.len(),
{
    if s.len() > 0 && s[0] == c {
        trim_start_char(s.drop_first(), c)
    } else {
        s
    }
}

/// The text without any `c` at either end.
pub open spec fn trim_char(s: Seq<char>, c: char) -> Seq<char> {
    trim_end_char(trim_start_char(s, c), c)
}

/// Trimming never adds characters.
pub proof fn lemma_trim_len(s: Seq<char>)
    ensures
        trim_start(s).len() <= s.len(),
        trim(s).len() <= s.len(),
    decreases s.len(),
{
    if s.len() > 0 && is_space(s[0]) {
        lemma_trim_len(s.drop_first());
    }
    lemma_trim_end_len(trim_start(s));
}

proof fn lemma_trim_end_len(s: Seq<char>)
    ensures
        trim_end(s).len() <= s.len(),
    decreases s.len(),
{
    if s.len() > 0 && is_space(s.last()) {
        lemma_trim_end_len(s.drop_last());
    }
}

pub fn trimmed(s: &str) -> (r: String)
    ensures
        r@ == trim(s@),
{
    let v = chars(s);
    let mut i: usize = 0;
    assert(v@.skip(0) =~= v@);
    while i < v.len() && char_is_space(v[i])
        invariant
            i <= v@.len(),
            trim_start(v@) == trim_start(v@.skip(i as int)),
        decreases v@.len() - i,
    {
        assert(v@.skip(i as int).drop_first() =~= v@.skip(i + 1));
        i = i + 1;
    }
    assert(trim_start(v@) == v@.subrange(i as int, v@.len() as int)) by {
        assert(v@.skip(i as int) =~= v@.subrange(i as int, v@.len() as int));
    }
    let mut j: usize = v.len();
    while j > i && char_is_space(v[j - 1])
        invariant
            i <= j <= v@.len(),
            trim_end(trim_start(v@)) == trim_end(v@.subrange(i as int, j as int)),
        decreases j,
    {
        assert(v@.subrange(i as int, j as int).drop_last() =~= v@.subrange(i as int, j - 1));
        j = j - 1;
    }
    slice_text(&v, i, j)
}

pub fn trimmed_start(s: &str) -> (r: String)
    ensures
        r@ == trim_start(s@),
{
    let v = chars(s);
    let mut i: usize = 0;
    assert(v@.skip(0) =~= v@);
    while i < v.len() && char_is_space(v[i])
        invariant
            i <= v@.len(),
            trim_start(v@) == trim_start(v@.skip(i as int)),
        decreases v@.len() - i,
    {
        assert(v@.skip(i as int).drop_first() =~= v@.skip(i + 1));
        i = i + 1;
    }
    assert(v@.skip(i as int) =~= v@.subrange(i as int, v@.len() as int));
    slice_text(&v, i, v.len())
}

pub fn blank(s: &str) -> (r: bool)
    ensures
        r == is_blank(s@),
{
    let t = trimmed(s);
    t.as_str().is_empty()
}

pub fn trimmed_end_char(s: &str, c: char) -> (r: String)
    ensures
        r@ == trim_end_char(s@, c),
{
    let v = chars(s);
    let mut j: usize = v.len();
    assert(v@.take(j as int) =~= v@);
    while j > 0 && v[j - 1] == c
        invariant
            j <= v@.len(),
            trim_end_char(v@, c) == trim_end_char(v@.take(j as int), c),
        decreases j,
    {
        assert(v@.take(j as int).drop_last() =~= v@.take(j - 1));
        j = j - 1;
    }
    assert(v@.take(j as int) =~= v@.subrange(0, j as int));
    slice_text(&v, 0, j)
}

pub fn trimmed_char(s: &str, c: char) -> (r: String)
    ensures
        r@ == trim_char(s@, c),
{
    let v = chars(s);
    let mut i: usize = 0;
    assert(v@.skip(0) =~= v@);
    while i < v.len() && v[i] == c
        invariant
            i <= v@.len(),
            trim_start_char(v@, c) == trim_start_char(v@.skip(i as int), c),
        decreases v@.len() - i,
    {
        assert(v@.skip(i as int).drop_first() =~= v@.skip(i + 1));
        i = i + 1;
    }
    assert(v@.skip(i as int) =~= v@.subrange(i as int, v@.len() as int));
    let rest = slice_text(&v, i, v.len());
    trimmed_end_char(&rest, c)
}

// ---------------------------------------------------------------------------
// Searching
// ---------------------------------------------------------------------------

/// Whether `pat` stands in `s` at position `i`.
pub open spec fn stands_at(s: Seq<char>, pat: Seq<char>, i: int) -> bool {
    0 <= i && i + pat.len() <= s.len() && s.subrange(i, i + pat.len()) == pat
}

/// The first position from `i` on where `pat` stands.
pub open spec fn find_from(s: Seq<char>, pat: Seq<char>, i: int) -> Option<int>
    decreases s.len() - i + 1,
{
    if i + pat.len() > s.len() {
        None
    } else if stands_at(s, pat, i) {
        Some(i)
    } else {
        find_from(s, pat, i + 1)
    }
}

/// The first position where `pat` stands in `s`.
pub open spec fn find(s: Seq<char>, pat: Seq<char>) -> Option<int> {
    find_from(s, pat, 0)
}

/// The last position up to `i` where `pat` stands.
pub open spec fn rfind_from(s: Seq<char>, pat: Seq<char>, i: int) -> Option<int>
    decreases i + 1,
{
    if i < 0 {
        None
    } else if stands_at(s, pat, i) {
        Some(i)
    } else {
        rfind_from(s, pat, i - 1)
    }
}

/// The last position where `pat` stands in `s`.
pub open spec fn rfind(s: Seq<char>, pat: Seq<char>) -> Option<int> {
    rfind_from(s, pat, s.len() - pat.len())
}

pub open spec fn contains(s: Seq<char>, pat: Seq<char>) -> bool {
    exists|i: int| stands_at(s, pat, i)
}

pub open spec fn starts_with(s: Seq<char>, pat: Seq<char>) -> bool {
    pat.len() <= s.len() && s.take(pat.len() as int) == pat
}

pub open spec fn ends_with(s: Seq<char>, pat: Seq<char>) -> bool {
    pat.len() <= s.len() && s.skip(s.len() - pat.len()) == pat
}

/// `s` without `pat` in front of it, where it stands there.
pub open spec fn strip_prefix(s: Seq<char>, pat: Seq<char>) -> Option<Seq<char>> {
    if starts_with(s, pat) {
        Some(s.skip(pat.len() as int))
    } else {
        None
    }
}

/// What stands before and after the first `pat`.
pub open spec fn split_once(s: Seq<char>, pat: Seq<char>) -> Option<(Seq<char>, Seq<char>)> {
    match find(s, pat) {
        Some(i) => Some((s.take(i), s.skip(i + pat.len()))),
        None => None,
    }
}

/// What stands before and after the last `pat`.
pub open spec fn rsplit_once(s: Seq<char>, pat: Seq<char>) -> Option<(Seq<char>, Seq<char>)> {
    match rfind(s, pat) {
        Some(i) => Some((s.take(i), s.skip(i + pat.len()))),
        None => None,
    }
}

/// `find_from` gives the least position from `i` on, and only then `None` when there is none.
pub proof fn lemma_find_from(s: Seq<char>, pat: Seq<char>, i: int)
    requires
        0 <= i,
    ensures
        match find_from(s, pat, i) {
            Some(k) => i <= k && stands_at(s, pat, k) && forall|j: int|
                i <= j < k ==> !stands_at(s, pat, j),
            None => forall|j: int| i <= j ==> !stands_at(s, pat, j),
        },
    decreases s.len() - i + 1,
{
    if i + pat.len() > s.len() {
    } else if stands_at(s, pat, i) {
    } else {
        lemma_find_from(s, pat, i + 1);
    }
}

/// A text is found exactly when it is contained.
pub proof fn lemma_find_contains(s: Seq<char>, pat: Seq<char>)
    ensures
        find(s, pat) is Some == contains(s, pat),
        find(s, pat) is Some ==> stands_at(s, pat, find(s, pat)->0),
{
    lemma_find_from(s, pat, 0);
}

fn pattern_at(v: &Vec<char>, p: &Vec<char>, i: usize) -> (r: bool)
    requires
        i + p@.len() <= v@.len(),
    ensures
        r == stands_at(v@, p@, i as int),
{
    let n: usize = v.len();
    let mut k: usize = 0;
    while k < p.len()
        invariant
            k <= p@.len(),
            n == v@.len(),
            i + p@.len() <= n,
            forall|j: int| 0 <= j < k ==> v@[i + j] == p@[j],
        decreases p@.len() - k,
    {
        if v[i + k] != p[k] {
            assert(v@.subrange(i as int, i + p@.len())[k as int] != p@[k as int]);
            return false;
        }
        k = k + 1;
    }
    assert(v@.subrange(i as int, i + p@.len()) =~= p@);
    true
}

fn find_index(v: &Vec<char>, p: &Vec<char>) -> (r: Option<usize>)
    ensures
        match r {
            Some(i) => find(v@, p@) == Some(i as int) && stands_at(v@, p@, i as int),
            None => find(v@, p@) is None,
        },
{
    if p.len() > v.len() {
        return None;
    }
    let last: usize = v.len() - p.len();
    let mut i: usize = 0;
    loop
        invariant
            last + p@.len() == v@.len(),
            i <= last,
            find(v@, p@) == find_from(v@, p@, i as int),
        decreases last - i,
    {
        if pattern_at(v, p, i) {
            return Some(i);
        }
        if i == last {
            assert(find_from(v@, p@, i + 1) is None);
            return None;
        }
        i = i + 1;
    }
}

fn rfind_index(v: &Vec<char>, p: &Vec<char>) -> (r: Option<usize>)
    ensures
        match r {
            Some(i) => rfind(v@, p@) == Some(i as int) && stands_at(v@, p@, i as int),
            None => rfind(v@, p@) is None,
        },
{
    if p.len() > v.len() {
        return None;
    }
    let mut i: usize = v.len() - p.len();
    loop
        invariant
            i + p@.len() <= v@.len(),
            rfind(v@, p@) == rfind_from(v@, p@, i as int),
        decreases i,
    {
        if pattern_at(v, p, i) {
            return Some(i);
        }
        if i == 0 {
            assert(rfind_from(v@, p@, -1) is None);
            return None;
        }
        i = i - 1;
    }
}

/// The first position where `pat` stands in `s`.
pub fn position(s: &str, pat: &str) -> (r: Option<usize>)
    ensures
        match r {
            Some(i) => find(s@, pat@) == Some(i as int) && stands_at(s@, pat@, i as int),
            None => find(s@, pat@) is None,
        },
{
    find_index(&chars(s), &chars(pat))
}

/// The first `n` characters of a text.
pub fn text_take(s: &str, n: usize) -> (r: String)
    requires
        n <= s@.len(),
    ensures
        r@ == s@.take(n as int),
{
    assert(s@.take(n as int) =~= s@.subrange(0, n as int));
    slice_text(&chars(s), 0, n)
}

/// The text from its character `n` on.
pub fn text_skip(s: &str, n: usize) -> (r: String)
    requires
        n <= s@.len(),
    ensures
        r@ == s@.skip(n as int),
{
    let v = chars(s);
    assert(s@.skip(n as int) =~= s@.subrange(n as int, s@.len() as int));
    slice_text(&v, n, v.len())
}

/// How many characters a text holds.
pub fn char_count(s: &str) -> (r: usize)
    ensures
        r == s@.len(),
{
    chars(s).len()
}

pub fn text_contains(s: &str, pat: &str) -> (r: bool)
    ensures
        r == contains(s@, pat@),
{
    proof {
        lemma_find_contains(s@, pat@);
    }
    find_index(&chars(s), &chars(pat)).is_some()
}

pub fn text_starts_with(s: &str, pat: &str) -> (r: bool)
    ensures
        r == starts_with(s@, pat@),
{
    let v = chars(s);
    let p = chars(pat);
    assert(pat@.len() <= s@.len() ==> s@.take(pat@.len() as int) =~= s@.subrange(
        0,
        pat@.len() as int,
    ));
    p.len() <= v.len() && pattern_at(&v, &p, 0)
}

pub fn text_ends_with(s: &str, pat: &str) -> (r: bool)
    ensures
        r == ends_with(s@, pat@),
{
    let v = chars(s);
    let p = chars(pat);
    if p.len() > v.len() {
        return false;
    }
    assert(s@.skip(s@.len() - pat@.len()) =~= s@.subrange(s@.len() - pat@.len(), s@.len() as int));
    pattern_at(&v, &p, v.len() - p.len())
}

pub fn text_strip_prefix(s: &str, pat: &str) -> (r: Option<String>)
    ensures
        r.deep_view() == strip_prefix(s@, pat@),
{
    if text_starts_with(s, pat) {
        let v = chars(s);
        let n: usize = chars(pat).len();
        assert(s@.skip(n as int) =~= s@.subrange(n as int, s@.len() as int));
        Some(slice_text(&v, n, v.len()))
    } else {
        None
    }
}

/// The text after the first `pat`.
pub fn after_first(s: &str, pat: &str) -> (r: Option<String>)
    ensures
        r.deep_view() == match find(s@, pat@) {
            Some(i) => Some(s@.skip(i + pat@.len())),
            None => None,
        },
{
    let v = chars(s);
    let p = chars(pat);
    match find_index(&v, &p) {
        Some(i) => {
            let n: usize = v.len();
            let from: usize = i + p.len();
            assert(from <= n);
            assert(s@.skip(from as int) =~= s@.subrange(from as int, s@.len() as int));
            Some(slice_text(&v, from, v.len()))
        },
        None => None,
    }
}

/// The text before the first `pat`.
pub fn before_first(s: &str, pat: &str) -> (r: Option<String>)
    ensures
        r.deep_view() == match find(s@, pat@) {
            Some(i) => Some(s@.take(i)),
            None => None,
        },
{
    let v = chars(s);
    let p = chars(pat);
    match find_index(&v, &p) {
        Some(i) => {
            assert(s@.take(i as int) =~= s@.subrange(0, i as int));
            Some(slice_text(&v, 0, i))
        },
        None => None,
    }
}

/// The text after the last `pat`.
pub fn after_last(s: &str, pat: &str) -> (r: Option<String>)
    ensures
        r.deep_view() == match rfind(s@, pat@) {
            Some(i) => Some(s@.skip(i + pat@.len())),
            None => None,
        },
{
    let v = chars(s);
    let p = chars(pat);
    match rfind_index(&v, &p) {
        Some(i) => {
            let n: usize = v.len();
            let from: usize = i + p.len();
            assert(from <= n);
            assert(s@.skip(from as int) =~= s@.subrange(from as int, s@.len() as int));
            Some(slice_text(&v, from, v.len()))
        },
        None => None,
    }
}

/// The text before the last `pat`.
pub fn before_last(s: &str, pat: &str) -> (r: Option<String>)
    ensures
        r.deep_view() == match rfind(s@, pat@) {
            Some(i) => Some(s@.take(i)),
            None => None,
        },
{
    let v = chars(s);
    let p = chars(pat);
    match rfind_index(&v, &p) {
        Some(i) => {
            assert(s@.take(i as int) =~= s@.subrange(0, i as int));
            Some(slice_text(&v, 0, i))
        },
        None => None,
    }
}

// ---------------------------------------------------------------------------
// Splitting and joining
// ---------------------------------------------------------------------------

/// How many characters stand before the first `c`.
pub open spec fn until(s: Seq<char>, c: char) -> nat
    decreases s.len(),
{
    if s.len() == 0 || s[0] == c {
        0
    } else {
        1 + until(s.drop_first(), c)
    }
}

pub proof fn lemma_until(s: Seq<char>, c: char)
    ensures
        until(s, c) <= s.len(),
        until(s, c) < s.len() ==> s[until(s, c) as int] == c,
        forall|i: int| 0 <= i < until(s, c) ==> s[i] != c,
    decreases s.len(),
{
    if s.len() == 0 || s[0] == c {
    } else {
        lemma_until(s.drop_first(), c);
        assert forall|i: int| 0 <= i < until(s, c) implies s[i] != c by {
            if i > 0 {
                assert(s.drop_first()[i - 1] == s[i]);
            }
        }
        if until(s, c) < s.len() {
            assert(s.drop_first()[until(s.drop_first(), c) as int] == s[until(s, c) as int]);
        }
    }
}

/// The first `c` stands at `n` if nothing before is a `c`.
pub proof fn lemma_until_at(s: Seq<char>, c: char, n: int)
    requires
        0 <= n <= s.len(),
        n < s.len() ==> s[n] == c,
        forall|i: int| 0 <= i < n ==> s[i] != c,
    ensures
        until(s, c) == n,
{
    lemma_until(s, c);
    if until(s, c) < n {
        assert(s[until(s, c) as int] == c);
    }
}

/// The pieces between the separators `c`; a text without separator is one piece.
pub open spec fn split(s: Seq<char>, c: char) -> Seq<Seq<char>>
    decreases s.len(),
{
    let n = until(s, c);
    if n < s.len() {
        seq![s.take(n as int)] + split(s.skip(n as int + 1), c)
    } else {
        seq![s]
    }
}

/// A line without one carriage return at its end.
pub open spec fn strip_cr(s: Seq<char>) -> Seq<char> {
    if s.len() > 0 && s.last() == '\r' {
        s.drop_last()
    } else {
        s
    }
}

/// The lines of a text; each ends with a line feed, a carriage return and a line feed, or the text.
pub open spec fn lines(s: Seq<char>) -> Seq<Seq<char>>
    decreases s.len(),
{
    let n = until(s, '\n');
    if s.len() == 0 {
        seq![]
    } else if n < s.len() {
        seq![strip_cr(s.take(n as int))] + lines(s.skip(n as int + 1))
    } else {
        seq![s]
    }
}

/// The pieces in order with `sep` between neighbours.
pub open spec fn join(parts: Seq<Seq<char>>, sep: Seq<char>) -> Seq<char>
    decreases parts.len(),
{
    if parts.len() == 0 {
        seq![]
    } else if parts.len() == 1 {
        parts[0]
    } else {
        join(parts.drop_last(), sep) + sep + parts.last()
    }
}

/// How far the first `c` is from position `i` of the vector; its end if there is none.
fn until_index(v: &Vec<char>, i: usize, c: char) -> (r: usize)
    requires
        i <= v@.len(),
    ensures
        i <= r <= v@.len(),
        r == i + until(v@.skip(i as int), c),
{
    let mut j: usize = i;
    while j < v.len() && v[j] != c
        invariant
            i <= j <= v@.len(),
            until(v@.skip(i as int), c) == (j - i) + until(v@.skip(j as int), c),
        decreases v@.len() - j,
    {
        assert(v@.skip(j as int).drop_first() =~= v@.skip(j + 1));
        j = j + 1;
    }
    j
}

pub fn split_text(s: &str, c: char) -> (r: Vec<String>)
    ensures
        r.deep_view() == split(s@, c),
{
    let v = chars(s);
    let mut out: Vec<String> = Vec::new();
    let mut i: usize = 0;
    assert(v@.skip(0) =~= v@);
    assert(out.deep_view() + split(v@, c) =~= split(v@, c));
    loop
        invariant
            i <= v@.len(),
            out.deep_view() + split(v@.skip(i as int), c) == split(v@, c),
            v@ == s@,
        decreases v@.len() - i,
    {
        let j = until_index(&v, i, c);
        let ghost before = out.deep_view();
        let ghost rest = v@.skip(i as int);
        let piece = slice_text(&v, i, j);
        out.push(piece);
        assert(out.deep_view() =~= before.push(piece@));
        if j == v.len() {
            assert(piece@ =~= rest);
            assert(out.deep_view() =~= before + seq![rest]);
            return out;
        }
        assert(piece@ =~= rest.take(j - i));
        assert(rest.skip(j - i + 1) =~= v@.skip(j + 1));
        assert(before + (seq![rest.take(j - i)] + split(v@.skip(j + 1), c)) =~= out.deep_view()
            + split(v@.skip(j + 1), c));
        i = j + 1;
    }
}

pub fn text_lines(s: &str) -> (r: Vec<String>)
    ensures
        r.deep_view() == lines(s@),
{
    let v = chars(s);
    let mut out: Vec<String> = Vec::new();
    let mut i: usize = 0;
    assert(v@.skip(0) =~= v@);
    assert(out.deep_view() + lines(v@) =~= lines(v@));
    while i < v.len()
        invariant
            i <= v@.len(),
            out.deep_view() + lines(v@.skip(i as int)) == lines(v@),
            v@ == s@,
        decreases v@.len() - i,
    {
        let j = until_index(&v, i, '\n');
        let ghost before = out.deep_view();
        let ghost rest = v@.skip(i as int);
        if j == v.len() {
            let piece = slice_text(&v, i, j);
            out.push(piece);
            assert(piece@ =~= rest);
            assert(out.deep_view() =~= before + seq![rest]);
            return out;
        }
        let end: usize = if j > i && v[j - 1] == '\r' {
            j - 1
        } else {
            j
        };
        let piece = slice_text(&v, i, end);
        out.push(piece);
        assert(piece@ =~= strip_cr(rest.take(j - i)));
        assert(out.deep_view() =~= before.push(piece@));
        assert(rest.skip(j - i + 1) =~= v@.skip(j + 1));
        assert(before + (seq![strip_cr(rest.take(j - i))] + lines(v@.skip(j + 1)))
            =~= out.deep_view() + lines(v@.skip(j + 1)));
        i = j + 1;
    }
    assert(v@.skip(i as int).len() == 0);
    assert(out.deep_view() =~= lines(v@));
    out
}

/// The lines that hold anything, trimmed.
pub open spec fn trimmed_kept(all: Seq<Seq<char>>) -> Seq<Seq<char>>
    decreases all.len(),
{
    if all.len() == 0 {
        seq![]
    } else {
        let rest = trimmed_kept(all.drop_last());
        if is_blank(all.last()) {
            rest
        } else {
            rest.push(trim(all.last()))
        }
    }
}

/// The lines of a text that hold anything, trimmed.
pub open spec fn filled_lines(s: Seq<char>) -> Seq<Seq<char>> {
    trimmed_kept(lines(s))
}

pub fn text_filled_lines(s: &str) -> (r: Vec<String>)
    ensures
        r.deep_view() == filled_lines(s@),
{
    let all = text_lines(s);
    let mut out: Vec<String> = Vec::new();
    let mut i: usize = 0;
    assert(out.deep_view() =~= trimmed_kept(all.deep_view().take(0)));
    while i < all.len()
        invariant
            i <= all@.len(),
            out.deep_view() == trimmed_kept(all.deep_view().take(i as int)),
        decreases all@.len() - i,
    {
        let ghost next = all.deep_view().take(i + 1);
        let ghost before = out.deep_view();
        assert(next.drop_last() =~= all.deep_view().take(i as int));
        assert(next.last() == all@[i as int]@);
        let line = trimmed(&all[i]);
        if !line.as_str().is_empty() {
            out.push(line);
            assert(out.deep_view() =~= before.push(line@));
        }
        i = i + 1;
    }
    assert(all.deep_view().take(i as int) =~= all.deep_view());
    out
}

pub fn join_text(parts: &Vec<String>, sep: &str) -> (r: String)
    ensures
        r@ == join(parts.deep_view(), sep@),
{
    let mut out = String::new();
    let mut i: usize = 0;
    while i < parts.len()
        invariant
            i <= parts@.len(),
            out@ == join(parts.deep_view().take(i as int), sep@),
        decreases parts@.len() - i,
    {
        let ghost taken = parts.deep_view().take(i + 1);
        assert(taken.drop_last() =~= parts.deep_view().take(i as int));
        if i > 0 {
            out.append(sep);
            out.append(&parts[i]);
        } else {
            out = parts[i].clone();
        }
        i = i + 1;
        assert(out@ == join(taken, sep@));
    }
    assert(parts.deep_view().take(i as int) =~= parts.deep_view());
    out
}

// ---------------------------------------------------------------------------
// Bytes
// ---------------------------------------------------------------------------

/// How many bytes a character takes in UTF-8.
pub open spec fn utf8_width(c: char) -> nat {
    let n = c as int;
    if n < 0x80 {
        1
    } else if n < 0x800 {
        2
    } else if n < 0x10000 {
        3
    } else {
        4
    }
}

fn char_width(c: char) -> (r: usize)
    ensures
        r == utf8_width(c),
{
    let n: u32 = c as u32;
    if n < 0x80 {
        1
    } else if n < 0x800 {
        2
    } else if n < 0x10000 {
        3
    } else {
        4
    }
}

/// The characters that fill the first `n` bytes, if a character ends there.
pub open spec fn byte_prefix(s: Seq<char>, n: int) -> Option<Seq<char>>
    decreases s.len(),
{
    if n == 0 {
        Some(seq![])
    } else if s.len() == 0 || n < utf8_width(s[0]) {
        None
    } else {
        match byte_prefix(s.drop_first(), n - utf8_width(s[0])) {
            Some(rest) => Some(seq![s[0]] + rest),
            None => None,
        }
    }
}

pub fn text_byte_prefix(s: &str, n: usize) -> (r: Option<String>)
    ensures
        r.deep_view() == byte_prefix(s@, n as int),
{
    let v = chars(s);
    let mut left: usize = n;
    let mut i: usize = 0;
    assert(v@.skip(0) =~= v@);
    assert(byte_prefix(v@, n as int) matches Some(rest) ==> v@.take(0) + rest =~= rest);
    while left > 0
        invariant
            i <= v@.len(),
            v@ == s@,
            byte_prefix(s@, n as int) == match byte_prefix(v@.skip(i as int), left as int) {
                Some(rest) => Some(v@.take(i as int) + rest),
                None => None,
            },
        decreases left,
    {
        if i == v.len() {
            return None;
        }
        let width: usize = char_width(v[i]);
        if left < width {
            return None;
        }
        proof {
            let tail = v@.skip(i as int);
            assert(tail.drop_first() =~= v@.skip(i + 1));
            match byte_prefix(tail.drop_first(), left - width) {
                Some(rest) => {
                    assert(v@.take(i as int) + (seq![tail[0]] + rest) =~= v@.take(i + 1) + rest);
                },
                None => {},
            }
        }
        left = left - width;
        i = i + 1;
    }
    assert(v@.take(i as int) + seq![] =~= s@.take(i as int));
    assert(s@.take(i as int) =~= v@.subrange(0, i as int));
    Some(slice_text(&v, 0, i))
}

// ---------------------------------------------------------------------------
// Numbers
// ---------------------------------------------------------------------------

pub open spec fn digit(n: nat) -> char {
    (('0' as int) + n) as char
}

/// The decimal digits of a number, without leading zeros.
pub open spec fn decimal(n: nat) -> Seq<char>
    decreases n,
{
    if n < 10 {
        seq![digit(n)]
    } else {
        decimal(n / 10).push(digit(n % 10))
    }
}

pub open spec fn all_digits(s: Seq<char>) -> bool {
    forall|i: int| 0 <= i < s.len() ==> is_digit(#[trigger] s[i])
}

pub fn text_all_digits(s: &str) -> (r: bool)
    ensures
        r == all_digits(s@),
{
    let v = chars(s);
    let mut i: usize = 0;
    while i < v.len()
        invariant
            i <= v@.len(),
            v@ == s@,
            forall|k: int| 0 <= k < i ==> is_digit(#[trigger] v@[k]),
        decreases v@.len() - i,
    {
        if !char_is_digit(v[i]) {
            assert(!is_digit(s@[i as int]));
            return false;
        }
        i = i + 1;
    }
    true
}

/// The number that a row of digits writes.
pub open spec fn digits_value(s: Seq<char>) -> nat
    decreases s.len(),
{
    if s.len() == 0 {
        0
    } else {
        (digits_value(s.drop_last()) * 10 + (s.last() as int - '0' as int)) as nat
    }
}

/// The number that a text writes in decimal, with an optional plus sign, if it is at most `u64::MAX`.
pub open spec fn parse_number(s: Seq<char>) -> Option<nat> {
    let d = if s.len() > 0 && s[0] == '+' {
        s.drop_first()
    } else {
        s
    };
    if d.len() > 0 && all_digits(d) && digits_value(d) <= u64::MAX {
        Some(digits_value(d))
    } else {
        None
    }
}

pub fn number_text(n: u64) -> (r: String)
    ensures
        r@ == decimal(n as nat),
    decreases n,
{
    let d: u8 = 48 + (n % 10) as u8;
    let mut s = if n < 10 {
        String::new()
    } else {
        number_text(n / 10)
    };
    s.push(d as char);
    assert(n < 10 ==> s@ =~= decimal(n as nat));
    s
}

proof fn lemma_digits_prefix(s: Seq<char>, i: int)
    requires
        0 <= i <= s.len(),
        all_digits(s),
    ensures
        digits_value(s.take(i)) <= digits_value(s),
    decreases s.len() - i,
{
    if i < s.len() {
        lemma_digits_prefix(s, i + 1);
        assert(s.take(i + 1).drop_last() =~= s.take(i));
        assert(is_digit(s[i]));
    } else {
        assert(s.take(i) =~= s);
    }
}

pub fn parse_text_number(s: &str) -> (r: Option<u64>)
    ensures
        match r {
            Some(n) => parse_number(s@) == Some(n as nat),
            None => parse_number(s@) is None,
        },
{
    let v = chars(s);
    let start: usize = if v.len() > 0 && v[0] == '+' {
        1
    } else {
        0
    };
    let ghost d = if s@.len() > 0 && s@[0] == '+' {
        s@.drop_first()
    } else {
        s@
    };
    assert(d =~= v@.skip(start as int));
    if start == v.len() {
        return None;
    }
    let mut i: usize = start;
    let mut total: u64 = 0;
    assert(d.take(0) =~= seq![]);
    while i < v.len()
        invariant
            v@ == s@,
            start <= i <= v@.len(),
            d == v@.skip(start as int),
            d == (if s@.len() > 0 && s@[0] == '+' {
                s@.drop_first()
            } else {
                s@
            }),
            all_digits(d.take(i - start)),
            total == digits_value(d.take(i - start)),
        decreases v@.len() - i,
    {
        let c = v[i];
        assert(d[i - start] == c);
        if !char_is_digit(c) {
            return None;
        }
        let ghost next = d.take(i - start + 1);
        assert(next.drop_last() =~= d.take(i - start));
        assert forall|k: int| 0 <= k < next.len() implies is_digit(#[trigger] next[k]) by {
            if k < i - start {
                assert(d.take(i - start)[k] == next[k]);
            }
        }
        let w: u64 = ((c as u32) - 48) as u64;
        if total > (u64::MAX - w) / 10 {
            proof {
                assert(digits_value(next) == total * 10 + w);
                assert(digits_value(next) > u64::MAX);
                if all_digits(d) {
                    lemma_digits_prefix(d, i - start + 1);
                }
            }
            return None;
        }
        total = total * 10 + w;
        i = i + 1;
    }
    assert(d.take(i - start) =~= d);
    Some(total)
}

/// Reading the digits of a number gives the number back.
pub proof fn law_decimal_reads_back(n: nat)
    ensures
        all_digits(decimal(n)),
        decimal(n).len() > 0,
        digits_value(decimal(n)) == n,
        n <= u64::MAX ==> parse_number(decimal(n)) == Some(n),
    decreases n,
{
    if n < 10 {
        assert(decimal(n).drop_last() =~= seq![]);
        assert(digits_value(seq![]) == 0);
    } else {
        law_decimal_reads_back(n / 10);
        assert(decimal(n).drop_last() =~= decimal(n / 10));
        assert forall|i: int| 0 <= i < decimal(n).len() implies is_digit(
            #[trigger] decimal(n)[i],
        ) by {
            if i < decimal(n / 10).len() {
                assert(decimal(n)[i] == decimal(n / 10)[i]);
            }
        }
    }
    assert(is_digit(decimal(n)[0]));
}

/// What is wrong with a row of digits from position `i` on, `value` being what stands before.
pub open spec fn digit_fault(d: Seq<char>, i: int, value: nat) -> Option<Seq<char>>
    decreases d.len() - i,
{
    if i >= d.len() {
        None
    } else if !is_digit(d[i]) {
        Some("invalid digit found in string"@)
    } else {
        let next = (value * 10 + (d[i] as int - '0' as int)) as nat;
        if next > u64::MAX {
            Some("number too large to fit in target type"@)
        } else {
            digit_fault(d, i + 1, next)
        }
    }
}

/// Why a text is no number.
pub open spec fn number_fault(s: Seq<char>) -> Seq<char> {
    if s.len() == 0 {
        "cannot parse integer from empty string"@
    } else {
        let d = if s[0] == '+' {
            s.drop_first()
        } else {
            s
        };
        match digit_fault(d, 0, 0) {
            Some(fault) => fault,
            None => "invalid digit found in string"@,
        }
    }
}

pub fn text_number_fault(s: &str) -> (r: String)
    ensures
        r@ == number_fault(s@),
{
    let v = chars(s);
    if v.len() == 0 {
        return "cannot parse integer from empty string".to_owned();
    }
    let start: usize = if v[0] == '+' {
        1
    } else {
        0
    };
    let ghost d = if s@[0] == '+' {
        s@.drop_first()
    } else {
        s@
    };
    let mut i: usize = start;
    let mut total: u64 = 0;
    while i < v.len()
        invariant
            v@ == s@,
            v@.len() > 0,
            start == (if s@[0] == '+' {
                1int
            } else {
                0int
            }),
            start <= i <= v@.len(),
            d == (if s@[0] == '+' {
                s@.drop_first()
            } else {
                s@
            }),
            digit_fault(d, 0, 0) == digit_fault(d, i - start, total as nat),
        decreases v@.len() - i,
    {
        let c = v[i];
        assert(d[i - start] == c);
        if !char_is_digit(c) {
            return "invalid digit found in string".to_owned();
        }
        let w: u64 = ((c as u32) - 48) as u64;
        if total > (u64::MAX - w) / 10 {
            return "number too large to fit in target type".to_owned();
        }
        total = total * 10 + w;
        i = i + 1;
    }
    "invalid digit found in string".to_owned()
}

// ---------------------------------------------------------------------------
// Order
// ---------------------------------------------------------------------------

/// Whether `a` comes before `b`: character by character, a text before what continues it.
pub open spec fn comes_before(a: Seq<char>, b: Seq<char>) -> bool
    decreases a.len(),
{
    if b.len() == 0 {
        false
    } else if a.len() == 0 {
        true
    } else if a[0] != b[0] {
        a[0] < b[0]
    } else {
        comes_before(a.drop_first(), b.drop_first())
    }
}

pub fn text_before(a: &str, b: &str) -> (r: bool)
    ensures
        r == comes_before(a@, b@),
{
    let va = chars(a);
    let vb = chars(b);
    let mut i: usize = 0;
    assert(va@.skip(0) =~= va@ && vb@.skip(0) =~= vb@);
    while i < va.len() && i < vb.len()
        invariant
            i <= va@.len(),
            i <= vb@.len(),
            va@ == a@,
            vb@ == b@,
            comes_before(va@, vb@) == comes_before(va@.skip(i as int), vb@.skip(i as int)),
        decreases va@.len() - i,
    {
        if va[i] != vb[i] {
            return va[i] < vb[i];
        }
        assert(va@.skip(i as int).drop_first() =~= va@.skip(i + 1));
        assert(vb@.skip(i as int).drop_first() =~= vb@.skip(i + 1));
        i = i + 1;
    }
    i < vb.len()
}

/// Of two texts, one comes before the other or they are the same.
pub proof fn lemma_order_total(a: Seq<char>, b: Seq<char>)
    ensures
        comes_before(a, b) || a == b || comes_before(b, a),
        !(comes_before(a, b) && comes_before(b, a)),
        !comes_before(a, a),
        comes_before(a, b) ==> a != b,
    decreases a.len(),
{
    if a.len() > 0 && b.len() > 0 {
        lemma_order_total(a.drop_first(), b.drop_first());
        if a[0] == b[0] && a.drop_first() == b.drop_first() {
            assert(a =~= seq![a[0]] + a.drop_first());
            assert(b =~= seq![b[0]] + b.drop_first());
        }
    } else if a.len() == 0 && b.len() == 0 {
        assert(a =~= b);
    }
    if a.len() > 0 {
        lemma_order_irreflexive(a);
    }
}

proof fn lemma_order_irreflexive(a: Seq<char>)
    ensures
        !comes_before(a, a),
    decreases a.len(),
{
    if a.len() > 0 {
        lemma_order_irreflexive(a.drop_first());
    }
}

pub proof fn lemma_order_transitive(a: Seq<char>, b: Seq<char>, c: Seq<char>)
    requires
        comes_before(a, b),
        comes_before(b, c),
    ensures
        comes_before(a, c),
    decreases a.len(),
{
    if a.len() > 0 && b.len() > 0 && c.len() > 0 && a[0] == b[0] && b[0] == c[0] {
        lemma_order_transitive(a.drop_first(), b.drop_first(), c.drop_first());
    }
}

/// A list in strictly rising order.
pub open spec fn is_rising(s: Seq<Seq<char>>) -> bool {
    forall|i: int, j: int| 0 <= i < j < s.len() ==> comes_before(#[trigger] s[i], #[trigger] s[j])
}

/// The list holds what the other holds, each once, in rising order.
pub open spec fn is_sorted_set(r: Seq<Seq<char>>, of: Seq<Seq<char>>) -> bool {
    is_rising(r) && forall|x: Seq<char>| #[trigger] r.contains(x) == of.contains(x)
}

fn insert_sorted(list: Vec<String>, item: &str) -> (r: Vec<String>)
    requires
        is_rising(list.deep_view()),
    ensures
        is_rising(r.deep_view()),
        forall|x: Seq<char>|
            #[trigger] r.deep_view().contains(x) == (list.deep_view().contains(x) || x == item@),
{
    let mut i: usize = 0;
    while i < list.len() && text_before(&list[i], item)
        invariant
            i <= list@.len(),
            is_rising(list.deep_view()),
            forall|k: int| 0 <= k < i ==> comes_before(#[trigger] list@[k]@, item@),
        decreases list@.len() - i,
    {
        i = i + 1;
    }
    if i < list.len() && same(&list[i], item) {
        assert(list.deep_view()[i as int] == item@);
        return list;
    }
    let ghost before = list.deep_view();
    let mut out = list;
    out.insert(i, item.to_owned());
    let ghost after = out.deep_view();
    assert(after =~= before.insert(i as int, item@));
    proof {
        if i < before.len() {
            lemma_order_total(before[i as int], item@);
        }
        assert forall|a: int, b: int| 0 <= a < b < after.len() implies comes_before(
            #[trigger] after[a],
            #[trigger] after[b],
        ) by {
            if b == i {
                assert(after[a] == list@[a]@);
            } else if a == i {
                assert(after[b] == before[b - 1]);
                if b - 1 > i {
                    assert(comes_before(before[i as int], before[b - 1]));
                    lemma_order_transitive(item@, before[i as int], before[b - 1]);
                }
            } else {
                let x = if a < i {
                    a
                } else {
                    a - 1
                };
                let y = if b < i {
                    b
                } else {
                    b - 1
                };
                assert(after[a] == before[x] && after[b] == before[y]);
            }
        }
        assert forall|x: Seq<char>| #[trigger] after.contains(x) == (before.contains(x) || x
            == item@) by {
            if before.contains(x) {
                let k = choose|k: int| 0 <= k < before.len() && before[k] == x;
                let m = if k < i {
                    k
                } else {
                    k + 1
                };
                assert(after[m] == x);
            }
            if x == item@ {
                assert(after[i as int] == x);
            }
            if after.contains(x) {
                let k = choose|k: int| 0 <= k < after.len() && after[k] == x;
                if k < i {
                    assert(before[k] == x);
                } else if k > i {
                    assert(before[k - 1] == x);
                }
            }
        }
    }
    out
}

/// The texts of a list in rising order, each once.
pub fn sorted_set(list: &Vec<String>) -> (r: Vec<String>)
    ensures
        is_sorted_set(r.deep_view(), list.deep_view()),
{
    let mut out: Vec<String> = Vec::new();
    let mut i: usize = 0;
    while i < list.len()
        invariant
            i <= list@.len(),
            is_rising(out.deep_view()),
            forall|x: Seq<char>|
                #[trigger] out.deep_view().contains(x) == list.deep_view().take(
                    i as int,
                ).contains(x),
        decreases list@.len() - i,
    {
        let ghost before = out.deep_view();
        out = insert_sorted(out, &list[i]);
        proof {
            let next = list.deep_view().take(i + 1);
            let prev = list.deep_view().take(i as int);
            assert forall|x: Seq<char>| #[trigger] out.deep_view().contains(x) == next.contains(
                x,
            ) by {
                assert(before.contains(x) == prev.contains(x));
                if prev.contains(x) {
                    let k = choose|k: int| 0 <= k < prev.len() && prev[k] == x;
                    assert(next[k] == x);
                }
                if x == list@[i as int]@ {
                    assert(next[i as int] == x);
                }
                if next.contains(x) {
                    let k = choose|k: int| 0 <= k < next.len() && next[k] == x;
                    if k < i {
                        assert(prev[k] == x);
                    }
                }
            }
        }
        i = i + 1;
    }
    assert(list.deep_view().take(i as int) =~= list.deep_view());
    out
}

} // verus!
