//! Text as sequences of characters: trimming, searching, replacing and joining.

use vstd::prelude::*;
use vstd::string::StrSliceExecFns;
use vstd::string::StringExecFns;

verus! {

/// Whether `c` is white space, as `char::is_whitespace` decides it: the
/// characters with the Unicode property `White_Space`.
pub uninterp spec fn is_whitespace(c: char) -> bool;

/// Calls `char::is_whitespace`. The contract names the answer, which depends
/// on the character alone.
#[verifier::external_body]
fn char_is_whitespace(c: char) -> (white: bool)
    ensures
        white == is_whitespace(c),
{
    c.is_whitespace()
}

/// For each character of `s`, in order, whether it is white space.
pub open spec fn whiteness(s: Seq<char>) -> Seq<bool> {
    s.map_values(|c: char| is_whitespace(c))
}

/// How many marks at the start are set.
pub open spec fn leading(marks: Seq<bool>) -> nat
    decreases marks.len(),
{
    if marks.len() > 0 && marks.first() {
        1 + leading(marks.drop_first())
    } else {
        0
    }
}

/// How many marks at the end are set.
pub open spec fn trailing(marks: Seq<bool>) -> nat
    decreases marks.len(),
{
    if marks.len() > 0 && marks.last() {
        1 + trailing(marks.drop_last())
    } else {
        0
    }
}

/// Where the marks that are set at the start end, and where those that are
/// set at the end begin: the two places are the same where every mark is set.
pub open spec fn margins_of(marks: Seq<bool>) -> (int, int) {
    if leading(marks) == marks.len() {
        (marks.len() as int, marks.len() as int)
    } else {
        (leading(marks) as int, marks.len() - trailing(marks))
    }
}

/// `s` without the white space at either end.
pub open spec fn trimmed(s: Seq<char>) -> Seq<char> {
    let (from, to) = margins_of(whiteness(s));
    s.subrange(from, to)
}

/// `pattern` stands in `text` at position `at`.
pub open spec fn occurs_at(text: Seq<char>, pattern: Seq<char>, at: int) -> bool {
    &&& 0 <= at
    &&& at + pattern.len() <= text.len()
    &&& text.subrange(at, at + pattern.len()) == pattern
}

/// `pattern` stands somewhere in `text`.
pub open spec fn occurs(text: Seq<char>, pattern: Seq<char>) -> bool {
    exists|at: int| occurs_at(text, pattern, at)
}

/// `at` is the leftmost position at which `pattern` stands in `text`.
pub open spec fn is_first_occurrence(text: Seq<char>, pattern: Seq<char>, at: int) -> bool {
    &&& occurs_at(text, pattern, at)
    &&& forall|before: int| 0 <= before < at ==> !occurs_at(text, pattern, before)
}

/// The leftmost position at which `pattern` stands in `text`, where it
/// stands in it at all.
pub open spec fn first_occurrence(text: Seq<char>, pattern: Seq<char>) -> int {
    choose|at: int| is_first_occurrence(text, pattern, at)
}

/// `text` with the leftmost occurrence of `pattern` replaced by `with`, or
/// `text` itself where `pattern` does not occur.
pub open spec fn replace_first(text: Seq<char>, pattern: Seq<char>, with: Seq<char>) -> Seq<char> {
    if occurs(text, pattern) {
        let at = first_occurrence(text, pattern);
        text.subrange(0, at) + with + text.subrange(at + pattern.len(), text.len() as int)
    } else {
        text
    }
}

/// The parts in order, with `separator` between neighbours.
pub open spec fn joined(parts: Seq<Seq<char>>, separator: Seq<char>) -> Seq<char>
    decreases parts.len(),
{
    if parts.len() == 0 {
        Seq::empty()
    } else if parts.len() == 1 {
        parts[0]
    } else {
        joined(parts.drop_last(), separator) + separator + parts.last()
    }
}

/// The views of a list of strings.
pub open spec fn views(items: Seq<String>) -> Seq<Seq<char>> {
    items.map_values(|item: String| item@)
}

/// The marks set at the start are counted by the first mark that is not set.
pub proof fn lemma_leading(marks: Seq<bool>, n: int)
    requires
        0 <= n <= marks.len(),
        forall|i: int| 0 <= i < n ==> marks[i],
        n < marks.len() ==> !marks[n],
    ensures
        leading(marks) == n,
    decreases n,
{
    if n > 0 {
        let rest = marks.drop_first();
        assert forall|i: int| 0 <= i < n - 1 implies rest[i] by {
            assert(rest[i] == marks[i + 1]);
        }
        if n < marks.len() {
            assert(rest[n - 1] == marks[n]);
        }
        lemma_leading(rest, n - 1);
    }
}

/// The marks set at the end are counted by the last mark that is not set.
pub proof fn lemma_trailing(marks: Seq<bool>, n: int)
    requires
        0 <= n <= marks.len(),
        forall|i: int| n <= i < marks.len() ==> marks[i],
        n > 0 ==> !marks[n - 1],
    ensures
        trailing(marks) == marks.len() - n,
    decreases marks.len() - n,
{
    if n < marks.len() {
        let rest = marks.drop_last();
        assert forall|i: int| n <= i < rest.len() implies rest[i] by {
            assert(rest[i] == marks[i]);
        }
        if n > 0 {
            assert(rest[n - 1] == marks[n - 1]);
        }
        lemma_trailing(rest, n);
    }
}

/// There is only one leftmost occurrence.
pub proof fn lemma_first_occurrence(text: Seq<char>, pattern: Seq<char>, at: int)
    requires
        is_first_occurrence(text, pattern, at),
    ensures
        occurs(text, pattern),
        first_occurrence(text, pattern) == at,
{
    let chosen = first_occurrence(text, pattern);
    assert(is_first_occurrence(text, pattern, chosen));
    if chosen < at {
        assert(!occurs_at(text, pattern, chosen));
    }
    if at < chosen {
        assert(!occurs_at(text, pattern, at));
    }
}

/// The characters of `s`, one by one.
pub fn chars_of(s: &str) -> (chars: Vec<char>)
    ensures
        chars@ == s@,
{
    let mut chars: Vec<char> = Vec::new();
    for c in it: s.chars()
        invariant
            chars@ == it.seq().take(it.index() as int),
            it.seq() == s@,
    {
        chars.push(c);
    }
    chars
}

/// For each character of `s`, in order, whether it is white space.
pub fn mark_whitespace(s: &str) -> (marks: Vec<bool>)
    ensures
        marks@ == whiteness(s@),
{
    let mut marks: Vec<bool> = Vec::new();
    for c in it: s.chars()
        invariant
            it.seq() == s@,
            marks@ == whiteness(s@).take(it.index() as int),
    {
        marks.push(char_is_whitespace(c));
        assert(marks@ =~= whiteness(s@).take(it.index() + 1));
    }
    assert(whiteness(s@).take(s@.len() as int) == whiteness(s@));
    marks
}

/// Where the marks that are set at the start end, and where those that are
/// set at the end begin.
pub fn margins(marks: &Vec<bool>) -> (ends: (usize, usize))
    ensures
        (ends.0 as int, ends.1 as int) == margins_of(marks@),
        ends.0 <= ends.1 <= marks@.len(),
{
    let n = marks.len();
    let mut from: usize = 0;
    while from < n && marks[from]
        invariant
            from <= n,
            n == marks@.len(),
            forall|i: int| 0 <= i < from ==> marks@[i],
        decreases n - from,
    {
        from += 1;
    }
    proof {
        lemma_leading(marks@, from as int);
    }
    if from == n {
        return (n, n);
    }
    let mut to: usize = n;
    while marks[to - 1]
        invariant
            from < to <= n,
            n == marks@.len(),
            !marks@[from as int],
            forall|i: int| to <= i < n ==> marks@[i],
        decreases to,
    {
        to -= 1;
    }
    proof {
        lemma_trailing(marks@, to as int);
    }
    (from, to)
}

/// `s` without the white space at either end.
pub fn trim<'a>(s: &'a str) -> (inner: &'a str)
    ensures
        inner@ == trimmed(s@),
{
    let marks = mark_whitespace(s);
    let (from, to) = margins(&marks);
    s.substring_char(from, to)
}

/// Whether `pattern` stands in `text` at position `at`.
fn matches_at(text: &Vec<char>, pattern: &Vec<char>, at: usize) -> (found: bool)
    requires
        at + pattern@.len() <= text@.len(),
    ensures
        found == occurs_at(text@, pattern@, at as int),
{
    let m = pattern.len();
    let n = text.len();
    let mut k: usize = 0;
    while k < m
        invariant
            k <= m,
            m == pattern@.len(),
            n == text@.len(),
            at + m <= n,
            forall|j: int| 0 <= j < k ==> text@[at + j] == pattern@[j],
        decreases m - k,
    {
        if text[at + k] != pattern[k] {
            proof {
                let window = text@.subrange(at as int, at + m);
                assert(window[k as int] == text@[at + k]);
            }
            return false;
        }
        k += 1;
    }
    assert(text@.subrange(at as int, at + m) =~= pattern@);
    true
}

/// The leftmost position at which `pattern` stands in `text`.
pub fn find(text: &str, pattern: &str) -> (place: Option<usize>)
    ensures
        place is Some <==> occurs(text@, pattern@),
        place is Some ==> is_first_occurrence(text@, pattern@, place->0 as int),
{
    let hay = chars_of(text);
    let needle = chars_of(pattern);
    let n = hay.len();
    let m = needle.len();
    if m > n {
        assert(!occurs(text@, pattern@)) by {
            assert forall|at: int| !occurs_at(text@, pattern@, at) by {}
        }
        return None;
    }
    let last = n - m;
    let mut at: usize = 0;
    while at < last
        invariant
            at <= last,
            last == n - m,
            n == hay@.len(),
            m == needle@.len(),
            hay@ == text@,
            needle@ == pattern@,
            forall|before: int| 0 <= before < at ==> !occurs_at(text@, pattern@, before),
        decreases last - at,
    {
        if matches_at(&hay, &needle, at) {
            assert(occurs_at(text@, pattern@, at as int));
            return Some(at);
        }
        at += 1;
    }
    if matches_at(&hay, &needle, last) {
        assert(occurs_at(text@, pattern@, last as int));
        return Some(last);
    }
    assert(!occurs(text@, pattern@)) by {
        assert forall|p: int| !occurs_at(text@, pattern@, p) by {}
    }
    None
}

/// Whether `pattern` stands somewhere in `text`.
pub fn contains(text: &str, pattern: &str) -> (found: bool)
    ensures
        found == occurs(text@, pattern@),
{
    find(text, pattern).is_some()
}

/// `text` with the leftmost occurrence of `pattern` replaced by `with`.
pub fn replace_first_in(text: &str, pattern: &str, with: &str) -> (changed: String)
    ensures
        changed@ == replace_first(text@, pattern@, with@),
{
    match find(text, pattern) {
        None => String::from_str(text),
        Some(at) => {
            proof {
                lemma_first_occurrence(text@, pattern@, at as int);
            }
            let n = text.unicode_len();
            let m = pattern.unicode_len();
            let head = text.substring_char(0, at);
            let tail = text.substring_char(at + m, n);
            String::from_str(head).concat(with).concat(tail)
        },
    }
}

/// The strings in order, with `separator` between neighbours.
pub fn join(parts: &Vec<String>, separator: &str) -> (whole: String)
    ensures
        whole@ == joined(views(parts@), separator@),
{
    let mut whole = String::new();
    let mut i: usize = 0;
    while i < parts.len()
        invariant
            i <= parts.len(),
            whole@ == joined(views(parts@).take(i as int), separator@),
        decreases parts.len() - i,
    {
        proof {
            let all = views(parts@);
            let next = all.take(i + 1);
            assert(next.drop_last() == all.take(i as int));
            assert(next.last() == parts@[i as int]@);
            if i == 0 {
                assert(joined(all.take(0), separator@) == Seq::<char>::empty());
                assert(Seq::<char>::empty() + parts@[0]@ == parts@[0]@);
            }
        }
        if i > 0 {
            whole.append(separator);
        }
        whole.append(parts[i].as_str());
        i += 1;
    }
    assert(views(parts@).take(parts@.len() as int) == views(parts@));
    whole
}

} // verus!
