//! Character-level string utilities.
//!
//! All analysis in this crate works on sequences of characters. The
//! functions here convert between `&str`/`String` and `Vec<char>`, and
//! provide the searching, trimming and splitting primitives that the
//! metrics calculator and the dependency extractor are specified with.

use vstd::prelude::*;

verus! {

use vstd::string::StrSliceExecFns;

/// Relies on `String::push`: appends one character at the end.
pub assume_specification[ String::push ](s: &mut String, c: char)
    ensures
        final(s)@ == old(s)@.push(c),
;

/// Copies the characters of a string slice into a vector.
pub fn str_chars(s: &str) -> (r: Vec<char>)
    ensures
        r@ == s@,
{
    let n = s.unicode_len();
    let mut r: Vec<char> = Vec::new();
    let mut i: usize = 0;
    while i < n
        invariant
            n == s@.len(),
            i <= n,
            r@ == s@.take(i as int),
        decreases n - i,
    {
        r.push(s.get_char(i));
        proof {
            assert(r@ =~= s@.take(i + 1 as int));
        }
        i = i + 1;
    }
    proof {
        assert(s@.take(n as int) =~= s@);
    }
    r
}

/// Builds a `String` whose view is exactly the given character sequence.
pub fn chars_to_string(v: &Vec<char>) -> (s: String)
    ensures
        s@ == v@,
{
    let mut s = String::new();
    let mut i: usize = 0;
    while i < v.len()
        invariant
            i <= v@.len(),
            s@ == v@.take(i as int),
        decreases v@.len() - i,
    {
        s.push(v[i]);
        proof {
            assert(s@ =~= v@.take(i + 1 as int));
        }
        i = i + 1;
    }
    proof {
        assert(v@.take(v@.len() as int) =~= v@);
    }
    s
}

/// Whitespace characters recognised when trimming a line.
pub open spec fn is_space(c: char) -> bool {
    c == ' ' || c == '\t' || c == '\r' || c == '\n'
}

/// Executable mirror of [`is_space`].
pub fn is_space_char(c: char) -> (r: bool)
    ensures
        r == is_space(c),
{
    c == ' ' || c == '\t' || c == '\r' || c == '\n'
}

/// A line is blank when every character is whitespace.
pub open spec fn all_spaces(s: Seq<char>) -> bool {
    forall|i: int| 0 <= i < s.len() ==> is_space(#[trigger] s[i])
}

/// Index of the first non-whitespace character, or `s.len()` if none.
pub open spec fn first_non_space(s: Seq<char>) -> int
    decreases s.len(),
{
    if s.len() == 0 {
        0
    } else if is_space(s[0]) {
        1 + first_non_space(s.drop_first())
    } else {
        0
    }
}

pub proof fn lemma_first_non_space(s: Seq<char>)
    ensures
        0 <= first_non_space(s) <= s.len(),
        forall|j: int| 0 <= j < first_non_space(s) ==> is_space(#[trigger] s[j]),
        first_non_space(s) < s.len() ==> !is_space(s[first_non_space(s)]),
    decreases s.len(),
{
    if s.len() > 0 && is_space(s[0]) {
        lemma_first_non_space(s.drop_first());
        assert forall|j: int| 0 <= j < first_non_space(s) implies is_space(#[trigger] s[j]) by {
            if j > 0 {
                assert(s.drop_first()[j - 1] == s[j]);
            }
        }
        if first_non_space(s) < s.len() {
            assert(s.drop_first()[first_non_space(s) - 1] == s[first_non_space(s)]);
        }
    }
}

/// The line with its leading whitespace removed.
pub open spec fn trim_start_spec(s: Seq<char>) -> Seq<char> {
    s.skip(first_non_space(s))
}

/// Index one past the last non-whitespace character, or `0` if none.
pub open spec fn last_non_space_end(s: Seq<char>) -> int
    decreases s.len(),
{
    if s.len() == 0 {
        0
    } else if is_space(s.last()) {
        last_non_space_end(s.drop_last())
    } else {
        s.len() as int
    }
}

pub proof fn lemma_last_non_space_end(s: Seq<char>)
    ensures
        0 <= last_non_space_end(s) <= s.len(),
        forall|j: int| last_non_space_end(s) <= j < s.len() ==> is_space(#[trigger] s[j]),
        last_non_space_end(s) > 0 ==> !is_space(s[last_non_space_end(s) - 1]),
    decreases s.len(),
{
    if s.len() > 0 && is_space(s.last()) {
        lemma_last_non_space_end(s.drop_last());
        assert forall|j: int| last_non_space_end(s) <= j < s.len() implies is_space(
            #[trigger] s[j],
        ) by {
            if j < s.len() - 1 {
                assert(s.drop_last()[j] == s[j]);
            }
        }
        if last_non_space_end(s) > 0 {
            assert(s.drop_last()[last_non_space_end(s) - 1] == s[last_non_space_end(s) - 1]);
        }
    }
}

/// The line with whitespace removed from both ends.
pub open spec fn trim_spec(s: Seq<char>) -> Seq<char> {
    let a = first_non_space(s);
    let b = last_non_space_end(s);
    if a < b {
        s.subrange(a, b)
    } else {
        Seq::empty()
    }
}

/// Removes leading and trailing whitespace from a character vector.
pub fn trim_chars(l: &Vec<char>) -> (r: Vec<char>)
    ensures
        r@ == trim_spec(l@),
{
    proof {
        lemma_first_non_space(l@);
        lemma_last_non_space_end(l@);
    }
    let n = l.len();
    let mut a: usize = 0;
    while a < n && is_space_char(l[a])
        invariant
            n == l@.len(),
            a <= n,
            forall|j: int| 0 <= j < a ==> is_space(#[trigger] l@[j]),
        decreases n - a,
    {
        a = a + 1;
    }
    proof {
        lemma_index_bounded_by_first_non_space(l@, a as int);
    }
    let mut b: usize = n;
    while b > a && is_space_char(l[b - 1])
        invariant
            n == l@.len(),
            a <= b <= n,
            a as int == first_non_space(l@),
            forall|j: int| b <= j < n ==> is_space(#[trigger] l@[j]),
        decreases b,
    {
        b = b - 1;
    }
    proof {
        lemma_index_bounded_by_last_non_space(l@, a as int, b as int);
    }
    let mut r: Vec<char> = Vec::new();
    let mut i: usize = a;
    while i < b
        invariant
            a <= i <= b <= l@.len(),
            r@ == l@.subrange(a as int, i as int),
        decreases b - i,
    {
        r.push(l[i]);
        proof {
            assert(r@ =~= l@.subrange(a as int, i + 1 as int));
        }
        i = i + 1;
    }
    proof {
        if a < b {
            assert(r@ =~= trim_spec(l@));
        } else {
            assert(r@ =~= trim_spec(l@));
        }
    }
    r
}

pub proof fn lemma_first_non_space_unique(s: Seq<char>, a: int)
    requires
        0 <= a <= s.len(),
        forall|j: int| 0 <= j < a ==> is_space(#[trigger] s[j]),
        a < s.len() ==> !is_space(s[a]),
    ensures
        a == first_non_space(s),
{
    lemma_index_bounded_by_first_non_space(s, a);
}

proof fn lemma_index_bounded_by_first_non_space(s: Seq<char>, a: int)
    requires
        0 <= a <= s.len(),
        forall|j: int| 0 <= j < a ==> is_space(#[trigger] s[j]),
        a < s.len() ==> !is_space(s[a]),
    ensures
        a == first_non_space(s),
{
    lemma_first_non_space(s);
    if a < first_non_space(s) {
        assert(is_space(s[a]));
    } else if a > first_non_space(s) {
        assert(is_space(s[first_non_space(s)]));
    }
}

proof fn lemma_index_bounded_by_last_non_space(s: Seq<char>, a: int, b: int)
    requires
        0 <= a <= b <= s.len(),
        a == first_non_space(s),
        forall|j: int| b <= j < s.len() ==> is_space(#[trigger] s[j]),
        b > a ==> !is_space(s[b - 1]),
    ensures
        a < b ==> b == last_non_space_end(s),
        a >= b ==> trim_spec(s) == Seq::<char>::empty(),
{
    lemma_first_non_space(s);
    lemma_last_non_space_end(s);
    if a < b {
        if b < last_non_space_end(s) {
            assert(is_space(s[last_non_space_end(s) - 1]));
        } else if b > last_non_space_end(s) {
            assert(is_space(s[b - 1]));
        }
    } else {
        // every index is whitespace, so the trimmed range is empty
        if last_non_space_end(s) > first_non_space(s) {
            let k = last_non_space_end(s) - 1;
            assert(!is_space(s[k]));
            assert(is_space(s[k]));
        }
    }
}

/// `p` is a prefix of `s`.
pub open spec fn starts_with_spec(s: Seq<char>, p: Seq<char>) -> bool {
    p.len() <= s.len() && s.take(p.len() as int) == p
}

/// Prefix test for character vectors.
pub fn starts_with(s: &Vec<char>, p: &Vec<char>) -> (r: bool)
    ensures
        r == starts_with_spec(s@, p@),
{
    if p.len() > s.len() {
        return false;
    }
    let mut i: usize = 0;
    while i < p.len()
        invariant
            p@.len() <= s@.len(),
            i <= p@.len(),
            forall|j: int| 0 <= j < i ==> s@[j] == p@[j],
        decreases p@.len() - i,
    {
        if s[i] != p[i] {
            proof {
                assert(s@.take(p@.len() as int)[i as int] != p@[i as int]);
            }
            return false;
        }
        i = i + 1;
    }
    proof {
        assert(s@.take(p@.len() as int) =~= p@);
    }
    true
}

/// `s` contains the character `c`.
pub open spec fn contains_char_spec(s: Seq<char>, c: char) -> bool {
    exists|i: int| 0 <= i < s.len() && s[i] == c
}

/// Membership test for a single character.
pub fn contains_char(s: &Vec<char>, c: char) -> (r: bool)
    ensures
        r == contains_char_spec(s@, c),
{
    let mut i: usize = 0;
    while i < s.len()
        invariant
            i <= s@.len(),
            forall|j: int| 0 <= j < i ==> s@[j] != c,
        decreases s@.len() - i,
    {
        if s[i] == c {
            return true;
        }
        i = i + 1;
    }
    false
}

/// The pattern `p` occurs in `s` at position `i`.
pub open spec fn match_at(s: Seq<char>, p: Seq<char>, i: int) -> bool {
    0 <= i && i + p.len() <= s.len() && s.subrange(i, i + p.len()) == p
}

/// `s` has `p` as a substring.
pub open spec fn has_sub(s: Seq<char>, p: Seq<char>) -> bool {
    exists|i: int| match_at(s, p, i)
}

/// Checks whether `p` occurs at position `i` of `s`.
#[verifier::loop_isolation(false)]
fn matches_at(s: &Vec<char>, p: &Vec<char>, i: usize) -> (r: bool)
    requires
        i + p@.len() <= s@.len(),
    ensures
        r == match_at(s@, p@, i as int),
{
    let n = s.len();
    let mut j: usize = 0;
    while j < p.len()
        invariant
            i + p@.len() <= s@.len(),
            j <= p@.len(),
            forall|k: int| 0 <= k < j ==> s@[i + k] == p@[k],
        decreases p@.len() - j,
    {
        if s[i + j] != p[j] {
            proof {
                assert(s@.subrange(i as int, i + p@.len())[j as int] != p@[j as int]);
            }
            return false;
        }
        j = j + 1;
    }
    proof {
        assert(s@.subrange(i as int, i + p@.len()) =~= p@);
    }
    true
}

/// First position at which `p` occurs in `s`, if any.
#[verifier::loop_isolation(false)]
pub fn find_sub(s: &Vec<char>, p: &Vec<char>) -> (r: Option<usize>)
    ensures
        match r {
            Some(i) => match_at(s@, p@, i as int) && forall|j: int|
                0 <= j < i ==> !match_at(s@, p@, j),
            None => !has_sub(s@, p@),
        },
{
    if p.len() > s.len() {
        return None;
    }
    if p.len() == 0 {
        proof {
            assert(s@.subrange(0, 0) =~= p@);
        }
        return Some(0);
    }
    let last = s.len() - p.len();
    let mut i: usize = 0;
    while i <= last
        invariant
            1 <= p@.len() <= s@.len(),
            last == s@.len() - p@.len(),
            i <= last + 1,
            forall|j: int| 0 <= j < i ==> !match_at(s@, p@, j),
        decreases last + 1 - i,
    {
        if matches_at(s, p, i) {
            return Some(i);
        }
        i = i + 1;
    }
    None
}

/// Substring test.
pub fn contains_sub(s: &Vec<char>, p: &Vec<char>) -> (r: bool)
    ensures
        r == has_sub(s@, p@),
{
    match find_sub(s, p) {
        Some(_) => true,
        None => false,
    }
}

/// Copies `s[a..b]` into a fresh vector.
#[verifier::loop_isolation(false)]
pub fn copy_range(s: &Vec<char>, a: usize, b: usize) -> (r: Vec<char>)
    requires
        a <= b <= s@.len(),
    ensures
        r@ == s@.subrange(a as int, b as int),
{
    let mut r: Vec<char> = Vec::new();
    let mut i: usize = a;
    while i < b
        invariant
            a <= i <= b,
            r@ == s@.subrange(a as int, i as int),
        decreases b - i,
    {
        r.push(s[i]);
        proof {
            assert(r@ =~= s@.subrange(a as int, i + 1 as int));
        }
        i = i + 1;
    }
    r
}

/// Index of the first occurrence of `c`, or `s.len()` if absent.
pub open spec fn find_char(s: Seq<char>, c: char) -> int
    decreases s.len(),
{
    if s.len() == 0 {
        0
    } else if s[0] == c {
        0
    } else {
        1 + find_char(s.drop_first(), c)
    }
}

pub proof fn lemma_find_char(s: Seq<char>, c: char)
    ensures
        0 <= find_char(s, c) <= s.len(),
        forall|j: int| 0 <= j < find_char(s, c) ==> s[j] != c,
        find_char(s, c) < s.len() ==> s[find_char(s, c)] == c,
    decreases s.len(),
{
    if s.len() > 0 && s[0] != c {
        lemma_find_char(s.drop_first(), c);
        assert forall|j: int| 0 <= j < find_char(s, c) implies s[j] != c by {
            if j > 0 {
                assert(s.drop_first()[j - 1] == s[j]);
            }
        }
        if find_char(s, c) < s.len() {
            assert(s.drop_first()[find_char(s, c) - 1] == s[find_char(s, c)]);
        }
    }
}

/// Any index with the first-occurrence properties is `find_char`.
pub proof fn lemma_find_char_unique(s: Seq<char>, c: char, j: int)
    requires
        0 <= j <= s.len(),
        forall|k: int| 0 <= k < j ==> s[k] != c,
        j < s.len() ==> s[j] == c,
    ensures
        j == find_char(s, c),
{
    lemma_find_char(s, c);
    if j < find_char(s, c) {
        assert(s[j] != c);
    } else if j > find_char(s, c) {
        assert(s[find_char(s, c)] != c);
    }
}

/// A line with a trailing carriage return removed.
pub open spec fn strip_cr(l: Seq<char>) -> Seq<char> {
    if l.len() > 0 && l.last() == '\r' {
        l.drop_last()
    } else {
        l
    }
}

/// The lines of a text, split at `'\n'`, each with a trailing `'\r'`
/// removed; a trailing newline produces no extra empty line.
pub open spec fn lines_of(s: Seq<char>) -> Seq<Seq<char>>
    decreases s.len(),
{
    if s.len() == 0 {
        Seq::empty()
    } else {
        let i = find_char(s, '\n');
        if 0 <= i < s.len() {
            seq![strip_cr(s.take(i))] + lines_of(s.skip(i + 1))
        } else {
            seq![strip_cr(s)]
        }
    }
}

/// The views of a vector of lines.
pub open spec fn views_of(r: Seq<Vec<char>>) -> Seq<Seq<char>> {
    r.map_values(|l: Vec<char>| l@)
}

#[verifier::loop_isolation(false)]
fn split_lines_from(s: &Vec<char>, from: usize) -> (r: Vec<Vec<char>>)
    requires
        from <= s@.len(),
    ensures
        views_of(r@) == lines_of(s@.skip(from as int)),
    decreases s@.len() - from,
{
    let n = s.len();
    if from == n {
        proof {
            assert(s@.skip(from as int) =~= Seq::<char>::empty());
            assert(views_of(Seq::<Vec<char>>::empty()) =~= Seq::<Seq<char>>::empty());
        }
        return Vec::new();
    }
    let mut j = from;
    while j < n && s[j] != '\n'
        invariant
            from <= j <= n,
            forall|k: int| from <= k < j ==> s@[k] != '\n',
        decreases n - j,
    {
        j = j + 1;
    }
    let ghost t = s@.skip(from as int);
    proof {
        assert forall|k: int| 0 <= k < j - from implies t[k] != '\n' by {
            assert(t[k] == s@[from + k]);
        }
        if j < n {
            assert(t[j - from] == s@[j as int]);
        }
        lemma_find_char_unique(t, '\n', j - from);
    }
    let mut line = copy_range(s, from, j);
    proof {
        assert(line@ =~= t.take(j - from));
    }
    if line.len() > 0 && line[line.len() - 1] == '\r' {
        line.pop();
    }
    proof {
        assert(line@ == strip_cr(t.take(j - from)));
    }
    let mut r: Vec<Vec<char>> = Vec::new();
    r.push(line);
    if j < n {
        let mut rest = split_lines_from(s, j + 1);
        proof {
            assert(t.skip(j - from + 1) =~= s@.skip(j + 1 as int));
        }
        r.append(&mut rest);
        proof {
            assert(t.take(t.len() as int) =~= t);
            assert(views_of(r@) =~= lines_of(t));
        }
    } else {
        proof {
            assert(t.take(j - from) =~= t);
            assert(views_of(r@) =~= lines_of(t));
        }
    }
    r
}

/// Splits a text into its lines.
pub fn split_lines(s: &Vec<char>) -> (r: Vec<Vec<char>>)
    ensures
        views_of(r@) == lines_of(s@),
{
    let r = split_lines_from(s, 0);
    proof {
        assert(s@.skip(0) =~= s@);
    }
    r
}

/// Number of positions of `s` at which `p` occurs, starting at `i`.
pub open spec fn count_matches_from(s: Seq<char>, p: Seq<char>, i: int) -> nat
    decreases s.len() + 1 - i,
{
    if i < 0 || i + p.len() > s.len() {
        0
    } else {
        (if match_at(s, p, i) {
            1nat
        } else {
            0nat
        }) + count_matches_from(s, p, i + 1)
    }
}

/// Number of occurrences of `p` in `s`.
pub open spec fn count_matches(s: Seq<char>, p: Seq<char>) -> nat {
    count_matches_from(s, p, 0)
}

pub proof fn lemma_count_from_bound(s: Seq<char>, p: Seq<char>, i: int)
    requires
        0 <= i,
        p.len() >= 1,
    ensures
        i <= s.len() ==> count_matches_from(s, p, i) <= s.len() - i,
        i > s.len() ==> count_matches_from(s, p, i) == 0,
    decreases s.len() + 1 - i,
{
    if i + p.len() <= s.len() {
        lemma_count_from_bound(s, p, i + 1);
    }
}

/// Occurrences in a prefix survive appending more text: the occurrence
/// count never decreases when text is added at the end.
pub proof fn lemma_count_append(s: Seq<char>, t: Seq<char>, p: Seq<char>)
    ensures
        count_matches(s + t, p) >= count_matches(s, p),
{
    lemma_count_from_append(s, t, p, 0);
}

proof fn lemma_count_from_append(s: Seq<char>, t: Seq<char>, p: Seq<char>, i: int)
    requires
        0 <= i,
    ensures
        count_matches_from(s + t, p, i) >= count_matches_from(s, p, i),
    decreases s.len() + 1 - i,
{
    if i + p.len() > s.len() {
        // nothing to preserve
    } else {
        lemma_count_from_append(s, t, p, i + 1);
        if match_at(s, p, i) {
            assert((s + t).subrange(i, i + p.len() as int) =~= s.subrange(i, i + p.len() as int));
        }
    }
}

/// Index of the first occurrence of `p` in `s`, or `-1` if there is none.
pub open spec fn find_sub_idx(s: Seq<char>, p: Seq<char>) -> int
    decreases s.len(),
{
    if p.len() > s.len() {
        -1
    } else if s.take(p.len() as int) == p {
        0
    } else if s.len() == 0 {
        -1
    } else {
        let r = find_sub_idx(s.drop_first(), p);
        if r < 0 {
            -1
        } else {
            1 + r
        }
    }
}

pub proof fn lemma_find_sub_idx(s: Seq<char>, p: Seq<char>)
    ensures
        find_sub_idx(s, p) >= 0 ==> match_at(s, p, find_sub_idx(s, p)) && forall|j: int|
            0 <= j < find_sub_idx(s, p) ==> !match_at(s, p, j),
        find_sub_idx(s, p) < 0 ==> !has_sub(s, p),
    decreases s.len(),
{
    let i = find_sub_idx(s, p);
    if p.len() > s.len() {
        assert forall|j: int| !match_at(s, p, j) by {}
    } else if s.take(p.len() as int) == p {
        assert(s.subrange(0, p.len() as int) =~= s.take(p.len() as int));
    } else if s.len() == 0 {
        assert(!match_at(s, p, 0));
        assert forall|j: int| !match_at(s, p, j) by {}
    } else {
        lemma_find_sub_idx(s.drop_first(), p);
        let d = s.drop_first();
        assert forall|j: int| 1 <= j && j + p.len() <= s.len() implies match_at(s, p, j)
            == match_at(d, p, j - 1) by {
            assert(s.subrange(j, j + p.len() as int) =~= d.subrange(j - 1, j - 1 + p.len() as int));
        }
        assert(!match_at(s, p, 0)) by {
            assert(s.subrange(0, p.len() as int) =~= s.take(p.len() as int));
        }
        if find_sub_idx(d, p) >= 0 {
            assert(match_at(s, p, i));
            assert forall|j: int| 0 <= j < i implies !match_at(s, p, j) by {
                if j >= 1 {
                    assert(!match_at(d, p, j - 1));
                }
            }
        } else {
            assert forall|j: int| !match_at(s, p, j) by {
                if 1 <= j && j + p.len() <= s.len() {
                    assert(!match_at(d, p, j - 1));
                }
            }
        }
    }
}

/// [`find_sub`], with its result tied to the spec-level index.
pub fn find_sub_at(s: &Vec<char>, p: &Vec<char>) -> (r: Option<usize>)
    ensures
        match r {
            Some(i) => i as int == find_sub_idx(s@, p@),
            None => find_sub_idx(s@, p@) < 0,
        },
{
    proof {
        lemma_find_sub_idx(s@, p@);
    }
    match find_sub(s, p) {
        Some(i) => {
            proof {
                let f = find_sub_idx(s@, p@);
                if f < i {
                    assert(match_at(s@, p@, f));
                } else if f > i {
                    assert(!match_at(s@, p@, i as int));
                }
            }
            Some(i)
        },
        None => None,
    }
}

/// The part of `s` after the first occurrence of `p`, if `p` occurs.
pub open spec fn after_sub_spec(s: Seq<char>, p: Seq<char>) -> Option<Seq<char>> {
    let i = find_sub_idx(s, p);
    if i >= 0 {
        Some(s.skip(i + p.len()))
    } else {
        None
    }
}

/// Returns the characters following the first occurrence of `p`.
pub fn after_sub(s: &Vec<char>, p: &Vec<char>) -> (r: Option<Vec<char>>)
    ensures
        match r {
            Some(v) => after_sub_spec(s@, p@) == Some(v@),
            None => after_sub_spec(s@, p@) is None,
        },
{
    proof {
        lemma_find_sub_idx(s@, p@);
    }
    let n = s.len();
    match find_sub_at(s, p) {
        Some(i) => {
            proof {
                assert(i + p@.len() <= n);
            }
            let v = copy_range(s, i + p.len(), n);
            proof {
                assert(v@ =~= s@.skip(find_sub_idx(s@, p@) + p@.len()));
            }
            Some(v)
        },
        None => None,
    }
}

/// The prefix of `s` before the first occurrence of `p`; all of `s` if
/// `p` does not occur.
pub open spec fn before_sub_spec(s: Seq<char>, p: Seq<char>) -> Seq<char> {
    let i = find_sub_idx(s, p);
    if i >= 0 {
        s.take(i)
    } else {
        s
    }
}

/// Returns the prefix of `s` before the first occurrence of `p`.
pub fn before_sub(s: &Vec<char>, p: &Vec<char>) -> (r: Vec<char>)
    ensures
        r@ == before_sub_spec(s@, p@),
{
    proof {
        lemma_find_sub_idx(s@, p@);
    }
    match find_sub_at(s, p) {
        Some(i) => {
            let v = copy_range(s, 0, i);
            proof {
                assert(v@ =~= s@.take(i as int));
            }
            v
        },
        None => {
            let v = copy_range(s, 0, s.len());
            proof {
                assert(v@ =~= s@);
            }
            v
        },
    }
}

/// The prefix of `s` before the first occurrence of the character `c`;
/// all of `s` if `c` does not occur.
pub open spec fn before_char_spec(s: Seq<char>, c: char) -> Seq<char> {
    s.take(find_char(s, c))
}

/// Returns the prefix of `s` before the first occurrence of `c`.
#[verifier::loop_isolation(false)]
pub fn before_char(s: &Vec<char>, c: char) -> (r: Vec<char>)
    ensures
        r@ == before_char_spec(s@, c),
{
    let n = s.len();
    let mut j: usize = 0;
    while j < n && s[j] != c
        invariant
            j <= n,
            forall|k: int| 0 <= k < j ==> s@[k] != c,
        decreases n - j,
    {
        j = j + 1;
    }
    proof {
        lemma_find_char_unique(s@, c, j as int);
    }
    copy_range(s, 0, j)
}

/// Index of the first whitespace character, or `s.len()` if none.
pub open spec fn find_space(s: Seq<char>) -> int
    decreases s.len(),
{
    if s.len() == 0 {
        0
    } else if is_space(s[0]) {
        0
    } else {
        1 + find_space(s.drop_first())
    }
}

pub proof fn lemma_find_space(s: Seq<char>)
    ensures
        0 <= find_space(s) <= s.len(),
        forall|j: int| 0 <= j < find_space(s) ==> !is_space(#[trigger] s[j]),
        find_space(s) < s.len() ==> is_space(s[find_space(s)]),
    decreases s.len(),
{
    if s.len() > 0 && !is_space(s[0]) {
        lemma_find_space(s.drop_first());
        assert forall|j: int| 0 <= j < find_space(s) implies !is_space(#[trigger] s[j]) by {
            if j > 0 {
                assert(s.drop_first()[j - 1] == s[j]);
            }
        }
        if find_space(s) < s.len() {
            assert(s.drop_first()[find_space(s) - 1] == s[find_space(s)]);
        }
    }
}

pub proof fn lemma_find_space_unique(s: Seq<char>, j: int)
    requires
        0 <= j <= s.len(),
        forall|k: int| 0 <= k < j ==> !is_space(#[trigger] s[k]),
        j < s.len() ==> is_space(s[j]),
    ensures
        j == find_space(s),
{
    lemma_find_space(s);
    if j < find_space(s) {
        assert(!is_space(s[j]));
    } else if j > find_space(s) {
        assert(!is_space(s[find_space(s)]));
    }
}

/// The first whitespace-separated token of `s`, if any.
pub open spec fn first_token_spec(s: Seq<char>) -> Option<Seq<char>> {
    let t = trim_start_spec(s);
    if t.len() == 0 {
        None
    } else {
        Some(t.take(find_space(t)))
    }
}

/// The second whitespace-separated token of `s`, if any.
pub open spec fn second_token_spec(s: Seq<char>) -> Option<Seq<char>> {
    let t = trim_start_spec(s);
    let rest = t.skip(find_space(t));
    first_token_spec(rest)
}

/// Returns the second whitespace-separated token of `s`, if any.
#[verifier::loop_isolation(false)]
pub fn second_token(s: &Vec<char>) -> (r: Option<Vec<char>>)
    ensures
        match r {
            Some(v) => second_token_spec(s@) == Some(v@),
            None => second_token_spec(s@) is None,
        },
{
    let n = s.len();
    let mut a: usize = 0;
    while a < n && is_space_char(s[a])
        invariant
            a <= n,
            forall|j: int| 0 <= j < a ==> is_space(#[trigger] s@[j]),
        decreases n - a,
    {
        a = a + 1;
    }
    proof {
        lemma_first_non_space_unique(s@, a as int);
    }
    let ghost t1 = trim_start_spec(s@);
    let mut b: usize = a;
    while b < n && !is_space_char(s[b])
        invariant
            a <= b <= n,
            forall|j: int| a <= j < b ==> !is_space(#[trigger] s@[j]),
        decreases n - b,
    {
        b = b + 1;
    }
    proof {
        assert forall|k: int| 0 <= k < b - a implies !is_space(#[trigger] t1[k]) by {
            assert(t1[k] == s@[a + k]);
        }
        if b < n {
            assert(t1[b - a] == s@[b as int]);
        }
        lemma_find_space_unique(t1, b - a);
    }
    let ghost rest = t1.skip(find_space(t1));
    proof {
        assert(rest =~= s@.skip(b as int));
    }
    let mut c: usize = b;
    while c < n && is_space_char(s[c])
        invariant
            b <= c <= n,
            forall|j: int| b <= j < c ==> is_space(#[trigger] s@[j]),
        decreases n - c,
    {
        c = c + 1;
    }
    proof {
        assert forall|k: int| 0 <= k < c - b implies is_space(#[trigger] rest[k]) by {
            assert(rest[k] == s@[b + k]);
        }
        if c < n {
            assert(rest[c - b] == s@[c as int]);
        }
        lemma_first_non_space_unique(rest, c - b);
    }
    let ghost t2 = trim_start_spec(rest);
    proof {
        assert(t2 =~= s@.skip(c as int));
    }
    if c == n {
        proof {
            assert(t2.len() == 0);
        }
        return None;
    }
    let mut d: usize = c;
    while d < n && !is_space_char(s[d])
        invariant
            c <= d <= n,
            forall|j: int| c <= j < d ==> !is_space(#[trigger] s@[j]),
        decreases n - d,
    {
        d = d + 1;
    }
    proof {
        assert forall|k: int| 0 <= k < d - c implies !is_space(#[trigger] t2[k]) by {
            assert(t2[k] == s@[c + k]);
        }
        if d < n {
            assert(t2[d - c] == s@[d as int]);
        }
        lemma_find_space_unique(t2, d - c);
    }
    let tok = copy_range(s, c, d);
    proof {
        assert(tok@ =~= t2.take(find_space(t2)));
        assert(t2.len() > 0);
    }
    Some(tok)
}

/// Index of the first character not in `set`, starting the scan at the
/// front, or `s.len()` if every character is in `set`.
pub open spec fn first_not_in(s: Seq<char>, set: Seq<char>) -> int
    decreases s.len(),
{
    if s.len() == 0 {
        0
    } else if set.contains(s[0]) {
        1 + first_not_in(s.drop_first(), set)
    } else {
        0
    }
}

pub proof fn lemma_first_not_in(s: Seq<char>, set: Seq<char>)
    ensures
        0 <= first_not_in(s, set) <= s.len(),
        forall|j: int| 0 <= j < first_not_in(s, set) ==> set.contains(#[trigger] s[j]),
        first_not_in(s, set) < s.len() ==> !set.contains(s[first_not_in(s, set)]),
    decreases s.len(),
{
    if s.len() > 0 && set.contains(s[0]) {
        lemma_first_not_in(s.drop_first(), set);
        assert forall|j: int| 0 <= j < first_not_in(s, set) implies set.contains(
            #[trigger] s[j],
        ) by {
            if j > 0 {
                assert(s.drop_first()[j - 1] == s[j]);
            }
        }
        if first_not_in(s, set) < s.len() {
            assert(s.drop_first()[first_not_in(s, set) - 1] == s[first_not_in(s, set)]);
        }
    }
}

/// One past the last character not in `set`, or `0` if all are in `set`.
pub open spec fn last_not_in_end(s: Seq<char>, set: Seq<char>) -> int
    decreases s.len(),
{
    if s.len() == 0 {
        0
    } else if set.contains(s.last()) {
        last_not_in_end(s.drop_last(), set)
    } else {
        s.len() as int
    }
}

pub proof fn lemma_last_not_in_end(s: Seq<char>, set: Seq<char>)
    ensures
        0 <= last_not_in_end(s, set) <= s.len(),
        forall|j: int| last_not_in_end(s, set) <= j < s.len() ==> set.contains(#[trigger] s[j]),
        last_not_in_end(s, set) > 0 ==> !set.contains(s[last_not_in_end(s, set) - 1]),
    decreases s.len(),
{
    if s.len() > 0 && set.contains(s.last()) {
        lemma_last_not_in_end(s.drop_last(), set);
        assert forall|j: int| last_not_in_end(s, set) <= j < s.len() implies set.contains(
            #[trigger] s[j],
        ) by {
            if j < s.len() - 1 {
                assert(s.drop_last()[j] == s[j]);
            }
        }
        if last_not_in_end(s, set) > 0 {
            assert(s.drop_last()[last_not_in_end(s, set) - 1] == s[last_not_in_end(s, set) - 1]);
        }
    }
}

/// `s` with characters from `set` removed at both ends.
pub open spec fn trim_set_spec(s: Seq<char>, set: Seq<char>) -> Seq<char> {
    let a = first_not_in(s, set);
    let b = last_not_in_end(s, set);
    if a < b {
        s.subrange(a, b)
    } else {
        Seq::empty()
    }
}

/// Removes the characters of `set` from both ends of `l`.
#[verifier::loop_isolation(false)]
pub fn trim_set(l: &Vec<char>, set: &Vec<char>) -> (r: Vec<char>)
    ensures
        r@ == trim_set_spec(l@, set@),
{
    proof {
        lemma_first_not_in(l@, set@);
        lemma_last_not_in_end(l@, set@);
    }
    let n = l.len();
    let mut a: usize = 0;
    while a < n && contains_char(set, l[a])
        invariant
            a <= n,
            forall|j: int| 0 <= j < a ==> set@.contains(#[trigger] l@[j]),
        decreases n - a,
    {
        a = a + 1;
    }
    proof {
        let fa = first_not_in(l@, set@);
        if (a as int) < fa {
            assert(set@.contains(l@[a as int]));
        } else if (a as int) > fa {
            assert(set@.contains(l@[fa]));
        }
    }
    let mut b: usize = n;
    while b > a && contains_char(set, l[b - 1])
        invariant
            a <= b <= n,
            a as int == first_not_in(l@, set@),
            forall|j: int| b <= j < n ==> set@.contains(#[trigger] l@[j]),
        decreases b,
    {
        b = b - 1;
    }
    proof {
        let fb = last_not_in_end(l@, set@);
        if a < b {
            if (b as int) < fb {
                assert(set@.contains(l@[fb - 1]));
            } else if (b as int) > fb {
                assert(set@.contains(l@[b - 1]));
            }
        } else {
            if fb > a as int {
                let k = fb - 1;
                assert(!set@.contains(l@[k]));
                assert(set@.contains(l@[k]));
            }
        }
    }
    let r = copy_range(l, a, b);
    proof {
        if a < b {
            assert(r@ =~= trim_set_spec(l@, set@));
        } else {
            assert(r@ =~= trim_set_spec(l@, set@));
        }
    }
    r
}

/// Lexicographic order on character sequences, by code point.
pub open spec fn lex_le(a: Seq<char>, b: Seq<char>) -> bool
    decreases a.len(),
{
    if a.len() == 0 {
        true
    } else if b.len() == 0 {
        false
    } else if a[0] != b[0] {
        (a[0] as int) < (b[0] as int)
    } else {
        lex_le(a.drop_first(), b.drop_first())
    }
}

pub proof fn lemma_lex_le_total(a: Seq<char>, b: Seq<char>)
    ensures
        lex_le(a, b) || lex_le(b, a),
        lex_le(a, b) && lex_le(b, a) ==> a == b,
    decreases a.len(),
{
    if a.len() == 0 || b.len() == 0 {
        // one side is empty: lex_le holds in that direction, and both
        // directions force both sides empty
        if lex_le(a, b) && lex_le(b, a) {
            assert(a =~= b);
        }
    } else if a[0] != b[0] {
        assert((a[0] as int) != (b[0] as int));
    } else {
        lemma_lex_le_total(a.drop_first(), b.drop_first());
        if lex_le(a, b) && lex_le(b, a) {
            let ad = a.drop_first();
            let bd = b.drop_first();
            assert(ad == bd);
            assert(a.len() == b.len());
            assert forall|j: int| 0 <= j < a.len() implies a[j] == b[j] by {
                if j > 0 {
                    assert(ad[j - 1] == bd[j - 1]);
                }
            }
            assert(a =~= b);
        }
    }
}

pub proof fn lemma_lex_le_trans(a: Seq<char>, b: Seq<char>, c: Seq<char>)
    requires
        lex_le(a, b),
        lex_le(b, c),
    ensures
        lex_le(a, c),
    decreases a.len(),
{
    if a.len() > 0 && b.len() > 0 && c.len() > 0 {
        if a[0] == b[0] && b[0] == c[0] {
            lemma_lex_le_trans(a.drop_first(), b.drop_first(), c.drop_first());
        }
    }
}

/// Lexicographic comparison of two character vectors.
#[verifier::loop_isolation(false)]
pub fn lex_le_exec(a: &Vec<char>, b: &Vec<char>) -> (r: bool)
    ensures
        r == lex_le(a@, b@),
{
    let mut i: usize = 0;
    proof {
        assert(a@.skip(0) =~= a@);
        assert(b@.skip(0) =~= b@);
    }
    while i < a.len() && i < b.len()
        invariant
            i <= a@.len(),
            i <= b@.len(),
            forall|j: int| 0 <= j < i ==> a@[j] == b@[j],
            lex_le(a@, b@) == lex_le(a@.skip(i as int), b@.skip(i as int)),
        decreases a@.len() - i,
    {
        if a[i] != b[i] {
            proof {
                let x = a@.skip(i as int);
                let y = b@.skip(i as int);
                assert(x[0] == a@[i as int]);
                assert(y[0] == b@[i as int]);
            }
            return a[i] < b[i];
        }
        proof {
            lemma_lex_le_skip(a@, b@, i as int);
        }
        i = i + 1;
    }
    proof {
        if i == a@.len() {
            assert(a@.skip(i as int).len() == 0);
        } else {
            assert(b@.skip(i as int).len() == 0);
            assert(a@.skip(i as int).len() > 0);
        }
    }
    a.len() <= b.len()
}

proof fn lemma_lex_le_skip(a: Seq<char>, b: Seq<char>, i: int)
    requires
        0 <= i < a.len(),
        0 <= i < b.len(),
        forall|j: int| 0 <= j < i + 1 ==> a[j] == b[j],
    ensures
        lex_le(a.skip(i), b.skip(i)) == lex_le(a.skip(i + 1), b.skip(i + 1)),
{
    let x = a.skip(i);
    let y = b.skip(i);
    assert(x[0] == a[i] && y[0] == b[i]);
    assert(x.drop_first() =~= a.skip(i + 1));
    assert(y.drop_first() =~= b.skip(i + 1));
}

/// Decimal digit character.
pub open spec fn digit_char(d: nat) -> char {
    if d == 0 {
        '0'
    } else if d == 1 {
        '1'
    } else if d == 2 {
        '2'
    } else if d == 3 {
        '3'
    } else if d == 4 {
        '4'
    } else if d == 5 {
        '5'
    } else if d == 6 {
        '6'
    } else if d == 7 {
        '7'
    } else if d == 8 {
        '8'
    } else {
        '9'
    }
}

/// Decimal representation of `n`, most significant digit first.
pub open spec fn dec_digits(n: nat) -> Seq<char>
    decreases n,
{
    if n < 10 {
        seq![digit_char(n)]
    } else {
        dec_digits(n / 10).push(digit_char(n % 10))
    }
}

fn digit_of(d: usize) -> (c: char)
    requires
        d < 10,
    ensures
        c == digit_char(d as nat),
{
    match d {
        0 => '0',
        1 => '1',
        2 => '2',
        3 => '3',
        4 => '4',
        5 => '5',
        6 => '6',
        7 => '7',
        8 => '8',
        _ => '9',
    }
}

fn push_digits(n: usize, out: &mut Vec<char>)
    ensures
        final(out)@ == old(out)@ + dec_digits(n as nat),
    decreases n,
{
    if n < 10 {
        out.push(digit_of(n));
        proof {
            assert(out@ =~= old(out)@ + dec_digits(n as nat));
        }
    } else {
        proof {
            assert(n / 10 < n) by (nonlinear_arith)
                requires
                    n >= 10,
            ;
        }
        push_digits(n / 10, out);
        out.push(digit_of(n % 10));
        proof {
            assert(out@ =~= old(out)@ + dec_digits(n as nat));
        }
    }
}

fn push_digits_u64(n: u64, out: &mut Vec<char>)
    ensures
        final(out)@ == old(out)@ + dec_digits(n as nat),
    decreases n,
{
    if n < 10 {
        out.push(digit_of(n as usize));
        proof {
            assert(out@ =~= old(out)@ + dec_digits(n as nat));
        }
    } else {
        proof {
            assert(n / 10 < n) by (nonlinear_arith)
                requires
                    n >= 10,
            ;
        }
        push_digits_u64(n / 10, out);
        out.push(digit_of((n % 10) as usize));
        proof {
            assert(out@ =~= old(out)@ + dec_digits(n as nat));
        }
    }
}

/// Decimal rendering of a 64-bit number as characters.
pub fn u64_to_chars(n: u64) -> (r: Vec<char>)
    ensures
        r@ == dec_digits(n as nat),
{
    let mut r: Vec<char> = Vec::new();
    push_digits_u64(n, &mut r);
    proof {
        assert(r@ =~= dec_digits(n as nat));
    }
    r
}

/// Decimal rendering of a number as characters.
pub fn usize_to_chars(n: usize) -> (r: Vec<char>)
    ensures
        r@ == dec_digits(n as nat),
{
    let mut r: Vec<char> = Vec::new();
    push_digits(n, &mut r);
    proof {
        assert(r@ =~= dec_digits(n as nat));
    }
    r
}

/// Counts the occurrences of `p` in `s`.
#[verifier::loop_isolation(false)]
pub fn count_occurrences(s: &Vec<char>, p: &Vec<char>) -> (r: u64)
    requires
        p@.len() >= 1,
    ensures
        r as nat == count_matches(s@, p@),
{
    let n = s.len();
    let m = p.len();
    if m > n {
        return 0;
    }
    let mut i: usize = n - m + 1;
    let mut r: u64 = 0;
    proof {
        lemma_count_from_bound(s@, p@, 0);
    }
    while i > 0
        invariant
            i <= n - m + 1,
            r as nat == count_matches_from(s@, p@, i as int),
        decreases i,
    {
        i = i - 1;
        proof {
            lemma_count_from_bound(s@, p@, i + 1);
        }
        if matches_at(s, p, i) {
            r = r + 1;
        }
    }
    r
}

} // verus!
