//! Verified text helpers: splitting a multi-line string into rows, joining
//! rows back, building repeated-character strings, and basic comparisons.
//!
//! Rows are separated by `'\n'`. As with the standard splitter, a single
//! trailing newline terminates the last row rather than opening an empty one.

use vstd::prelude::*;

verus! {

/// Index of the first `'\n'` in `s`, or `s.len()` if there is none.
pub open spec fn first_nl(s: Seq<char>) -> int
    decreases s.len(),
{
    if s.len() == 0 {
        0
    } else if s[0] == '\n' {
        0
    } else {
        1 + first_nl(s.subrange(1, s.len() as int))
    }
}

/// The rows of `s`: maximal `'\n'`-free runs, the separators dropped.
pub open spec fn spec_lines(s: Seq<char>) -> Seq<Seq<char>>
    decreases s.len(),
    via spec_lines_decreases
{
    if s.len() == 0 {
        Seq::empty()
    } else {
        let i = first_nl(s);
        if i == s.len() {
            seq![s]
        } else {
            seq![s.subrange(0, i)] + spec_lines(s.subrange(i + 1, s.len() as int))
        }
    }
}

#[via_fn]
proof fn spec_lines_decreases(s: Seq<char>) {
    lemma_first_nl_bounds(s);
}

/// The rows joined with a single `'\n'` between consecutive rows.
pub open spec fn spec_join(rows: Seq<Seq<char>>) -> Seq<char>
    decreases rows.len(),
{
    if rows.len() == 0 {
        Seq::empty()
    } else if rows.len() == 1 {
        rows[0]
    } else {
        rows[0] + seq!['\n'] + spec_join(rows.subrange(1, rows.len() as int))
    }
}

pub proof fn lemma_first_nl_bounds(s: Seq<char>)
    ensures
        0 <= first_nl(s) <= s.len(),
        forall|j: int| 0 <= j < first_nl(s) ==> s[j] != '\n',
        first_nl(s) < s.len() ==> s[first_nl(s)] == '\n',
    decreases s.len(),
{
    if s.len() == 0 {
    } else if s[0] == '\n' {
    } else {
        let t = s.subrange(1, s.len() as int);
        lemma_first_nl_bounds(t);
        assert forall|j: int| 0 <= j < first_nl(s) implies s[j] != '\n' by {
            if j > 0 {
                assert(t[j - 1] == s[j]);
            }
        }
    }
}

/// If no `'\n'` occurs before `k`, and `k` is the length or holds `'\n'`,
/// then `k` is the first newline position.
pub proof fn lemma_first_nl_at(s: Seq<char>, k: int)
    requires
        0 <= k <= s.len(),
        forall|j: int| 0 <= j < k ==> s[j] != '\n',
        k < s.len() ==> s[k] == '\n',
    ensures
        first_nl(s) == k,
    decreases s.len(),
{
    if s.len() == 0 {
    } else if s[0] == '\n' {
        assert(k == 0);
    } else {
        let t = s.subrange(1, s.len() as int);
        assert(k >= 1);
        assert forall|j: int| 0 <= j < k - 1 implies t[j] != '\n' by {
            assert(t[j] == s[j + 1]);
        }
        lemma_first_nl_at(t, k - 1);
    }
}

/// Every character of every row of `spec_lines(s)` is not a newline.
pub proof fn lemma_lines_no_nl(s: Seq<char>)
    ensures
        forall|i: int, j: int|
            0 <= i < spec_lines(s).len() && 0 <= j < spec_lines(s)[i].len()
                ==> spec_lines(s)[i][j] != '\n',
    decreases s.len(),
{
    lemma_first_nl_bounds(s);
    if s.len() == 0 {
    } else {
        let i = first_nl(s);
        if i == s.len() {
            assert(spec_lines(s) == seq![s]);
            assert(spec_lines(s)[0] == s);
        } else {
            let rest = s.subrange(i + 1, s.len() as int);
            lemma_lines_no_nl(rest);
            let head = s.subrange(0, i);
            assert(spec_lines(s) == seq![head] + spec_lines(rest));
            assert(spec_lines(s)[0] == head);
            assert forall|k: int, j: int|
                0 <= k < spec_lines(s).len() && 0 <= j < spec_lines(s)[k].len()
                    implies spec_lines(s)[k][j] != '\n' by {
                if k == 0 {
                    assert(head[j] == s[j]);
                } else {
                    assert(spec_lines(s)[k] == spec_lines(rest)[k - 1]);
                }
            }
        }
    }
}

/// Appending one more row extends the join with a separator and the row.
pub proof fn lemma_join_push(rows: Seq<Seq<char>>, row: Seq<char>)
    requires
        rows.len() > 0,
    ensures
        spec_join(rows.push(row)) == spec_join(rows) + seq!['\n'] + row,
    decreases rows.len(),
{
    let p = rows.push(row);
    if rows.len() == 1 {
        assert(p.subrange(1, p.len() as int) =~= seq![row]);
        assert(spec_join(seq![row]) == seq![row][0]);
        assert(seq![row][0] == row);
        assert(p[0] == rows[0]);
        assert(spec_join(p) == p[0] + seq!['\n'] + spec_join(p.subrange(1, p.len() as int)));
        assert(spec_join(p) == rows[0] + seq!['\n'] + row);
    } else {
        lemma_join_push(rows.subrange(1, rows.len() as int), row);
        assert(p.subrange(1, p.len() as int) =~= rows.subrange(1, rows.len() as int).push(row));
        assert(spec_join(p) == p[0] + seq!['\n'] + spec_join(
            rows.subrange(1, rows.len() as int).push(row),
        ));
        assert(spec_join(rows.push(row)) =~= spec_join(rows) + seq!['\n'] + row);
    }
}

/// Splitting the join of newline-free rows recovers the rows, provided the
/// final row is non-empty (a trailing empty row would be absorbed by the
/// terminator rule).
pub proof fn lemma_lines_of_join(rows: Seq<Seq<char>>)
    requires
        forall|i: int, j: int|
            0 <= i < rows.len() && 0 <= j < rows[i].len() ==> rows[i][j] != '\n',
        rows.len() > 0 ==> rows.last().len() > 0,
    ensures
        spec_lines(spec_join(rows)) == rows,
    decreases rows.len(),
{
    if rows.len() == 0 {
        assert(spec_lines(spec_join(rows)) =~= rows);
    } else if rows.len() == 1 {
        let s = spec_join(rows);
        assert(s == rows[0]);
        lemma_first_nl_at(s, s.len() as int);
        assert(spec_lines(s) =~= rows);
    } else {
        let rest = rows.subrange(1, rows.len() as int);
        let s = spec_join(rows);
        assert(s == rows[0] + seq!['\n'] + spec_join(rest));
        lemma_first_nl_at(s, rows[0].len() as int);
        assert(spec_lines(s) == seq![s.subrange(0, rows[0].len() as int)] + spec_lines(
            s.subrange(rows[0].len() as int + 1, s.len() as int),
        ));
        assert(s.subrange(0, rows[0].len() as int) =~= rows[0]);
        assert(s.subrange(rows[0].len() as int + 1, s.len() as int) =~= spec_join(rest));
        assert(rest.last() == rows.last());
        lemma_lines_of_join(rest);
        assert(spec_lines(s) =~= rows);
    }
}

/// Relies on std's `String::push`: appends one character to the string.
#[verifier::external_body]
pub fn push_char(s: &mut String, c: char)
    ensures
        final(s)@ == old(s)@.push(c),
{
    s.push(c);
}

/// `n` copies of the character `c`.
pub fn char_repeat(c: char, n: usize) -> (r: String)
    ensures
        r@ == Seq::new(n as nat, |i: int| c),
{
    let mut s = String::new();
    let mut i: usize = 0;
    while i < n
        invariant
            i <= n,
            s@ == Seq::new(i as nat, |k: int| c),
        decreases n - i,
    {
        push_char(&mut s, c);
        proof {
            assert(s@ =~= Seq::new((i + 1) as nat, |k: int| c));
        }
        i += 1;
    }
    s
}

/// The rows of `s`, as owned strings.
pub fn split_lines(s: &str) -> (r: Vec<String>)
    ensures
        r.deep_view() == spec_lines(s@),
{
    let n = s.unicode_len();
    let mut out: Vec<String> = Vec::new();
    let mut pos: usize = 0;
    proof {
        assert(s@.subrange(0, n as int) =~= s@);
        assert(out.deep_view() =~= Seq::<Seq<char>>::empty());
        assert(out.deep_view() + spec_lines(s@) =~= spec_lines(s@));
    }
    while pos < n
        invariant
            pos <= n == s@.len(),
            spec_lines(s@) == out.deep_view() + spec_lines(s@.subrange(pos as int, n as int)),
        decreases n - pos,
    {
        let ghost suffix = s@.subrange(pos as int, n as int);
        let mut i = pos;
        while i < n && s.get_char(i) != '\n'
            invariant
                pos <= i <= n <= s@.len(),
                forall|j: int| pos <= j < i ==> s@[j] != '\n',
            decreases n - i,
        {
            i += 1;
        }
        let line = s.substring_char(pos, i).to_owned();
        proof {
            assert forall|j: int| 0 <= j < i - pos implies suffix[j] != '\n' by {
                assert(suffix[j] == s@[pos + j]);
            }
            if i < n {
                assert(suffix[i - pos] == s@[i as int]);
            }
            lemma_first_nl_at(suffix, i - pos);
            assert(line@ =~= suffix.subrange(0, i - pos));
        }
        let ghost old_dv = out.deep_view();
        out.push(line);
        proof {
            assert(out.deep_view() =~= old_dv.push(line@));
        }
        if i < n {
            proof {
                assert(spec_lines(suffix) == seq![suffix.subrange(0, i - pos)] + spec_lines(
                    suffix.subrange(i - pos + 1, suffix.len() as int),
                ));
                assert(suffix.subrange(i - pos + 1, suffix.len() as int) =~= s@.subrange(
                    i + 1,
                    n as int,
                ));
                assert(old_dv + spec_lines(suffix) =~= out.deep_view() + spec_lines(
                    s@.subrange(i + 1, n as int),
                ));
            }
            pos = i + 1;
        } else {
            proof {
                assert(first_nl(suffix) == suffix.len());
                assert(spec_lines(suffix) == seq![suffix]);
                assert(s@.subrange(n as int, n as int) =~= Seq::<char>::empty());
                assert(old_dv + spec_lines(suffix) =~= out.deep_view() + spec_lines(
                    s@.subrange(n as int, n as int),
                ));
            }
            pos = n;
        }
    }
    proof {
        assert(s@.subrange(n as int, n as int) =~= Seq::<char>::empty());
        assert(out.deep_view() + spec_lines(s@.subrange(pos as int, n as int)) =~= out.deep_view());
    }
    out
}

/// The rows joined with `'\n'` separators.
pub fn join_lines(rows: &Vec<String>) -> (r: String)
    ensures
        r@ == spec_join(rows.deep_view()),
{
    let mut s = String::new();
    let mut i: usize = 0;
    while i < rows.len()
        invariant
            i <= rows.len(),
            s@ == spec_join(rows.deep_view().subrange(0, i as int)),
        decreases rows.len() - i,
    {
        if i > 0 {
            push_char(&mut s, '\n');
        }
        let mut row = rows[i].clone();
        s.append(row.as_str());
        proof {
            let dv = rows.deep_view();
            let pre = dv.subrange(0, i as int);
            if i == 0 {
                assert(spec_join(dv.subrange(0, 1)) == dv.subrange(0, 1)[0]);
                assert(s@ =~= spec_join(dv.subrange(0, 1)));
            } else {
                lemma_join_push(pre, dv[i as int]);
                assert(pre.push(dv[i as int]) =~= dv.subrange(0, i + 1));
                assert(s@ =~= spec_join(pre) + seq!['\n'] + dv[i as int]);
            }
        }
        i += 1;
    }
    proof {
        assert(rows.deep_view().subrange(0, rows.deep_view().len() as int) =~= rows.deep_view());
    }
    s
}

/// Character-wise string equality.
pub fn str_eq(a: &str, b: &str) -> (r: bool)
    ensures
        r == (a@ == b@),
{
    let na = a.unicode_len();
    let nb = b.unicode_len();
    if na != nb {
        return false;
    }
    let mut i: usize = 0;
    while i < na
        invariant
            i <= na == a@.len(),
            na == nb == b@.len(),
            forall|j: int| 0 <= j < i ==> a@[j] == b@[j],
        decreases na - i,
    {
        if a.get_char(i) != b.get_char(i) {
            return false;
        }
        i += 1;
    }
    proof {
        assert(a@ =~= b@);
    }
    true
}

/// Is `c` ASCII whitespace?
pub open spec fn is_ascii_space(c: char) -> bool {
    c == ' ' || c == '\t' || c == '\r' || c == '\n'
}

/// `s` with leading ASCII whitespace dropped.
pub open spec fn spec_trim_start(s: Seq<char>) -> Seq<char>
    decreases s.len(),
{
    if s.len() == 0 {
        s
    } else if is_ascii_space(s[0]) {
        spec_trim_start(s.subrange(1, s.len() as int))
    } else {
        s
    }
}

/// `s` with trailing ASCII whitespace dropped.
pub open spec fn spec_trim_end(s: Seq<char>) -> Seq<char>
    decreases s.len(),
{
    if s.len() == 0 {
        s
    } else if is_ascii_space(s.last()) {
        spec_trim_end(s.drop_last())
    } else {
        s
    }
}

/// `s` with whitespace dropped at both ends.
pub open spec fn spec_trim(s: Seq<char>) -> Seq<char> {
    spec_trim_end(spec_trim_start(s))
}

proof fn lemma_trim_start_at(s: Seq<char>, a: int)
    requires
        0 <= a <= s.len(),
        forall|j: int| 0 <= j < a ==> is_ascii_space(s[j]),
        a < s.len() ==> !is_ascii_space(s[a]),
    ensures
        spec_trim_start(s) == s.subrange(a, s.len() as int),
    decreases s.len(),
{
    if a == 0 {
        if s.len() == 0 {
            assert(s.subrange(0, s.len() as int) =~= s);
        } else {
            assert(s.subrange(0, s.len() as int) =~= s);
        }
    } else {
        let t = s.subrange(1, s.len() as int);
        assert(is_ascii_space(s[0]));
        assert forall|j: int| 0 <= j < a - 1 implies is_ascii_space(t[j]) by {
            assert(t[j] == s[j + 1]);
        }
        lemma_trim_start_at(t, a - 1);
        assert(t.subrange(a - 1, t.len() as int) =~= s.subrange(a, s.len() as int));
    }
}

proof fn lemma_trim_end_at(s: Seq<char>, b: int)
    requires
        0 <= b <= s.len(),
        forall|j: int| b <= j < s.len() ==> is_ascii_space(s[j]),
        b > 0 ==> !is_ascii_space(s[b - 1]),
    ensures
        spec_trim_end(s) == s.subrange(0, b),
    decreases s.len(),
{
    if b == s.len() {
        if s.len() == 0 {
            assert(s.subrange(0, b) =~= s);
        } else {
            assert(s.subrange(0, b) =~= s);
        }
    } else {
        assert(is_ascii_space(s.last()));
        let t = s.drop_last();
        assert forall|j: int| b <= j < t.len() implies is_ascii_space(t[j]) by {
            assert(t[j] == s[j]);
        }
        lemma_trim_end_at(t, b);
        assert(t.subrange(0, b) =~= s.subrange(0, b));
    }
}

/// Is the character at position `i` ASCII whitespace?
fn space_at(s: &str, i: usize) -> (r: bool)
    requires
        i < s@.len(),
    ensures
        r == is_ascii_space(s@[i as int]),
{
    let c = s.get_char(i);
    c == ' ' || c == '\t' || c == '\r' || c == '\n'
}

/// `s` with ASCII whitespace dropped at both ends.
pub fn trim(s: &str) -> (r: String)
    ensures
        r@ == spec_trim(s@),
{
    let n = s.unicode_len();
    let mut a: usize = 0;
    while a < n && space_at(s, a)
        invariant
            a <= n == s@.len(),
            forall|j: int| 0 <= j < a ==> is_ascii_space(s@[j]),
        decreases n - a,
    {
        a += 1;
    }
    let mut b: usize = n;
    while b > a && space_at(s, b - 1)
        invariant
            a <= b <= n == s@.len(),
            forall|j: int| 0 <= j < a ==> is_ascii_space(s@[j]),
            a < n ==> !is_ascii_space(s@[a as int]),
            forall|j: int| b <= j < n ==> is_ascii_space(s@[j]),
        decreases b,
    {
        b -= 1;
    }
    let r = s.substring_char(a, b).to_owned();
    proof {
        lemma_trim_start_at(s@, a as int);
        let t = s@.subrange(a as int, n as int);
        if a == n {
            lemma_trim_end_at(t, 0);
        } else {
            assert forall|j: int| (b - a) <= j < t.len() implies is_ascii_space(t[j]) by {
                assert(t[j] == s@[a + j]);
            }
            if b > a {
                assert(t[b - a - 1] == s@[b - 1]);
            }
            lemma_trim_end_at(t, b - a);
        }
        assert(t.subrange(0, b - a) =~= s@.subrange(a as int, b as int));
        assert(r@ =~= spec_trim(s@));
    }
    r
}

/// Does `pat` occur in `s` at position `i`?
pub open spec fn matches_at(s: Seq<char>, pat: Seq<char>, i: int) -> bool {
    0 <= i && i + pat.len() <= s.len() && s.subrange(i, i + pat.len() as int) == pat
}

/// The first position at or after `from` where `pat` occurs in `s`.
pub open spec fn spec_find(s: Seq<char>, pat: Seq<char>, from: int) -> Option<int>
    decreases s.len() - from when 0 <= from && pat.len() > 0
{
    if from + pat.len() > s.len() {
        None
    } else if matches_at(s, pat, from) {
        Some(from)
    } else {
        spec_find(s, pat, from + 1)
    }
}

pub proof fn lemma_find_bounds(s: Seq<char>, pat: Seq<char>, from: int)
    requires
        0 <= from,
        pat.len() > 0,
    ensures
        spec_find(s, pat, from) matches Some(i) ==> from <= i && i + pat.len() <= s.len()
            && matches_at(s, pat, i),
    decreases s.len() - from,
{
    if from + pat.len() > s.len() {
    } else if matches_at(s, pat, from) {
    } else {
        lemma_find_bounds(s, pat, from + 1);
    }
}

pub proof fn lemma_find_first(s: Seq<char>, pat: Seq<char>, from: int, i: int)
    requires
        pat.len() > 0,
        0 <= from <= i,
        matches_at(s, pat, i),
        forall|j: int| from <= j < i ==> !matches_at(s, pat, j),
    ensures
        spec_find(s, pat, from) == Some(i),
    decreases i - from,
{
    if from == i {
    } else {
        lemma_find_first(s, pat, from + 1, i);
    }
}

pub proof fn lemma_find_none(s: Seq<char>, pat: Seq<char>, from: int)
    requires
        pat.len() > 0,
        0 <= from,
        forall|j: int| from <= j ==> !matches_at(s, pat, j),
    ensures
        spec_find(s, pat, from) == None::<int>,
    decreases s.len() - from,
{
    if from + pat.len() > s.len() {
    } else {
        lemma_find_none(s, pat, from + 1);
    }
}

/// What a find result means: a hit is the first occurrence, a miss means
/// there is none at all.
pub proof fn lemma_find_characterise(s: Seq<char>, pat: Seq<char>, from: int)
    requires
        pat.len() > 0,
        0 <= from,
    ensures
        spec_find(s, pat, from) matches Some(i) ==> from <= i && matches_at(s, pat, i) && (
        forall|j: int| from <= j < i ==> !matches_at(s, pat, j)),
        spec_find(s, pat, from) is None ==> forall|j: int| from <= j ==> !matches_at(s, pat, j),
    decreases s.len() - from,
{
    if from + pat.len() > s.len() {
        assert forall|j: int| from <= j implies !matches_at(s, pat, j) by {
            assert(j + pat.len() > s.len());
        }
    } else if matches_at(s, pat, from) {
    } else {
        lemma_find_characterise(s, pat, from + 1);
        if spec_find(s, pat, from) is None {
            assert forall|j: int| from <= j implies !matches_at(s, pat, j) by {
                if j > from {
                    assert(!matches_at(s, pat, j));
                }
            }
        }
    }
}

/// Does `pat` occur in `s` at position `i`? Executable form.
fn match_at(s: &str, pat: &str, i: usize) -> (r: bool)
    requires
        i + pat@.len() <= s@.len(),
    ensures
        r == matches_at(s@, pat@, i as int),
{
    let n = s.unicode_len();
    let p = pat.unicode_len();
    let mut k: usize = 0;
    while k < p
        invariant
            k <= p == pat@.len(),
            n == s@.len(),
            i + p <= s@.len(),
            forall|j: int| 0 <= j < k ==> s@[i + j] == pat@[j],
        decreases p - k,
    {
        if s.get_char(i + k) != pat.get_char(k) {
            proof {
                assert(s@.subrange(i as int, i + p) [k as int] != pat@[k as int]);
            }
            return false;
        }
        k += 1;
    }
    proof {
        assert(s@.subrange(i as int, i + p) =~= pat@);
    }
    true
}

/// The first occurrence of `pat` in `s` at or after `from`.
pub fn find_str_from(s: &str, pat: &str, from: usize) -> (r: Option<usize>)
    requires
        pat@.len() > 0,
        from <= s@.len(),
    ensures
        match r {
            Some(i) => spec_find(s@, pat@, from as int) == Some(i as int),
            None => spec_find(s@, pat@, from as int) == None::<int>,
        },
{
    let n = s.unicode_len();
    let p = pat.unicode_len();
    if p > n {
        proof {
            assert forall|j: int| from <= j implies !matches_at(s@, pat@, j) by {
                assert(j + pat@.len() > s@.len());
            }
            lemma_find_none(s@, pat@, from as int);
        }
        return None;
    }
    let mut i = from;
    while i <= n - p
        invariant
            from <= i,
            p <= n,
            i <= n,
            n == s@.len(),
            p == pat@.len() > 0,
            forall|j: int| from <= j < i ==> !matches_at(s@, pat@, j),
        decreases n - i,
    {
        if match_at(s, pat, i) {
            proof {
                lemma_find_first(s@, pat@, from as int, i as int);
            }
            return Some(i);
        }
        i += 1;
    }
    proof {
        assert forall|j: int| from <= j implies !matches_at(s@, pat@, j) by {
            if j < i {
            } else {
                assert(j + pat@.len() > s@.len());
            }
        }
        lemma_find_none(s@, pat@, from as int);
    }
    None
}

/// The pieces of `s` between occurrences of the separator `pat`; adjacent
/// or terminal separators yield empty pieces.
pub open spec fn spec_split(s: Seq<char>, pat: Seq<char>) -> Seq<Seq<char>>
    decreases s.len() when pat.len() > 0
    via spec_split_decreases
{
    match spec_find(s, pat, 0) {
        None => seq![s],
        Some(i) => seq![s.subrange(0, i)] + spec_split(
            s.subrange(i + pat.len() as int, s.len() as int),
            pat,
        ),
    }
}

#[via_fn]
proof fn spec_split_decreases(s: Seq<char>, pat: Seq<char>) {
    lemma_find_bounds(s, pat, 0);
}

/// Splits `s` on the separator `pat`.
pub fn split_on(s: &str, pat: &str) -> (r: Vec<String>)
    requires
        pat@.len() > 0,
    ensures
        r.deep_view() == spec_split(s@, pat@),
{
    let n = s.unicode_len();
    let p = pat.unicode_len();
    let mut out: Vec<String> = Vec::new();
    let mut pos: usize = 0;
    proof {
        assert(s@.subrange(0, n as int) =~= s@);
        assert(out.deep_view() + spec_split(s@, pat@) =~= spec_split(s@, pat@));
    }
    loop
        invariant
            pos <= n == s@.len(),
            p == pat@.len() > 0,
            spec_split(s@, pat@) == out.deep_view() + spec_split(
                s@.subrange(pos as int, n as int),
                pat@,
            ),
        decreases n - pos + 1,
    {
        let ghost suffix = s@.subrange(pos as int, n as int);
        let ghost before = out.deep_view();
        match find_str_from(s, pat, pos) {
            Some(i) => {
                proof {
                    lemma_find_characterise(s@, pat@, pos as int);
                    assert forall|j: int| 0 <= j < i - pos implies !matches_at(suffix, pat@, j) by {
                        if j + pat@.len() <= suffix.len() {
                            assert(suffix.subrange(j, j + pat@.len() as int) =~= s@.subrange(
                                pos + j,
                                pos + j + pat@.len() as int,
                            ));
                            assert(!matches_at(s@, pat@, pos + j));
                        }
                    }
                    assert(suffix.subrange(i - pos, i - pos + pat@.len() as int) =~= s@.subrange(
                        i as int,
                        i + pat@.len() as int,
                    ));
                    assert(matches_at(suffix, pat@, i - pos));
                    lemma_find_first(suffix, pat@, 0, i - pos);
                }
                let piece = s.substring_char(pos, i).to_owned();
                out.push(piece);
                proof {
                    assert(out.deep_view() =~= before.push(s@.subrange(pos as int, i as int)));
                    assert(suffix.subrange(0, i - pos) =~= s@.subrange(pos as int, i as int));
                    assert(suffix.subrange(i - pos + pat@.len() as int, suffix.len() as int)
                        =~= s@.subrange(i + p, n as int));
                    assert(spec_split(suffix, pat@) == seq![suffix.subrange(0, i - pos)]
                        + spec_split(s@.subrange(i + p, n as int), pat@));
                    assert(before + (seq![s@.subrange(pos as int, i as int)] + spec_split(
                        s@.subrange(i + p, n as int),
                        pat@,
                    )) =~= out.deep_view() + spec_split(s@.subrange(i + p, n as int), pat@));
                }
                pos = i + p;
            },
            None => {
                proof {
                    lemma_find_characterise(s@, pat@, pos as int);
                    assert forall|j: int| 0 <= j implies !matches_at(suffix, pat@, j) by {
                        if j + pat@.len() <= suffix.len() {
                            assert(suffix.subrange(j, j + pat@.len() as int) =~= s@.subrange(
                                pos + j,
                                pos + j + pat@.len() as int,
                            ));
                            assert(!matches_at(s@, pat@, pos + j));
                        }
                    }
                    lemma_find_none(suffix, pat@, 0);
                    assert(spec_split(suffix, pat@) == seq![suffix]);
                }
                let piece = s.substring_char(pos, n).to_owned();
                out.push(piece);
                proof {
                    assert(out.deep_view() =~= before.push(suffix));
                    assert(before + seq![suffix] =~= out.deep_view());
                    assert(out.deep_view() + Seq::<Seq<char>>::empty() =~= out.deep_view());
                    assert(spec_split(s@, pat@) =~= out.deep_view());
                }
                return out;
            },
        }
    }
}

/// Element-wise equality of two string vectors, at the level of views.
pub fn vec_string_eq(a: &Vec<String>, b: &Vec<String>) -> (r: bool)
    ensures
        r == (a.deep_view() == b.deep_view()),
{
    if a.len() != b.len() {
        proof {
            assert(a.deep_view().len() != b.deep_view().len());
        }
        return false;
    }
    let mut i: usize = 0;
    while i < a.len()
        invariant
            i <= a.len(),
            a.deep_view().len() == a.len() == b.len() == b.deep_view().len(),
            forall|j: int| 0 <= j < i ==> a.deep_view()[j] == b.deep_view()[j],
        decreases a.len() - i,
    {
        if !str_eq(a[i].as_str(), b[i].as_str()) {
            proof {
                assert(a.deep_view()[i as int] != b.deep_view()[i as int]);
            }
            return false;
        }
        i += 1;
    }
    proof {
        assert(a.deep_view() =~= b.deep_view());
    }
    true
}

/// Element-wise equality of two colour grids, at the level of views.
pub fn colour_grid_eq(a: &Vec<Vec<String>>, b: &Vec<Vec<String>>) -> (r: bool)
    ensures
        r == (a.deep_view() == b.deep_view()),
{
    if a.len() != b.len() {
        proof {
            assert(a.deep_view().len() != b.deep_view().len());
        }
        return false;
    }
    let mut i: usize = 0;
    while i < a.len()
        invariant
            i <= a.len(),
            a.deep_view().len() == a.len() == b.len() == b.deep_view().len(),
            forall|j: int| 0 <= j < i ==> a.deep_view()[j] == b.deep_view()[j],
        decreases a.len() - i,
    {
        proof {
            assert(a.deep_view()[i as int] == a@[i as int].deep_view());
            assert(b.deep_view()[i as int] == b@[i as int].deep_view());
        }
        if !vec_string_eq(&a[i], &b[i]) {
            return false;
        }
        i += 1;
    }
    proof {
        assert(a.deep_view() =~= b.deep_view());
    }
    true
}

/// Does `s` start with `prefix`?
pub fn starts_with_str(s: &str, prefix: &str) -> (r: bool)
    ensures
        r == (s@.len() >= prefix@.len() && s@.subrange(0, prefix@.len() as int) == prefix@),
{
    let n = s.unicode_len();
    let p = prefix.unicode_len();
    if n < p {
        return false;
    }
    let mut i: usize = 0;
    while i < p
        invariant
            i <= p == prefix@.len(),
            p <= n == s@.len(),
            forall|j: int| 0 <= j < i ==> s@[j] == prefix@[j],
        decreases p - i,
    {
        if s.get_char(i) != prefix.get_char(i) {
            proof {
                assert(s@.subrange(0, p as int)[i as int] != prefix@[i as int]);
            }
            return false;
        }
        i += 1;
    }
    proof {
        assert(s@.subrange(0, p as int) =~= prefix@);
    }
    true
}

} // verus!
