//! Character-level string operations with exact specifications.
use vstd::prelude::*;
use vstd::string::*;

verus! {

/// `pat` occurs in `s` starting at position `i`.
pub open spec fn occurs_at(s: Seq<char>, pat: Seq<char>, i: int) -> bool {
    0 <= i && i + pat.len() <= s.len() && s.subrange(i, i + pat.len()) == pat
}

pub open spec fn contains(s: Seq<char>, pat: Seq<char>) -> bool {
    exists|i: int| occurs_at(s, pat, i)
}

pub open spec fn starts_with(s: Seq<char>, pat: Seq<char>) -> bool {
    occurs_at(s, pat, 0)
}

/// ASCII case folding of one character, as a code point.
pub open spec fn fold_ascii(c: char) -> u32 {
    if 'A' <= c && c <= 'Z' {
        (c as u32 + 32) as u32
    } else {
        c as u32
    }
}

/// `pat` occurs in `s` at `i` when ASCII letters are compared without case.
pub open spec fn occurs_at_ci(s: Seq<char>, pat: Seq<char>, i: int) -> bool {
    0 <= i && i + pat.len() <= s.len() && forall|j: int|
        0 <= j < pat.len() ==> #[trigger] fold_ascii(s[i + j]) == fold_ascii(pat[j])
}

/// Substring test that ignores the case of ASCII letters.
pub open spec fn contains_ci(s: Seq<char>, pat: Seq<char>) -> bool {
    exists|i: int| occurs_at_ci(s, pat, i)
}

/// Replaces every non-overlapping occurrence of `pat`, scanning from the left.
pub open spec fn replace_all(s: Seq<char>, pat: Seq<char>, rep: Seq<char>) -> Seq<char>
    decreases s.len(),
{
    if pat.len() == 0 || s.len() < pat.len() {
        s
    } else if s.subrange(0, pat.len() as int) == pat {
        rep + replace_all(s.subrange(pat.len() as int, s.len() as int), pat, rep)
    } else {
        seq![s[0]] + replace_all(s.drop_first(), pat, rep)
    }
}

/// Adds `prefix` to the front of the first part.
pub open spec fn prepend_first(prefix: Seq<char>, parts: Seq<Seq<char>>) -> Seq<Seq<char>> {
    if parts.len() == 0 {
        seq![prefix]
    } else {
        parts.update(0, prefix + parts[0])
    }
}

/// The parts of `s` between non-overlapping occurrences of `pat`, scanning from the left.
pub open spec fn split_on(s: Seq<char>, pat: Seq<char>) -> Seq<Seq<char>>
    decreases s.len(),
{
    if pat.len() == 0 || s.len() < pat.len() {
        seq![s]
    } else if s.subrange(0, pat.len() as int) == pat {
        seq![Seq::<char>::empty()] + split_on(s.subrange(pat.len() as int, s.len() as int), pat)
    } else {
        prepend_first(seq![s[0]], split_on(s.drop_first(), pat))
    }
}

/// The last position at or before `end` where `pat` occurs, or -1.
pub open spec fn last_occurrence(s: Seq<char>, pat: Seq<char>, end: int) -> int
    decreases end + 1,
{
    if end < 0 {
        -1
    } else if occurs_at(s, pat, end) {
        end
    } else {
        last_occurrence(s, pat, end - 1)
    }
}

/// The text after the last occurrence of `pat`, or all of `s` when there is none.
pub open spec fn after_last(s: Seq<char>, pat: Seq<char>) -> Seq<char> {
    let k = last_occurrence(s, pat, s.len() - pat.len());
    if k < 0 {
        s
    } else {
        s.subrange(k + pat.len(), s.len() as int)
    }
}

/// Relies on String::push: the character is appended at the end.
#[verifier::external_body]
pub(crate) fn push_char(s: &mut String, c: char)
    ensures
        final(s)@ == old(s)@.push(c),
{
    s.push(c);
}

/// Does `pat` occur in `s` at position `i`?
pub fn occurs_at_exec(s: &str, n: usize, pat: &str, m: usize, i: usize) -> (r: bool)
    requires
        n == s@.len(),
        m == pat@.len(),
    ensures
        r == occurs_at(s@, pat@, i as int),
{
    if i > n || m > n - i {
        return false;
    }
    let mut j: usize = 0;
    while j < m
        invariant
            i + m <= n,
            n == s@.len(),
            m == pat@.len(),
            j <= m,
            forall|k: int| 0 <= k < j ==> s@[i + k] == pat@[k],
        decreases m - j,
    {
        if s.get_char(i + j) != pat.get_char(j) {
            assert(s@.subrange(i as int, i + m)[j as int] != pat@[j as int]);
            return false;
        }
        j += 1;
    }
    assert(s@.subrange(i as int, i + m) =~= pat@);
    true
}

pub fn fold_ascii_exec(c: char) -> (r: u32)
    ensures
        r == fold_ascii(c),
{
    if 'A' <= c && c <= 'Z' {
        c as u32 + 32
    } else {
        c as u32
    }
}

/// Does `pat` occur in `s` at position `i`, ignoring the case of ASCII letters?
fn occurs_at_ci_exec(s: &str, n: usize, pat: &str, m: usize, i: usize) -> (r: bool)
    requires
        n == s@.len(),
        m == pat@.len(),
        i + m <= n,
    ensures
        r == occurs_at_ci(s@, pat@, i as int),
{
    let mut j: usize = 0;
    while j < m
        invariant
            i + m <= n,
            n == s@.len(),
            m == pat@.len(),
            j <= m,
            forall|k: int| 0 <= k < j ==> fold_ascii(s@[i + k]) == fold_ascii(pat@[k]),
        decreases m - j,
    {
        if fold_ascii_exec(s.get_char(i + j)) != fold_ascii_exec(pat.get_char(j)) {
            return false;
        }
        j += 1;
    }
    true
}

/// Substring test that ignores the case of ASCII letters.
pub fn contains_ignore_ascii_case(s: &str, pat: &str) -> (r: bool)
    ensures
        r == contains_ci(s@, pat@),
{
    let n = s.unicode_len();
    let m = pat.unicode_len();
    if m == 0 {
        assert(occurs_at_ci(s@, pat@, 0));
        return true;
    }
    if m > n {
        assert forall|i: int| !occurs_at_ci(s@, pat@, i) by {}
        return false;
    }
    let mut i: usize = 0;
    while i <= n - m
        invariant
            0 < m <= n,
            n == s@.len(),
            m == pat@.len(),
            forall|k: int| 0 <= k < i ==> !occurs_at_ci(s@, pat@, k),
        decreases n - m + 1 - i,
    {
        if occurs_at_ci_exec(s, n, pat, m, i) {
            return true;
        }
        i += 1;
    }
    assert forall|k: int| !occurs_at_ci(s@, pat@, k) by {
        if 0 <= k < i {
        }
    }
    false
}

/// Substring test.
pub fn contains_exec(s: &str, pat: &str) -> (r: bool)
    ensures
        r == contains(s@, pat@),
{
    let n = s.unicode_len();
    let m = pat.unicode_len();
    if m == 0 {
        assert(s@.subrange(0, 0) =~= pat@);
        assert(occurs_at(s@, pat@, 0));
        return true;
    }
    if m > n {
        assert forall|i: int| !occurs_at(s@, pat@, i) by {}
        return false;
    }
    let mut i: usize = 0;
    while i <= n - m
        invariant
            0 < m <= n,
            n == s@.len(),
            m == pat@.len(),
            forall|k: int| 0 <= k < i ==> !occurs_at(s@, pat@, k),
        decreases n - m + 1 - i,
    {
        if occurs_at_exec(s, n, pat, m, i) {
            return true;
        }
        i += 1;
    }
    assert forall|k: int| !occurs_at(s@, pat@, k) by {
        if 0 <= k < i {
        }
    }
    false
}

pub fn starts_with_exec(s: &str, pat: &str) -> (r: bool)
    ensures
        r == starts_with(s@, pat@),
{
    let n = s.unicode_len();
    let m = pat.unicode_len();
    occurs_at_exec(s, n, pat, m, 0)
}

proof fn lemma_replace_step(s: Seq<char>, pat: Seq<char>, rep: Seq<char>, i: int)
    requires
        pat.len() > 0,
        0 <= i < s.len(),
    ensures
        s.len() - i < pat.len() ==> replace_all(s.subrange(i, s.len() as int), pat, rep)
            == s.subrange(i, s.len() as int),
        occurs_at(s, pat, i) ==> replace_all(s.subrange(i, s.len() as int), pat, rep) == rep
            + replace_all(s.subrange(i + pat.len(), s.len() as int), pat, rep),
        (s.len() - i >= pat.len() && !occurs_at(s, pat, i)) ==> replace_all(
            s.subrange(i, s.len() as int),
            pat,
            rep,
        ) == seq![s[i]] + replace_all(s.subrange(i + 1, s.len() as int), pat, rep),
{
    let t = s.subrange(i, s.len() as int);
    if t.len() >= pat.len() {
        assert(t.subrange(0, pat.len() as int) =~= s.subrange(i, i + pat.len()));
        assert(t.subrange(pat.len() as int, t.len() as int) =~= s.subrange(
            i + pat.len(),
            s.len() as int,
        ));
        assert(t.drop_first() =~= s.subrange(i + 1, s.len() as int));
    }
}

/// Replaces every non-overlapping occurrence of `pat` by `rep`, scanning from the left.
pub fn replace_all_exec(s: &str, pat: &str, rep: &str) -> (r: String)
    requires
        pat@.len() > 0,
    ensures
        r@ == replace_all(s@, pat@, rep@),
{
    let n = s.unicode_len();
    let m = pat.unicode_len();
    let mut out = String::new();
    let mut i: usize = 0;
    assert(s@.subrange(0, n as int) =~= s@);
    assert(out@ + replace_all(s@, pat@, rep@) =~= replace_all(s@, pat@, rep@));
    while i < n
        invariant
            n == s@.len(),
            m == pat@.len(),
            m > 0,
            i <= n,
            out@ + replace_all(s@.subrange(i as int, n as int), pat@, rep@) == replace_all(
                s@,
                pat@,
                rep@,
            ),
        decreases n - i,
    {
        proof {
            lemma_replace_step(s@, pat@, rep@, i as int);
        }
        if m <= n - i && occurs_at_exec(s, n, pat, m, i) {
            let ghost before = out@;
            out.append(rep);
            assert(out@ + replace_all(s@.subrange(i + m, n as int), pat@, rep@) =~= before + (
            rep@ + replace_all(s@.subrange(i + m, n as int), pat@, rep@)));
            i = i + m;
        } else if m > n - i {
            out.append(s.substring_char(i, n));
            i = n;
        } else {
            let ghost before = out@;
            push_char(&mut out, s.get_char(i));
            assert(out@ + replace_all(s@.subrange(i + 1, n as int), pat@, rep@) =~= before + (
            seq![s@[i as int]] + replace_all(s@.subrange(i + 1, n as int), pat@, rep@)));
            i = i + 1;
        }
    }
    assert(s@.subrange(n as int, n as int) =~= Seq::<char>::empty());
    assert(out@ + Seq::<char>::empty() =~= out@);
    out
}

pub open spec fn views(v: Seq<String>) -> Seq<Seq<char>> {
    v.map_values(|x: String| x@)
}

proof fn lemma_split_nonempty(s: Seq<char>, pat: Seq<char>)
    ensures
        split_on(s, pat).len() >= 1,
    decreases s.len(),
{
    if pat.len() == 0 || s.len() < pat.len() {
    } else if s.subrange(0, pat.len() as int) == pat {
        lemma_split_nonempty(s.subrange(pat.len() as int, s.len() as int), pat);
    } else {
        lemma_split_nonempty(s.drop_first(), pat);
    }
}

proof fn lemma_split_step(s: Seq<char>, pat: Seq<char>, i: int)
    requires
        pat.len() > 0,
        0 <= i <= s.len(),
    ensures
        s.len() - i < pat.len() ==> split_on(s.subrange(i, s.len() as int), pat) == seq![
            s.subrange(i, s.len() as int),
        ],
        occurs_at(s, pat, i) ==> split_on(s.subrange(i, s.len() as int), pat) == seq![
            Seq::<char>::empty(),
        ] + split_on(s.subrange(i + pat.len(), s.len() as int), pat),
        (s.len() - i >= pat.len() && !occurs_at(s, pat, i)) ==> split_on(
            s.subrange(i, s.len() as int),
            pat,
        ) == prepend_first(seq![s[i]], split_on(s.subrange(i + 1, s.len() as int), pat)),
{
    let t = s.subrange(i, s.len() as int);
    if t.len() >= pat.len() {
        assert(t.subrange(0, pat.len() as int) =~= s.subrange(i, i + pat.len()));
        assert(t.subrange(pat.len() as int, t.len() as int) =~= s.subrange(
            i + pat.len(),
            s.len() as int,
        ));
        assert(t.drop_first() =~= s.subrange(i + 1, s.len() as int));
    }
}

/// The parts of `s` between non-overlapping occurrences of `pat`.
pub fn split_exec(s: &str, pat: &str) -> (r: Vec<String>)
    requires
        pat@.len() > 0,
    ensures
        views(r@) == split_on(s@, pat@),
{
    let n = s.unicode_len();
    let m = pat.unicode_len();
    let mut parts: Vec<String> = Vec::new();
    let mut cur = String::new();
    let mut i: usize = 0;
    proof {
        lemma_split_nonempty(s@, pat@);
        assert(s@.subrange(0, n as int) =~= s@);
        let sp = split_on(s@, pat@);
        assert(prepend_first(cur@, sp) =~= sp);
        assert(views(parts@) + sp =~= sp);
    }
    while m <= n - i
        invariant
            n == s@.len(),
            m == pat@.len(),
            m > 0,
            i <= n,
            views(parts@) + prepend_first(cur@, split_on(s@.subrange(i as int, n as int), pat@))
                == split_on(s@, pat@),
        decreases n - i,
    {
        proof {
            lemma_split_step(s@, pat@, i as int);
        }
        if occurs_at_exec(s, n, pat, m, i) {
            let ghost rest = split_on(s@.subrange(i + m, n as int), pat@);
            proof {
                lemma_split_nonempty(s@.subrange(i + m, n as int), pat@);
            }
            let done = cur;
            cur = String::new();
            let ghost before = views(parts@);
            parts.push(done);
            proof {
                assert(views(parts@) =~= before.push(done@));
                assert(prepend_first(cur@, rest) =~= rest);
                assert(prepend_first(done@, seq![Seq::<char>::empty()] + rest) =~= seq![done@]
                    + rest);
                assert(views(parts@) + prepend_first(cur@, rest) =~= before + prepend_first(
                    done@,
                    seq![Seq::<char>::empty()] + rest,
                ));
            }
            i = i + m;
        } else {
            let ghost rest = split_on(s@.subrange(i + 1, n as int), pat@);
            proof {
                lemma_split_nonempty(s@.subrange(i + 1, n as int), pat@);
            }
            let ghost old_cur = cur@;
            push_char(&mut cur, s.get_char(i));
            proof {
                assert(old_cur + (seq![s@[i as int]] + rest[0]) =~= cur@ + rest[0]);
                assert(prepend_first(old_cur, prepend_first(seq![s@[i as int]], rest))
                    =~= prepend_first(cur@, rest));
            }
            i = i + 1;
        }
    }
    proof {
        lemma_split_step(s@, pat@, i as int);
    }
    let ghost before = views(parts@);
    let ghost old_cur = cur@;
    cur.append(s.substring_char(i, n));
    parts.push(cur);
    proof {
        assert(views(parts@) =~= before.push(cur@));
        assert(prepend_first(old_cur, seq![s@.subrange(i as int, n as int)]) =~= seq![cur@]);
        assert(views(parts@) =~= before + seq![cur@]);
    }
    parts
}

/// The text after the last occurrence of `pat`, or all of `s` when there is none.
pub fn after_last_exec(s: &str, pat: &str) -> (r: String)
    requires
        pat@.len() > 0,
    ensures
        r@ == after_last(s@, pat@),
{
    let n = s.unicode_len();
    let m = pat.unicode_len();
    if m > n {
        return String::from_str(s);
    }
    let mut j: usize = n - m + 1;
    while j > 0
        invariant
            n == s@.len(),
            m == pat@.len(),
            0 < m <= n,
            j <= n - m + 1,
            last_occurrence(s@, pat@, n - m) == last_occurrence(s@, pat@, j - 1),
        decreases j,
    {
        if occurs_at_exec(s, n, pat, m, j - 1) {
            return String::from_str(s.substring_char(j - 1 + m, n));
        }
        j = j - 1;
    }
    String::from_str(s)
}

} // verus!
