//! Maps kept as sequences of entries with distinct text keys.
use vstd::prelude::*;

verus! {

/// A result map kept as a sequence of entries with distinct keys.
pub open spec fn entries_view<V: DeepView>(m: Seq<(String, V)>) -> Seq<(Seq<char>, V::V)> {
    m.map_values(|e: (String, V)| (e.0@, e.1.deep_view()))
}

pub open spec fn has_key<W>(m: Seq<(Seq<char>, W)>, k: Seq<char>) -> bool {
    exists|i: int| 0 <= i < m.len() && m[i].0 == k
}

pub open spec fn is_first_key<W>(m: Seq<(Seq<char>, W)>, k: Seq<char>, i: int) -> bool {
    0 <= i < m.len() && m[i].0 == k && forall|j: int| 0 <= j < i ==> m[j].0 != k
}

/// Sets the value of `k`: an existing entry is overwritten in place, a new key goes last.
pub open spec fn upsert<W>(m: Seq<(Seq<char>, W)>, k: Seq<char>, v: W) -> Seq<(Seq<char>, W)> {
    if has_key(m, k) {
        m.update(choose|i: int| is_first_key(m, k, i), (k, v))
    } else {
        m.push((k, v))
    }
}

/// The map built by inserting each present entry in turn; later entries win.
pub open spec fn collect<W>(entries: Seq<Option<(Seq<char>, W)>>) -> Seq<(Seq<char>, W)>
    decreases entries.len(),
{
    if entries.len() == 0 {
        Seq::empty()
    } else {
        let prev = collect(entries.drop_last());
        match entries.last() {
            Some(e) => upsert(prev, e.0, e.1),
            None => prev,
        }
    }
}

/// Removes the entry of `k`, if there is one.
pub open spec fn remove_key<W>(m: Seq<(Seq<char>, W)>, k: Seq<char>) -> Seq<(Seq<char>, W)> {
    if has_key(m, k) {
        m.remove(choose|i: int| is_first_key(m, k, i))
    } else {
        m
    }
}

/// No key occurs twice.
pub open spec fn keys_distinct<W>(m: Seq<(Seq<char>, W)>) -> bool {
    forall|i: int, j: int| 0 <= i < j < m.len() ==> m[i].0 != m[j].0
}

proof fn lemma_first_key_exists<W>(m: Seq<(Seq<char>, W)>, k: Seq<char>)
    requires
        has_key(m, k),
    ensures
        exists|c: int| is_first_key(m, k, c),
    decreases m.len(),
{
    let p = m.drop_last();
    if has_key(p, k) {
        lemma_first_key_exists(p, k);
        let c = choose|c: int| is_first_key(p, k, c);
        assert(m[c] == p[c]);
        assert forall|j: int| 0 <= j < c implies m[j].0 != k by {
            assert(m[j] == p[j]);
        }
        assert(is_first_key(m, k, c));
    } else {
        let i = choose|i: int| 0 <= i < m.len() && m[i].0 == k;
        if i < m.len() - 1 {
            assert(p[i] == m[i]);
        }
        assert forall|j: int| 0 <= j < m.len() - 1 implies m[j].0 != k by {
            assert(p[j] == m[j]);
        }
        assert(is_first_key(m, k, m.len() - 1));
    }
}

/// Setting or removing a key keeps the keys distinct.
pub proof fn lemma_distinct_preserved<W>(m: Seq<(Seq<char>, W)>, k: Seq<char>, v: W)
    requires
        keys_distinct(m),
    ensures
        keys_distinct(upsert(m, k, v)),
        keys_distinct(remove_key(m, k)),
{
    if has_key(m, k) {
        lemma_first_key_exists(m, k);
        let c = choose|c: int| is_first_key(m, k, c);
        let u = upsert(m, k, v);
        assert forall|i: int, j: int| 0 <= i < j < u.len() implies u[i].0 != u[j].0 by {
            if i != c && j != c {
                assert(u[i] == m[i] && u[j] == m[j]);
            } else if i == c {
                assert(m[c].0 == k);
                assert(u[j] == m[j]);
            } else {
                assert(m[c].0 == k);
                assert(u[i] == m[i]);
            }
        }
        let r = remove_key(m, k);
        assert forall|i: int, j: int| 0 <= i < j < r.len() implies r[i].0 != r[j].0 by {
            let a = if i < c { i } else { i + 1 };
            let b = if j < c { j } else { j + 1 };
            assert(r[i] == m[a] && r[j] == m[b]);
        }
    } else {
        let u = upsert(m, k, v);
        assert forall|i: int, j: int| 0 <= i < j < u.len() implies u[i].0 != u[j].0 by {
            if j == m.len() {
                assert(u[i] == m[i]);
            } else {
                assert(u[i] == m[i] && u[j] == m[j]);
            }
        }
    }
}

/// A collected map never holds a key twice.
pub proof fn lemma_collect_distinct<W>(entries: Seq<Option<(Seq<char>, W)>>)
    ensures
        keys_distinct(collect(entries)),
    decreases entries.len(),
{
    if entries.len() > 0 {
        lemma_collect_distinct(entries.drop_last());
        if let Some(e) = entries.last() {
            lemma_distinct_preserved(collect(entries.drop_last()), e.0, e.1);
        }
    }
}

/// Sets the value of `k` in place, or appends a new entry.
pub fn upsert_exec<V: DeepView>(m: &mut Vec<(String, V)>, k: String, v: V)
    ensures
        entries_view(final(m)@) == upsert(entries_view(old(m)@), k@, v.deep_view()),
{
    let ghost mv = entries_view(m@);
    let mut i: usize = 0;
    while i < m.len()
        invariant
            mv == entries_view(m@),
            m@ == old(m)@,
            i <= m@.len(),
            forall|j: int| 0 <= j < i ==> mv[j].0 != k@,
        decreases m@.len() - i,
    {
        if m[i].0 == k {
            proof {
                assert(is_first_key(mv, k@, i as int));
                assert(has_key(mv, k@));
                let c = choose|c: int| is_first_key(mv, k@, c);
                assert(c == i) by {
                    if c < i {
                    } else if c > i {
                        assert(mv[i as int].0 == k@);
                    }
                }
            }
            let ghost kv = k@;
            let ghost vv = v.deep_view();
            let ghost before = m@;
            m.set(i, (k, v));
            proof {
                assert(m@ == before.update(i as int, (k, v)));
                assert(upsert(mv, kv, vv) == mv.update(i as int, (kv, vv)));
                assert(entries_view(m@) =~= mv.update(i as int, (kv, vv)));
                assert(mv == entries_view(old(m)@));
                assert(entries_view(m@) == upsert(entries_view(old(m)@), kv, vv));
            }
            return;
        }
        i += 1;
    }
    assert(!has_key(mv, k@));
    m.push((k, v));
    assert(entries_view(m@) =~= mv.push((k@, v.deep_view())));
}

/// Finds the first entry of `k`.
pub fn find_key<V: DeepView>(m: &Vec<(String, V)>, k: &String) -> (r: Option<usize>)
    ensures
        match r {
            Some(i) => is_first_key(entries_view(m@), k@, i as int),
            None => !has_key(entries_view(m@), k@),
        },
{
    let ghost mv = entries_view(m@);
    let mut i: usize = 0;
    while i < m.len()
        invariant
            mv == entries_view(m@),
            i <= m@.len(),
            forall|j: int| 0 <= j < i ==> mv[j].0 != k@,
        decreases m@.len() - i,
    {
        if m[i].0 == *k {
            return Some(i);
        }
        i += 1;
    }
    None
}

/// Removes the entry of `k`, if there is one.
pub fn remove_exec<V: DeepView>(m: &mut Vec<(String, V)>, k: &String)
    ensures
        entries_view(final(m)@) == remove_key(entries_view(old(m)@), k@),
{
    let ghost mv = entries_view(m@);
    match find_key(m, k) {
        Some(i) => {
            proof {
                let c = choose|c: int| is_first_key(mv, k@, c);
                assert(c == i) by {
                    if c < i {
                    } else if c > i {
                        assert(mv[i as int].0 == k@);
                    }
                }
            }
            m.remove(i);
            assert(entries_view(m@) =~= mv.remove(i as int));
        },
        None => {},
    }
}

} // verus!
