//! Discovery of the key paths reachable from seed paths within a depth bound.
//!
//! Reading the store is left to the caller: each step here takes what the store
//! answered and returns the paths to look at next.
use vstd::prelude::*;
use vstd::string::*;
use crate::text::{push_char, views};

verus! {

/// What enumerating one key gave: `None` when the key could not be opened,
/// else one entry per child, `None` for a child whose name could not be read.
pub type Listing = Option<Vec<Option<String>>>;

pub open spec fn join(parent: Seq<char>, child: Seq<char>) -> Seq<char> {
    parent + seq!['\\'] + child
}

/// The seeds that could be opened, in order.
pub open spec fn kept_seeds(seeds: Seq<Seq<char>>, opened: Seq<bool>) -> Seq<Seq<char>>
    decreases seeds.len(),
{
    if seeds.len() == 0 {
        Seq::empty()
    } else {
        let prev = kept_seeds(seeds.drop_last(), opened);
        if opened[seeds.len() - 1] {
            prev.push(seeds.last())
        } else {
            prev
        }
    }
}

/// The paths of the children of `parent` whose names could be read, in order.
pub open spec fn child_paths(parent: Seq<char>, kids: Seq<Option<String>>) -> Seq<Seq<char>>
    decreases kids.len(),
{
    if kids.len() == 0 {
        Seq::empty()
    } else {
        let prev = child_paths(parent, kids.drop_last());
        match kids.last() {
            Some(k) => prev.push(join(parent, k@)),
            None => prev,
        }
    }
}

pub open spec fn listed_paths(parent: Seq<char>, l: Listing) -> Seq<Seq<char>> {
    match l {
        Some(kids) => child_paths(parent, kids@),
        None => Seq::empty(),
    }
}

/// The paths one round of expansion adds: the children of every path, in order.
pub open spec fn additions(paths: Seq<Seq<char>>, listings: Seq<Listing>) -> Seq<Seq<char>>
    decreases paths.len(),
{
    if paths.len() == 0 {
        Seq::empty()
    } else {
        additions(paths.drop_last(), listings) + listed_paths(
            paths.last(),
            listings[paths.len() - 1],
        )
    }
}

/// One round: every path so far is kept, and the children of each are appended.
pub open spec fn round(paths: Seq<Seq<char>>, listings: Seq<Listing>) -> Seq<Seq<char>> {
    paths + additions(paths, listings)
}

/// The paths after the given rounds of expansion, one listing sequence per round.
pub open spec fn explore(paths: Seq<Seq<char>>, rounds: Seq<Seq<Listing>>) -> Seq<Seq<char>>
    decreases rounds.len(),
{
    if rounds.len() == 0 {
        paths
    } else {
        explore(round(paths, rounds[0]), rounds.drop_first())
    }
}

/// `s` without repeats, each path at its first occurrence.
pub open spec fn dedup(s: Seq<Seq<char>>) -> Seq<Seq<char>>
    decreases s.len(),
{
    if s.len() == 0 {
        Seq::empty()
    } else {
        let prev = dedup(s.drop_last());
        if prev.contains(s.last()) {
            prev
        } else {
            prev.push(s.last())
        }
    }
}

/// The result of a discovery: the openable seeds, expanded round by round, without repeats.
pub open spec fn discovered(
    seeds: Seq<Seq<char>>,
    opened: Seq<bool>,
    rounds: Seq<Seq<Listing>>,
) -> Seq<Seq<char>> {
    dedup(explore(kept_seeds(seeds, opened), rounds))
}

/// A listing that yields no child path.
pub open spec fn childless(l: Listing) -> bool {
    l matches Some(kids) ==> forall|i: int| 0 <= i < kids@.len() ==> kids@[i] is None
}

/// `parent`, a separator, and `child`.
pub fn join_path(parent: &str, child: &str) -> (r: String)
    ensures
        r@ == join(parent@, child@),
{
    let mut r = String::from_str(parent);
    push_char(&mut r, '\\');
    r.append(child);
    r
}

/// The seeds that could be opened, in order; `opened[i]` says whether `seeds[i]` opened.
pub fn openable_seeds(seeds: &Vec<String>, opened: &Vec<bool>) -> (r: Vec<String>)
    requires
        seeds@.len() == opened@.len(),
    ensures
        views(r@) == kept_seeds(views(seeds@), opened@),
{
    let mut r: Vec<String> = Vec::new();
    let mut i: usize = 0;
    while i < seeds.len()
        invariant
            i <= seeds@.len(),
            seeds@.len() == opened@.len(),
            views(r@) == kept_seeds(views(seeds@).take(i as int), opened@),
        decreases seeds@.len() - i,
    {
        assert(views(seeds@).take(i + 1).drop_last() =~= views(seeds@).take(i as int));
        if opened[i] {
            let ghost before = views(r@);
            r.push(seeds[i].clone());
            assert(views(r@) =~= before.push(seeds@[i as int]@));
        }
        i += 1;
    }
    assert(views(seeds@).take(i as int) =~= views(seeds@));
    r
}

fn push_children(out: &mut Vec<String>, parent: &String, kids: &Vec<Option<String>>)
    ensures
        views(final(out)@) == views(old(out)@) + child_paths(parent@, kids@),
{
    let ghost start = views(out@);
    let mut i: usize = 0;
    while i < kids.len()
        invariant
            i <= kids@.len(),
            views(out@) == start + child_paths(parent@, kids@.take(i as int)),
        decreases kids@.len() - i,
    {
        assert(kids@.take(i + 1).drop_last() =~= kids@.take(i as int));
        if let Some(k) = &kids[i] {
            let ghost before = views(out@);
            out.push(join_path(parent.as_str(), k.as_str()));
            assert(views(out@) =~= before.push(join(parent@, k@)));
        }
        i += 1;
    }
    assert(kids@.take(i as int) =~= kids@);
}

/// One round of expansion: `listings[i]` is what enumerating `paths[i]` gave.
/// Every path is kept and the children that could be read are appended.
pub fn expand_round(paths: &Vec<String>, listings: &Vec<Listing>) -> (r: Vec<String>)
    requires
        paths@.len() == listings@.len(),
    ensures
        views(r@) == round(views(paths@), listings@),
{
    let mut r: Vec<String> = Vec::new();
    let mut i: usize = 0;
    while i < paths.len()
        invariant
            i <= paths@.len(),
            views(r@) == views(paths@).take(i as int),
        decreases paths@.len() - i,
    {
        let ghost before = views(r@);
        r.push(paths[i].clone());
        assert(views(r@) =~= before.push(paths@[i as int]@));
        assert(views(r@) =~= views(paths@).take(i + 1));
        i += 1;
    }
    assert(views(paths@).take(i as int) =~= views(paths@));
    let mut j: usize = 0;
    while j < paths.len()
        invariant
            j <= paths@.len(),
            paths@.len() == listings@.len(),
            views(r@) == views(paths@) + additions(views(paths@).take(j as int), listings@),
        decreases paths@.len() - j,
    {
        assert(views(paths@).take(j + 1).drop_last() =~= views(paths@).take(j as int));
        let ghost before = views(r@);
        match &listings[j] {
            Some(kids) => {
                push_children(&mut r, &paths[j], kids);
            },
            None => {},
        }
        assert(views(r@) =~= before + listed_paths(paths@[j as int]@, listings@[j as int]));
        j += 1;
    }
    assert(views(paths@).take(j as int) =~= views(paths@));
    r
}

fn contains_path(v: &Vec<String>, p: &String) -> (r: bool)
    ensures
        r == views(v@).contains(p@),
{
    let mut i: usize = 0;
    while i < v.len()
        invariant
            i <= v@.len(),
            forall|j: int| 0 <= j < i ==> v@[j]@ != p@,
        decreases v@.len() - i,
    {
        if v[i] == *p {
            assert(views(v@)[i as int] == p@);
            return true;
        }
        i += 1;
    }
    false
}

/// `paths` without repeats (equal text), each at its first occurrence.
pub fn dedup_paths(paths: &Vec<String>) -> (r: Vec<String>)
    ensures
        views(r@) == dedup(views(paths@)),
{
    let mut r: Vec<String> = Vec::new();
    let mut i: usize = 0;
    while i < paths.len()
        invariant
            i <= paths@.len(),
            views(r@) == dedup(views(paths@).take(i as int)),
        decreases paths@.len() - i,
    {
        assert(views(paths@).take(i + 1).drop_last() =~= views(paths@).take(i as int));
        if !contains_path(&r, &paths[i]) {
            let ghost before = views(r@);
            r.push(paths[i].clone());
            assert(views(r@) =~= before.push(paths@[i as int]@));
        }
        i += 1;
    }
    assert(views(paths@).take(i as int) =~= views(paths@));
    r
}

proof fn lemma_kept_all(seeds: Seq<Seq<char>>, opened: Seq<bool>)
    requires
        forall|i: int| 0 <= i < seeds.len() ==> #[trigger] opened[i],
    ensures
        kept_seeds(seeds, opened) == seeds,
    decreases seeds.len(),
{
    if seeds.len() > 0 {
        lemma_kept_all(seeds.drop_last(), opened);
        assert(seeds.drop_last().push(seeds.last()) =~= seeds);
    }
}

proof fn lemma_kept_none(seeds: Seq<Seq<char>>, opened: Seq<bool>)
    requires
        forall|i: int| 0 <= i < seeds.len() ==> !#[trigger] opened[i],
    ensures
        kept_seeds(seeds, opened).len() == 0,
    decreases seeds.len(),
{
    if seeds.len() > 0 {
        lemma_kept_none(seeds.drop_last(), opened);
    }
}

proof fn lemma_child_paths_empty(parent: Seq<char>, kids: Seq<Option<String>>)
    requires
        forall|i: int| 0 <= i < kids.len() ==> kids[i] is None,
    ensures
        child_paths(parent, kids).len() == 0,
    decreases kids.len(),
{
    if kids.len() > 0 {
        lemma_child_paths_empty(parent, kids.drop_last());
    }
}

proof fn lemma_additions_empty(paths: Seq<Seq<char>>, listings: Seq<Listing>)
    requires
        forall|i: int| 0 <= i < listings.len() ==> childless(#[trigger] listings[i]),
        paths.len() <= listings.len(),
    ensures
        additions(paths, listings).len() == 0,
    decreases paths.len(),
{
    if paths.len() > 0 {
        lemma_additions_empty(paths.drop_last(), listings);
        let l = listings[paths.len() - 1];
        assert(childless(l));
        if let Some(kids) = l {
            lemma_child_paths_empty(paths.last(), kids@);
        }
    }
}

proof fn lemma_explore_childless(paths: Seq<Seq<char>>, rounds: Seq<Seq<Listing>>)
    requires
        forall|r: int, i: int|
            0 <= r < rounds.len() && 0 <= i < rounds[r].len() ==> childless(#[trigger] rounds[r][i]),
        forall|r: int| 0 <= r < rounds.len() ==> #[trigger] rounds[r].len() == paths.len(),
    ensures
        explore(paths, rounds) == paths,
    decreases rounds.len(),
{
    if rounds.len() > 0 {
        assert(childless(rounds[0][0]) || rounds[0].len() == 0);
        assert forall|i: int| 0 <= i < rounds[0].len() implies childless(#[trigger] rounds[0][i]) by {
            assert(childless(rounds[0][i]));
        }
        lemma_additions_empty(paths, rounds[0]);
        assert(round(paths, rounds[0]) =~= paths);
        let rest = rounds.drop_first();
        assert forall|r: int, i: int| 0 <= r < rest.len() && 0 <= i < rest[r].len() implies childless(
            #[trigger] rest[r][i],
        ) by {
            assert(rest[r] == rounds[r + 1]);
        }
        assert forall|r: int| 0 <= r < rest.len() implies #[trigger] rest[r].len() == paths.len() by {
            assert(rest[r] == rounds[r + 1]);
        }
        lemma_explore_childless(paths, rest);
    }
}

/// When every seed opens and no key has children, discovery yields the seeds
/// without repeats, whatever the number of rounds.
pub proof fn law_childless_seeds(seeds: Seq<Seq<char>>, opened: Seq<bool>, rounds: Seq<Seq<Listing>>)
    requires
        opened.len() == seeds.len(),
        forall|i: int| 0 <= i < seeds.len() ==> #[trigger] opened[i],
        forall|r: int| 0 <= r < rounds.len() ==> #[trigger] rounds[r].len() == seeds.len(),
        forall|r: int, i: int|
            0 <= r < rounds.len() && 0 <= i < rounds[r].len() ==> childless(#[trigger] rounds[r][i]),
    ensures
        discovered(seeds, opened, rounds) == dedup(seeds),
{
    lemma_kept_all(seeds, opened);
    lemma_explore_childless(seeds, rounds);
}

proof fn lemma_explore_nothing(rounds: Seq<Seq<Listing>>)
    ensures
        explore(Seq::empty(), rounds).len() == 0,
    decreases rounds.len(),
{
    if rounds.len() > 0 {
        assert(round(Seq::empty(), rounds[0]) =~= Seq::<Seq<char>>::empty());
        lemma_explore_nothing(rounds.drop_first());
    }
}

/// When no seed can be opened, discovery yields no path, whatever the number of rounds.
pub proof fn law_no_seed_opens(seeds: Seq<Seq<char>>, opened: Seq<bool>, rounds: Seq<Seq<Listing>>)
    requires
        opened.len() == seeds.len(),
        forall|i: int| 0 <= i < seeds.len() ==> !#[trigger] opened[i],
    ensures
        discovered(seeds, opened, rounds).len() == 0,
{
    lemma_kept_none(seeds, opened);
    assert(kept_seeds(seeds, opened) =~= Seq::<Seq<char>>::empty());
    lemma_explore_nothing(rounds);
    assert(explore(kept_seeds(seeds, opened), rounds) =~= Seq::<Seq<char>>::empty());
}

/// Removing repeats keeps exactly the paths of `s`, each once.
pub proof fn law_dedup(s: Seq<Seq<char>>)
    ensures
        dedup(s).no_duplicates(),
        forall|p: Seq<char>| dedup(s).contains(p) <==> s.contains(p),
    decreases s.len(),
{
    if s.len() > 0 {
        let prev = s.drop_last();
        law_dedup(prev);
        let d = dedup(prev);
        let x = s.last();
        assert forall|q: Seq<Seq<char>>, y: Seq<char>, p: Seq<char>| #[trigger] q.push(y).contains(p)
            <==> (q.contains(p) || p == y) by {
            if q.push(y).contains(p) {
                let i = choose|i: int| 0 <= i < q.push(y).len() && q.push(y)[i] == p;
                if i < q.len() {
                    assert(q[i] == p);
                }
            }
            if q.contains(p) {
                let i = choose|i: int| 0 <= i < q.len() && q[i] == p;
                assert(q.push(y)[i] == p);
            }
            if p == y {
                assert(q.push(y)[q.len() as int] == p);
            }
        }
        assert(s =~= prev.push(x));
    }
}

/// A path reached twice, from two seeds or along two branches, appears once.
pub proof fn law_repeats_removed(s: Seq<Seq<char>>, p: Seq<char>, i: int, j: int)
    requires
        0 <= i < j < s.len(),
        s[i] == p,
        s[j] == p,
    ensures
        dedup(s).contains(p),
        forall|a: int, b: int|
            0 <= a < b < dedup(s).len() && dedup(s)[a] == p ==> dedup(s)[b] != p,
{
    law_dedup(s);
    assert(s.contains(p));
}

} // verus!
