//! Search configuration and the generic value search.
//!
//! A search runs in stages. The caller performs the store reads that each
//! stage asks for and hands the answers back:
//! opening the seeds, enumerating the paths once per round of depth, and
//! reading the named value at each discovered path until one matches.
use vstd::prelude::*;
use vstd::string::*;
use crate::paths::{
    dedup, dedup_paths, expand_round, join, join_path, kept_seeds, openable_seeds, round, Listing,
};
use crate::pattern::{regex_compiles, regex_is_match, Pattern};
use crate::text::views;

verus! {

/// The ways a query can fail as a whole.
#[derive(Debug, Clone, Copy, PartialEq, Eq, Structural)]
pub enum RegistryError {
    /// The match expression does not compile.
    InvalidPattern,
    /// No record satisfied the filter after the whole search space was examined.
    NotFound,
    /// No key to remove was given, or none of them exists.
    InvalidInput,
}

/// Every key of `keys` under every path of `paths`, path by path.
pub open spec fn removal_paths(paths: Seq<Seq<char>>, keys: Seq<Seq<char>>) -> Seq<Seq<char>>
    decreases paths.len(),
{
    if paths.len() == 0 {
        Seq::empty()
    } else {
        removal_paths(paths.drop_last(), keys) + keys.map_values(|k: Seq<char>| join(paths.last(), k))
    }
}

/// A root of the store.
#[derive(Debug, Clone, Copy, PartialEq, Eq, Structural)]
pub enum RootKey {
    ClassesRoot,
    CurrentUser,
    LocalMachine,
    Users,
    CurrentConfig,
    /// A predefined root given by its raw handle value.
    Handle(isize),
}

/// Where a search starts: a root of the store and the seed paths under it.
pub struct Registry {
    registry_root: RootKey,
    registry_paths: Vec<String>,
}

impl Default for Registry {
    fn default() -> (r: Registry)
        ensures
            r.root() == RootKey::Handle(0),
            r.paths() == seq![Seq::<char>::empty()],
    {
        Registry::new()
    }
}

impl Registry {
    pub closed spec fn root(&self) -> RootKey {
        self.registry_root
    }

    pub closed spec fn paths(&self) -> Seq<Seq<char>> {
        views(self.registry_paths@)
    }

    /// Raw root handle 0 and a single empty seed path; a root and paths are
    /// expected to be set before a search.
    pub fn new() -> (r: Registry)
        ensures
            r.root() == RootKey::Handle(0),
            r.paths() == seq![Seq::<char>::empty()],
    {
        let mut registry_paths: Vec<String> = Vec::new();
        registry_paths.push(String::new());
        let r = Registry { registry_root: RootKey::Handle(0), registry_paths };
        assert(r.paths() =~= seq![Seq::<char>::empty()]);
        r
    }

    pub fn get_root(&self) -> (r: RootKey)
        ensures
            r == self.root(),
    {
        self.registry_root
    }

    pub fn get_paths(&self) -> (r: &Vec<String>)
        ensures
            views(r@) == self.paths(),
    {
        &self.registry_paths
    }

    pub fn set_root(&mut self, reg_root: isize) -> (r: &mut Self)
        ensures
            r.root() == RootKey::Handle(reg_root),
            r.paths() == old(self).paths(),
            *final(self) == *final(r),
    {
        self.registry_root = RootKey::Handle(reg_root);
        self
    }

    /// Searches under the local-machine root.
    pub fn set_root_hklm(&mut self) -> (r: &mut Self)
        ensures
            r.root() == RootKey::LocalMachine,
            r.paths() == old(self).paths(),
            *final(self) == *final(r),
    {
        self.registry_root = RootKey::LocalMachine;
        self
    }

    /// Searches under the classes root.
    pub fn set_root_hkcr(&mut self) -> (r: &mut Self)
        ensures
            r.root() == RootKey::ClassesRoot,
            r.paths() == old(self).paths(),
            *final(self) == *final(r),
    {
        self.registry_root = RootKey::ClassesRoot;
        self
    }

    /// Searches under the current-user root.
    pub fn set_root_hkcu(&mut self) -> (r: &mut Self)
        ensures
            r.root() == RootKey::CurrentUser,
            r.paths() == old(self).paths(),
            *final(self) == *final(r),
    {
        self.registry_root = RootKey::CurrentUser;
        self
    }

    /// Searches under the users root.
    pub fn set_hku(&mut self) -> (r: &mut Self)
        ensures
            r.root() == RootKey::Users,
            r.paths() == old(self).paths(),
            *final(self) == *final(r),
    {
        self.registry_root = RootKey::Users;
        self
    }

    /// Searches under the current-config root.
    pub fn set_hkcc(&mut self) -> (r: &mut Self)
        ensures
            r.root() == RootKey::CurrentConfig,
            r.paths() == old(self).paths(),
            *final(self) == *final(r),
    {
        self.registry_root = RootKey::CurrentConfig;
        self
    }

    /// The seed paths a search starts from.
    pub fn set_paths(&mut self, locations: Vec<String>) -> (r: &mut Self)
        ensures
            r.root() == old(self).root(),
            r.paths() == views(locations@),
            *final(self) == *final(r),
    {
        self.registry_paths = locations;
        self
    }

    /// The key paths to remove: each of `key_vec` under each seed path,
    /// without repeats. Fails when no key is given.
    pub fn remove_keys(&mut self, key_vec: Vec<String>) -> (r: Result<Vec<String>, RegistryError>)
        ensures
            *final(self) == *old(self),
            key_vec@.len() == 0 ==> r == Err::<Vec<String>, RegistryError>(
                RegistryError::InvalidInput,
            ),
            key_vec@.len() > 0 ==> (r matches Ok(v) && views(v@) == dedup(
                removal_paths(old(self).paths(), views(key_vec@)),
            )),
    {
        if key_vec.len() == 0 {
            return Err(RegistryError::InvalidInput);
        }
        let ghost keys = views(key_vec@);
        let mut all: Vec<String> = Vec::new();
        let mut i: usize = 0;
        while i < self.registry_paths.len()
            invariant
                i <= self.registry_paths@.len(),
                keys == views(key_vec@),
                views(all@) == removal_paths(views(self.registry_paths@).take(i as int), keys),
            decreases self.registry_paths@.len() - i,
        {
            let ghost ps = views(self.registry_paths@).take(i + 1);
            assert(ps.drop_last() =~= views(self.registry_paths@).take(i as int));
            let ghost start = views(all@);
            let mut j: usize = 0;
            while j < key_vec.len()
                invariant
                    i < self.registry_paths@.len(),
                    j <= key_vec@.len(),
                    keys == views(key_vec@),
                    views(all@) == start + keys.take(j as int).map_values(
                        |k: Seq<char>| join(self.registry_paths@[i as int]@, k),
                    ),
                decreases key_vec@.len() - j,
            {
                let ghost before = views(all@);
                all.push(join_path(self.registry_paths[i].as_str(), key_vec[j].as_str()));
                assert(views(all@) =~= before.push(join(self.registry_paths@[i as int]@, keys[j as int])));
                assert(keys.take(j + 1).map_values(|k: Seq<char>| join(self.registry_paths@[i as int]@, k))
                    =~= keys.take(j as int).map_values(|k: Seq<char>| join(self.registry_paths@[i as int]@, k)).push(
                    join(self.registry_paths@[i as int]@, keys[j as int])));
                j += 1;
            }
            assert(keys.take(j as int) =~= keys);
            assert(ps.last() == self.registry_paths@[i as int]@);
            i += 1;
        }
        assert(views(self.registry_paths@).take(i as int) =~= views(self.registry_paths@));
        Ok(dedup_paths(&all))
    }

    /// The key paths that can be removed: those of `candidates` that could be
    /// opened (`opened[i]` for the `i`-th). Fails when there is none.
    pub fn removable_keys(candidates: &Vec<String>, opened: &Vec<bool>) -> (r: Result<
        Vec<String>,
        RegistryError,
    >)
        requires
            candidates@.len() == opened@.len(),
        ensures
            kept_seeds(views(candidates@), opened@).len() == 0 ==> r == Err::<
                Vec<String>,
                RegistryError,
            >(RegistryError::InvalidInput),
            kept_seeds(views(candidates@), opened@).len() > 0 ==> (r matches Ok(v) && views(v@)
                == kept_seeds(views(candidates@), opened@)),
    {
        let v = openable_seeds(candidates, opened);
        if v.len() == 0 {
            Err(RegistryError::InvalidInput)
        } else {
            Ok(v)
        }
    }

    /// Starts a search for a value named `registry_name` whose text matches
    /// `registry_data_regex`, expanding the seed paths `depth` times (none when
    /// `depth` is not positive). An invalid expression fails at once, before
    /// the store is asked anything.
    pub fn registry_search(&self, registry_name: &str, registry_data_regex: &str, depth: i32) -> (r:
        Result<Search, RegistryError>)
        ensures
            r matches Err(e) ==> e == RegistryError::InvalidPattern,
            r is Err <==> !regex_compiles(registry_data_regex@),
            r matches Ok(s) ==> {
                &&& s.wf()
                &&& s.stage() == Stage::Seeding
                &&& s.seeds() == self.paths()
                &&& s.value_name() == registry_name@
                &&& s.pattern() == registry_data_regex@
                &&& s.rounds_left() == if depth > 0 { depth as int } else { 0 }
            },
    {
        let pattern = match Pattern::new(registry_data_regex) {
            Some(p) => p,
            None => return Err(RegistryError::InvalidPattern),
        };
        let rounds: u32 = if depth > 0 { depth as u32 } else { 0 };
        let mut seeds: Vec<String> = Vec::new();
        let mut i: usize = 0;
        while i < self.registry_paths.len()
            invariant
                i <= self.registry_paths@.len(),
                views(seeds@) == views(self.registry_paths@).take(i as int),
            decreases self.registry_paths@.len() - i,
        {
            let ghost before = views(seeds@);
            seeds.push(self.registry_paths[i].clone());
            assert(views(seeds@) =~= before.push(self.registry_paths@[i as int]@));
            assert(views(seeds@) =~= views(self.registry_paths@).take(i + 1));
            i += 1;
        }
        assert(views(self.registry_paths@).take(i as int) =~= views(self.registry_paths@));
        let s = Search {
            pattern,
            value_name: String::from_str(registry_name),
            seeds,
            paths: Vec::new(),
            rounds_left: rounds,
            next: 0,
            stage: Stage::Seeding,
            offered: Ghost(Seq::empty()),
        };
        Ok(s)
    }
}

/// The stage a search is in.
#[derive(Debug, Clone, Copy, PartialEq, Eq, Structural)]
pub enum Stage {
    /// Waiting to hear which seeds can be opened.
    Seeding,
    /// Waiting for the listings of the current paths, once per remaining round.
    Expanding,
    /// Waiting for the named value at one candidate path after another.
    Reading,
    /// A value matched.
    Found,
}

/// The first value, in order, that is present and matches `pattern`.
pub open spec fn first_matching(pattern: Seq<char>, values: Seq<Option<Seq<char>>>) -> Option<
    Seq<char>,
>
    decreases values.len(),
{
    if values.len() == 0 {
        None
    } else {
        match values[0] {
            Some(v) => if regex_is_match(pattern, v) {
                Some(v)
            } else {
                first_matching(pattern, values.drop_first())
            },
            None => first_matching(pattern, values.drop_first()),
        }
    }
}

pub open spec fn value_matches(pattern: Seq<char>, v: Option<Seq<char>>) -> bool {
    v matches Some(t) && regex_is_match(pattern, t)
}

pub open spec fn opt_view(v: Option<String>) -> Option<Seq<char>> {
    match v {
        Some(s) => Some(s@),
        None => None,
    }
}

proof fn lemma_first_matching_push(pattern: Seq<char>, values: Seq<Option<Seq<char>>>, v: Option<Seq<char>>)
    requires
        forall|i: int| 0 <= i < values.len() ==> !value_matches(pattern, #[trigger] values[i]),
    ensures
        first_matching(pattern, values.push(v)) == if value_matches(pattern, v) {
            v
        } else {
            None
        },
        first_matching(pattern, values) is None,
    decreases values.len(),
{
    if values.len() > 0 {
        assert(values.push(v).drop_first() =~= values.drop_first().push(v));
        assert(values.push(v)[0] == values[0]);
        assert(!value_matches(pattern, values[0]));
        assert forall|i: int| 0 <= i < values.drop_first().len() implies !value_matches(
            pattern,
            #[trigger] values.drop_first()[i],
        ) by {
            assert(values.drop_first()[i] == values[i + 1]);
        }
        lemma_first_matching_push(pattern, values.drop_first(), v);
    } else {
        assert(values.push(v).drop_first() =~= Seq::<Option<Seq<char>>>::empty());
        assert(values.push(v)[0] == v);
        assert(first_matching(pattern, Seq::<Option<Seq<char>>>::empty()) is None);
    }
}

/// A search in progress.
pub struct Search {
    pattern: Pattern,
    value_name: String,
    seeds: Vec<String>,
    paths: Vec<String>,
    rounds_left: u32,
    next: usize,
    stage: Stage,
    /// The values handed back so far while reading, in order.
    offered: Ghost<Seq<Option<Seq<char>>>>,
}

impl Search {
    pub closed spec fn stage(&self) -> Stage {
        self.stage
    }

    pub closed spec fn pattern(&self) -> Seq<char> {
        self.pattern.source()
    }

    pub closed spec fn value_name(&self) -> Seq<char> {
        self.value_name@
    }

    pub closed spec fn seeds(&self) -> Seq<Seq<char>> {
        views(self.seeds@)
    }

    /// The paths found so far; while reading, the candidates in discovery order.
    pub closed spec fn found_paths(&self) -> Seq<Seq<char>> {
        views(self.paths@)
    }

    pub closed spec fn rounds_left(&self) -> int {
        self.rounds_left as int
    }

    /// How many candidates have been read.
    pub closed spec fn position(&self) -> int {
        self.next as int
    }

    /// The values read so far, in order.
    pub closed spec fn offered(&self) -> Seq<Option<Seq<char>>> {
        self.offered@
    }

    pub closed spec fn wf(&self) -> bool {
        &&& self.next <= self.paths@.len()
        &&& self.offered@.len() == self.next
        &&& self.stage == Stage::Reading ==> forall|i: int|
            0 <= i < self.offered@.len() ==> !value_matches(
                self.pattern.source(),
                #[trigger] self.offered@[i],
            )
        &&& self.stage != Stage::Reading && self.stage != Stage::Found ==> self.next == 0
    }

    pub fn get_stage(&self) -> (r: Stage)
        ensures
            r == self.stage(),
    {
        self.stage
    }

    pub fn get_rounds_left(&self) -> (r: u32)
        ensures
            r == self.rounds_left(),
    {
        self.rounds_left
    }

    /// The name of the value to read at each candidate path.
    pub fn get_value_name(&self) -> (r: &String)
        ensures
            r@ == self.value_name(),
    {
        &self.value_name
    }

    /// The seed paths to try to open.
    pub fn get_seeds(&self) -> (r: &Vec<String>)
        ensures
            views(r@) == self.seeds(),
    {
        &self.seeds
    }

    /// The paths found so far: while expanding, the ones to enumerate next.
    pub fn get_paths(&self) -> (r: &Vec<String>)
        ensures
            views(r@) == self.found_paths(),
    {
        &self.paths
    }

    /// Takes which seeds could be opened (`opened[i]` for the `i`-th seed);
    /// the ones that could not are dropped.
    pub fn accept_seeds(&mut self, opened: &Vec<bool>)
        requires
            old(self).wf(),
            old(self).stage() == Stage::Seeding,
            opened@.len() == old(self).seeds().len(),
        ensures
            final(self).wf(),
            final(self).stage() == Stage::Expanding,
            final(self).found_paths() == kept_seeds(old(self).seeds(), opened@),
            final(self).rounds_left() == old(self).rounds_left(),
            final(self).pattern() == old(self).pattern(),
            final(self).value_name() == old(self).value_name(),
            final(self).seeds() == old(self).seeds(),
    {
        self.paths = openable_seeds(&self.seeds, opened);
        self.stage = Stage::Expanding;
    }

    /// Takes one round of listings (`listings[i]` for the `i`-th current path)
    /// and appends the children found.
    pub fn accept_round(&mut self, listings: &Vec<Listing>)
        requires
            old(self).wf(),
            old(self).stage() == Stage::Expanding,
            old(self).rounds_left() > 0,
            listings@.len() == old(self).found_paths().len(),
        ensures
            final(self).wf(),
            final(self).stage() == Stage::Expanding,
            final(self).found_paths() == round(old(self).found_paths(), listings@),
            final(self).rounds_left() == old(self).rounds_left() - 1,
            final(self).pattern() == old(self).pattern(),
            final(self).value_name() == old(self).value_name(),
            final(self).seeds() == old(self).seeds(),
    {
        self.paths = expand_round(&self.paths, listings);
        self.rounds_left = self.rounds_left - 1;
    }

    /// Ends the discovery: repeated paths are removed and reading begins.
    pub fn finish_discovery(&mut self)
        requires
            old(self).wf(),
            old(self).stage() == Stage::Expanding,
            old(self).rounds_left() == 0,
        ensures
            final(self).wf(),
            final(self).stage() == Stage::Reading,
            final(self).found_paths() == dedup(old(self).found_paths()),
            final(self).position() == 0,
            final(self).offered() == Seq::<Option<Seq<char>>>::empty(),
            final(self).pattern() == old(self).pattern(),
            final(self).value_name() == old(self).value_name(),
            final(self).seeds() == old(self).seeds(),
    {
        self.paths = dedup_paths(&self.paths);
        self.next = 0;
        self.offered = Ghost(Seq::empty());
        self.stage = Stage::Reading;
    }

    /// The candidate path whose value is to be read next; `None` once every
    /// candidate has been read without a match, or once a value has matched.
    pub fn next_path(&self) -> (r: Option<&String>)
        requires
            self.wf(),
        ensures
            r matches Some(p) ==> self.stage() == Stage::Reading && self.position()
                < self.found_paths().len() && p@ == self.found_paths()[self.position()],
            r is None ==> self.stage() != Stage::Reading || self.position()
                == self.found_paths().len(),
    {
        if self.stage == Stage::Reading && self.next < self.paths.len() {
            Some(&self.paths[self.next])
        } else {
            None
        }
    }

    /// Takes the value read at the current candidate path (`None` when the path
    /// could not be opened or holds no such string value). Returns it when it
    /// matches, which ends the search; otherwise moves to the next candidate.
    pub fn offer(&mut self, value: Option<String>) -> (r: Option<String>)
        requires
            old(self).wf(),
            old(self).stage() == Stage::Reading,
            old(self).position() < old(self).found_paths().len(),
        ensures
            final(self).wf(),
            final(self).offered() == old(self).offered().push(opt_view(value)),
            opt_view(r) == first_matching(old(self).pattern(), final(self).offered()),
            r is Some <==> value_matches(old(self).pattern(), opt_view(value)),
            r is Some ==> r == value && final(self).stage() == Stage::Found,
            r is None ==> final(self).stage() == Stage::Reading && final(self).position()
                == old(self).position() + 1,
            final(self).found_paths() == old(self).found_paths(),
            final(self).pattern() == old(self).pattern(),
            final(self).value_name() == old(self).value_name(),
    {
        proof {
            lemma_first_matching_push(self.pattern.source(), self.offered@, opt_view(value));
        }
        let ghost prev = self.offered@;
        assert(views(self.paths@).len() == self.paths@.len());
        let n = self.paths.len();
        assert(self.next < n);
        self.offered = Ghost(self.offered@.push(opt_view(value)));
        self.next = self.next + 1;
        let hit = match &value {
            Some(v) => self.pattern.is_match(v.as_str()),
            None => false,
        };
        if hit {
            self.stage = Stage::Found;
            value
        } else {
            assert forall|i: int| 0 <= i < self.offered@.len() implies !value_matches(
                self.pattern.source(),
                #[trigger] self.offered@[i],
            ) by {
                if i < prev.len() {
                    assert(self.offered@[i] == prev[i]);
                }
            }
            None
        }
    }
}

} // verus!
