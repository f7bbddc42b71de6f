use hostkit::paths::{dedup_paths, expand_round, join_path, openable_seeds, Listing};
use hostkit::registry::{Registry, RegistryError, Stage};
use std::collections::HashMap;

/// A small in-memory store: path -> (child names, values).
struct Store {
    keys: HashMap<String, (Vec<String>, Vec<(String, String)>)>,
}

impl Store {
    fn new(entries: &[(&str, &[&str], &[(&str, &str)])]) -> Store {
        let mut keys = HashMap::new();
        for (path, kids, values) in entries {
            keys.insert(
                path.to_string(),
                (
                    kids.iter().map(|k| k.to_string()).collect(),
                    values.iter().map(|(n, v)| (n.to_string(), v.to_string())).collect(),
                ),
            );
        }
        Store { keys }
    }

    fn listing(&self, path: &str) -> Listing {
        self.keys.get(path).map(|(kids, _)| kids.iter().map(|k| Some(k.clone())).collect())
    }

    fn value(&self, path: &str, name: &str) -> Option<String> {
        let (_, values) = self.keys.get(path)?;
        values.iter().find(|(n, _)| n == name).map(|(_, v)| v.clone())
    }
}

fn discover(store: &Store, seeds: Vec<String>, depth: i32) -> Vec<String> {
    let mut reg = Registry::new();
    reg.set_root_hklm().set_paths(seeds);
    let mut s = reg.registry_search("V", ".*", depth).unwrap();
    let opened: Vec<bool> = s.get_seeds().iter().map(|p| store.keys.contains_key(p)).collect();
    s.accept_seeds(&opened);
    while s.get_rounds_left() > 0 {
        let listings: Vec<Listing> = s.get_paths().iter().map(|p| store.listing(p)).collect();
        s.accept_round(&listings);
    }
    s.finish_discovery();
    s.get_paths().clone()
}

fn search(store: &Store, seeds: &[&str], name: &str, pattern: &str, depth: i32) -> Result<String, RegistryError> {
    let mut reg = Registry::new();
    reg.set_paths(seeds.iter().map(|s| s.to_string()).collect());
    let mut s = reg.registry_search(name, pattern, depth)?;
    let opened: Vec<bool> = s.get_seeds().iter().map(|p| store.keys.contains_key(p)).collect();
    s.accept_seeds(&opened);
    while s.get_rounds_left() > 0 {
        let listings: Vec<Listing> = s.get_paths().iter().map(|p| store.listing(p)).collect();
        s.accept_round(&listings);
    }
    s.finish_discovery();
    while let Some(path) = s.next_path().cloned() {
        let v = store.value(&path, s.get_value_name());
        if let Some(found) = s.offer(v) {
            return Ok(found);
        }
    }
    Err(RegistryError::NotFound)
}

fn strings(v: &[&str]) -> Vec<String> {
    v.iter().map(|s| s.to_string()).collect()
}

#[test]
fn childless_seeds_any_depth() {
    let store = Store::new(&[("A", &[], &[]), ("B", &[], &[])]);
    for depth in 0..4 {
        assert_eq!(discover(&store, strings(&["A", "B", "A"]), depth), strings(&["A", "B"]));
    }
}

#[test]
fn no_seed_opens() {
    let store = Store::new(&[]);
    assert!(discover(&store, strings(&["X", "Y"]), 0).is_empty());
    assert!(discover(&store, strings(&["X", "Y"]), 3).is_empty());
    assert!(discover(&store, Vec::new(), 2).is_empty());
}

#[test]
fn unopenable_seed_dropped() {
    let store = Store::new(&[("A", &["c"], &[]), ("A\\c", &[], &[])]);
    assert_eq!(discover(&store, strings(&["gone", "A"]), 1), strings(&["A", "A\\c"]));
}

#[test]
fn same_path_from_two_seeds_once() {
    let store = Store::new(&[("P", &["k"], &[]), ("P\\k", &[], &[])]);
    assert_eq!(discover(&store, strings(&["P", "P"]), 1), strings(&["P", "P\\k"]));
}

#[test]
fn rounds_rescan_earlier_paths() {
    let store = Store::new(&[
        ("R", &["a"], &[]),
        ("R\\a", &["b"], &[]),
        ("R\\a\\b", &[], &[]),
    ]);
    assert_eq!(discover(&store, strings(&["R"]), 2), strings(&["R", "R\\a", "R\\a\\b"]));
    assert_eq!(discover(&store, strings(&["R"]), -1), strings(&["R"]));
}

#[test]
fn expand_round_skips_failed_children() {
    let paths = strings(&["A", "B"]);
    let listings: Vec<Listing> = vec![Some(vec![Some("x".to_string()), None, Some("y".to_string())]), None];
    assert_eq!(expand_round(&paths, &listings), strings(&["A", "B", "A\\x", "A\\y"]));
}

#[test]
fn seeds_and_dedup_helpers() {
    assert_eq!(openable_seeds(&strings(&["a", "b", "c"]), &vec![true, false, true]), strings(&["a", "c"]));
    assert_eq!(dedup_paths(&strings(&["b", "a", "b", "a", "c"])), strings(&["b", "a", "c"]));
    assert_eq!(join_path("SOFTWARE", "Key"), "SOFTWARE\\Key");
}

#[test]
fn invalid_pattern_before_store() {
    let reg = Registry::new();
    assert!(matches!(reg.registry_search("V", "(", 0), Err(RegistryError::InvalidPattern)));
    let mut empty = Registry::new();
    empty.set_paths(Vec::new());
    assert!(matches!(empty.registry_search("V", "[a-", 5), Err(RegistryError::InvalidPattern)));
}

#[test]
fn first_match_in_discovery_order() {
    let store = Store::new(&[
        ("Z", &["long"], &[("Name", "zeta-tool")]),
        ("Z\\long", &[], &[("Name", "alpha-tool")]),
        ("A", &[], &[("Name", "a-tool")]),
    ]);
    assert_eq!(search(&store, &["Z", "A"], "Name", "tool$", 1), Ok("zeta-tool".to_string()));
    assert_eq!(search(&store, &["Z", "A"], "Name", "^a", 1), Ok("a-tool".to_string()));
    assert_eq!(search(&store, &["Z"], "Name", "^a", 1), Ok("alpha-tool".to_string()));
    assert_eq!(search(&store, &["Z"], "Name", "^a", 0), Err(RegistryError::NotFound));
}

#[test]
fn search_skips_missing_values_and_reports_not_found() {
    let store = Store::new(&[("A", &[], &[("Other", "x")]), ("B", &[], &[("Name", "bee")])]);
    assert_eq!(search(&store, &["gone", "A", "B"], "Name", "e+", 0), Ok("bee".to_string()));
    assert_eq!(search(&store, &["A", "B"], "Name", "^zzz", 0), Err(RegistryError::NotFound));
}

#[test]
fn offer_ends_search() {
    let store = Store::new(&[("A", &[], &[("N", "v")])]);
    let mut reg = Registry::new();
    reg.set_paths(strings(&["A"]));
    let mut s = reg.registry_search("N", "v", 0).unwrap();
    assert_eq!(s.get_stage(), Stage::Seeding);
    s.accept_seeds(&vec![true]);
    s.finish_discovery();
    assert_eq!(s.offer(store.value("A", "N")), Some("v".to_string()));
    assert_eq!(s.get_stage(), Stage::Found);
    assert!(s.next_path().is_none());
}
