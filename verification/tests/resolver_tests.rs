use debcrafter::package::{Package, PackageSpec, PackageTable};
use debcrafter::resolver::{resolve_all, ResolveError};
use debcrafter::types::VPackageName;

fn pkg(name: &str, fragments: &[&str]) -> Package {
    Package {
        name: VPackageName::plain(String::from(name)),
        fragments: fragments.iter().map(|f| String::from(*f)).collect(),
        summary: Some(String::from("summary")),
        depends: Vec::new(),
        spec: PackageSpec::Base,
    }
}

fn universe_of(entries: &[(&str, &[&str])]) -> PackageTable {
    let mut table = PackageTable::new();
    for (name, fragments) in entries {
        table.insert(String::from(*name), pkg(name, fragments));
    }
    table
}

#[test]
fn resolves_transitive_fragments_in_first_seen_order() {
    let universe = universe_of(&[("a", &["c"]), ("b", &[]), ("c", &[])]);
    let root = pkg("root", &["a", "b"]);
    let table = resolve_all(&root, &universe).expect("resolution succeeds");
    assert_eq!(table.len(), 3);
    assert_eq!(table.entries[0].name, "a");
    assert_eq!(table.entries[1].name, "b");
    assert_eq!(table.entries[2].name, "c");
}

#[test]
fn missing_fragment_reported_by_name() {
    let universe = universe_of(&[("a", &["ghost"])]);
    let root = pkg("root", &["a"]);
    match resolve_all(&root, &universe) {
        Err(ResolveError::MissingFragment(name)) => assert_eq!(name, "ghost"),
        _ => panic!("expected a missing-fragment error"),
    }
}

#[test]
fn cyclic_fragments_terminate() {
    let universe = universe_of(&[("a", &["b"]), ("b", &["a"])]);
    let root = pkg("root", &["a"]);
    let table = resolve_all(&root, &universe).expect("cycle must terminate");
    assert_eq!(table.len(), 2);
    assert_eq!(table.entries[0].name, "a");
    assert_eq!(table.entries[1].name, "b");
}

#[test]
fn resolution_is_idempotent_within_one_run() {
    let universe = universe_of(&[("a", &["b", "c"]), ("b", &["c"]), ("c", &[])]);
    let root = pkg("root", &["a"]);
    let first = resolve_all(&root, &universe).expect("resolution succeeds");
    let second = resolve_all(&root, &universe).expect("resolution succeeds");
    assert_eq!(first.len(), second.len());
    for (left, right) in first.entries.iter().zip(second.entries.iter()) {
        assert_eq!(left.name, right.name);
        assert_eq!(left.package.fragments, right.package.fragments);
        assert_eq!(left.package.depends, right.package.depends);
        assert_eq!(left.package.summary, right.package.summary);
    }
}

#[test]
fn duplicate_references_resolve_once() {
    let universe = universe_of(&[("a", &[])]);
    let root = pkg("root", &["a", "a"]);
    let table = resolve_all(&root, &universe).expect("resolution succeeds");
    assert_eq!(table.len(), 1);
}
