use robespierre::dependency::{
    crop_dep_only, filtered_and_cropped_deps, is_built_in_dep, is_npm_dep,
    remove_first_and_last_chars,
};
use robespierre::import_map::{ImportMap, ImportStatement};

fn record(name: &str, line: usize) -> ImportStatement {
    ImportStatement { name: String::from(name), file: String::from("a.ts"), line }
}

#[test]
fn strips_nothing_left_from_short_strings() {
    assert_eq!(remove_first_and_last_chars(String::new()), "");
    assert_eq!(remove_first_and_last_chars(String::from("'")), "");
    assert_eq!(remove_first_and_last_chars(String::from("''")), "");
    assert_eq!(remove_first_and_last_chars(String::from("'é/ü'")), "é/ü");
}

#[test]
fn built_in_modules() {
    assert!(is_built_in_dep("fs"));
    assert!(is_built_in_dep("node:fs"));
    assert!(is_built_in_dep("node:node:fs"));
    assert!(is_built_in_dep("zlib"));
    assert!(is_built_in_dep("fs/promises/deep"));
    assert!(!is_built_in_dep("fs/"));
    assert!(!is_built_in_dep("fs-extra"));
    assert!(!is_built_in_dep("node:"));
    assert!(!is_built_in_dep(""));
}

#[test]
fn npm_dependencies() {
    assert!(is_npm_dep("Z"));
    assert!(is_npm_dep("9lives"));
    assert!(is_npm_dep("fs/"));
    assert!(!is_npm_dep(""));
    assert!(!is_npm_dep("_private"));
    assert!(!is_npm_dep("éclair"));
}

#[test]
fn cropping_edge_cases() {
    assert_eq!(crop_dep_only(String::from("")), "");
    assert_eq!(crop_dep_only(String::from("/abs/path")), "");
    assert_eq!(crop_dep_only(String::from("fs/")), "fs");
    assert_eq!(crop_dep_only(String::from("@scope/")), "@scope/");
    assert_eq!(crop_dep_only(String::from("@/x/y")), "@/x");
}

#[test]
fn cropping_is_idempotent() {
    for s in ["@a/b/c/d", "a/b/c", "@a", "/x", "", "@/x/y", "a//b"] {
        let once = crop_dep_only(String::from(s));
        let twice = crop_dep_only(once.clone());
        assert_eq!(once, twice);
    }
}

#[test]
fn moved_import_replaces_the_record_under_the_package_name() {
    let mut deps = ImportMap::new();
    deps.insert(String::from("rxjs"), record("rxjs", 1));
    deps.insert(String::from("rxjs/operators"), record("rxjs/operators", 2));
    filtered_and_cropped_deps(&mut deps);
    assert_eq!(deps.len(), 1);
    let kept = deps.get("rxjs").unwrap();
    assert_eq!(kept.name, "rxjs/operators");
    assert_eq!(kept.line, 2);
}

#[test]
fn built_in_and_relative_imports_leave() {
    let mut deps = ImportMap::new();
    for name in ["fs", "node:path", "./local", "../up", "#internal", "react"] {
        deps.insert(String::from(name), record(name, 1));
    }
    filtered_and_cropped_deps(&mut deps);
    assert_eq!(deps.len(), 1);
    assert!(deps.contains_key("react"));
}

#[test]
fn filtering_twice_changes_nothing() {
    let mut deps = ImportMap::new();
    for name in ["@a/b/c", "x/y", "x", "fs/", "./z", "lodash"] {
        deps.insert(String::from(name), record(name, 1));
    }
    filtered_and_cropped_deps(&mut deps);
    let mut once = deps.keys();
    once.sort();
    filtered_and_cropped_deps(&mut deps);
    let mut twice = deps.keys();
    twice.sort();
    assert_eq!(once, twice);
    assert_eq!(once, vec!["@a/b", "fs", "lodash", "x"]);
    assert_eq!(deps.get("fs").unwrap().name, "fs/");
}

#[test]
fn import_map_operations() {
    let mut m = ImportMap::new();
    assert_eq!(m.len(), 0);
    m.insert(String::from("a"), record("a", 1));
    m.insert(String::from("b"), record("b", 2));
    m.insert(String::from("a"), record("a", 3));
    assert_eq!(m.len(), 2);
    assert_eq!(m.get("a").unwrap().line, 3);
    assert_eq!(m.remove("a").unwrap().line, 3);
    assert!(m.remove("a").is_none());
    assert!(!m.contains_key("a"));
    assert!(m.get("zz").is_none());
    let mut other = ImportMap::new();
    other.insert(String::from("b"), record("b", 9));
    other.insert(String::from("c"), record("c", 4));
    m.extend(other);
    assert_eq!(m.len(), 2);
    assert_eq!(m.get("b").unwrap().line, 9);
    let (k, _) = m.pop_entry().unwrap();
    assert!(!m.contains_key(&k));
    assert_eq!(m.len(), 1);
}
