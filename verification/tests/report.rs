use robespierre::manifest::{find_closest_parent_manifest, ManifestSearch};
use robespierre::report::{dependency_report, report_json, DependencyReport};

fn strings(items: &[&str]) -> Vec<String> {
    items.iter().map(|s| s.to_string()).collect()
}

#[test]
fn report_lists_the_differences_sorted() {
    let declared = strings(&["zod", "react", "lodash", "react"]);
    let actual = strings(&["rxjs", "react", "@angular/core", "axios", "rxjs"]);
    let report = dependency_report(&declared, &actual);
    assert_eq!(report.extraneous, strings(&["lodash", "zod"]));
    assert_eq!(report.implicit, strings(&["@angular/core", "axios", "rxjs"]));
}

#[test]
fn report_orders_by_characters() {
    let report = dependency_report(&strings(&["b", "B", "ab", "a", "é", "z"]), &strings(&[]));
    assert_eq!(report.extraneous, strings(&["B", "a", "ab", "b", "z", "é"]));
    assert!(report.implicit.is_empty());
}

#[test]
fn identical_sets_give_an_empty_report() {
    let report = dependency_report(&strings(&["a", "b"]), &strings(&["b", "a"]));
    assert!(report.extraneous.is_empty());
    assert!(report.implicit.is_empty());
}

#[test]
fn report_as_json() {
    let report = DependencyReport {
        extraneous: strings(&["lodash"]),
        implicit: strings(&[]),
    };
    assert_eq!(
        report_json(&report),
        "{\n  \"extraneous_dependencies\": [\n    \"lodash\"\n  ],\n  \"implicit_dependencies\": []\n}"
    );
}

#[test]
fn manifest_search_steps() {
    match find_closest_parent_manifest(String::from("/p/src"), true, Some(String::from("/p"))) {
        ManifestSearch::Found(d) => assert_eq!(d, "/p/src"),
        other => panic!("unexpected {:?}", other),
    }
    match find_closest_parent_manifest(String::from("/p/src"), false, Some(String::from("/p"))) {
        ManifestSearch::Probe(d) => assert_eq!(d, "/p"),
        other => panic!("unexpected {:?}", other),
    }
    assert!(matches!(
        find_closest_parent_manifest(String::from("/"), false, None),
        ManifestSearch::NotFound
    ));
}
