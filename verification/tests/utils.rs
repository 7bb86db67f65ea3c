use robespierre::dependency::{
    crop_dep_only, filtered_and_cropped_deps, is_npm_dep, remove_first_and_last_chars,
};
use robespierre::import_map::{ImportMap, ImportStatement};

#[test]
fn remove_first_and_last_chars_test() {
    let result = remove_first_and_last_chars(String::from("AAA"));
    assert_eq!(result, "A");
}

#[test]
fn is_npm_dep_should_returns_false_with_local_dep_test() {
    let result = is_npm_dep(&String::from("./aah"));
    assert!(!result);
}

#[test]
fn is_npm_dep_should_returns_false_with_local_remote_dep_test() {
    let result = is_npm_dep(&String::from("../../aah"));
    assert!(!result);
}

#[test]
fn is_npm_dep_should_returns_true_with_external_dep_with_at_test() {
    let result = is_npm_dep(&String::from("@angular/core"));
    assert!(result);
}

#[test]
fn is_npm_dep_should_returns_true_with_external_dep_without_at_test() {
    let result = is_npm_dep(&String::from("rxjs"));
    assert!(result);
}

#[test]
fn is_npm_dep_should_returns_false_with_local_dep_with_hashtag_test() {
    let result = is_npm_dep(&String::from("#mymodule"));
    assert!(!result);
}

#[test]
fn is_npm_built_in_without_protocol() {
    let result = is_npm_dep(&String::from("fs"));
    assert!(!result);
}

#[test]
fn is_npm_built_in_with_protocol() {
    let result = is_npm_dep(&String::from("node:child_process"));
    assert!(!result);
}

#[test]
fn is_npm_built_in_without_protocol_slash() {
    let result = is_npm_dep(&String::from("fs/promises"));
    assert!(!result);
}

#[test]
fn is_npm_built_in_with_protocol_slash() {
    let result = is_npm_dep(&String::from("node:fs/promises"));
    assert!(!result);
}

#[test]
fn simple_dep_test() {
    let result = crop_dep_only(String::from("@angular"));
    assert_eq!(result, "@angular");
}

#[test]
fn namespace_dep_test_with_organization() {
    let result = crop_dep_only(String::from("@angular/core"));
    assert_eq!(result, "@angular/core");
}

#[test]
fn nested_dep_test_with_organization() {
    let result = crop_dep_only(String::from("@angular/core/something"));
    assert_eq!(result, "@angular/core");
}

#[test]
fn nested_dep_test_without_organization() {
    let result = crop_dep_only(String::from("rxjs/internal"));
    assert_eq!(result, "rxjs");
}

fn fake_dep(name: String) -> ImportStatement {
    ImportStatement {
        name: name.clone(),
        file: String::from("@angular/core"),
        line: 42,
    }
}

#[test]
fn should_returns_same_test() {
    let mut base_deps: ImportMap = ImportMap::new();
    let external_dep: String = String::from("@angular/core");
    base_deps.insert(external_dep.clone(), fake_dep(external_dep));

    filtered_and_cropped_deps(&mut base_deps);

    assert_eq!(base_deps.len(), 1);
    assert!(base_deps.contains_key("@angular/core"));
}

#[test]
fn should_returns_filtered_test() {
    let mut base_deps: ImportMap = ImportMap::new();
    let external_dep: String = String::from("@angular/core");
    let internal_dep: String = String::from("./aah");
    base_deps.insert(external_dep.clone(), fake_dep(external_dep));
    base_deps.insert(internal_dep.clone(), fake_dep(internal_dep));

    filtered_and_cropped_deps(&mut base_deps);

    assert_eq!(base_deps.len(), 1);
    assert!(base_deps.contains_key("@angular/core"));
}

#[test]
fn should_returns_cropped_test() {
    let mut base_deps: ImportMap = ImportMap::new();
    let simple_external_dep: String = String::from("rxjs");
    let nested_external_dep: String = String::from("@angular/core/truc");
    base_deps.insert(simple_external_dep.clone(), fake_dep(simple_external_dep));
    base_deps.insert(nested_external_dep.clone(), fake_dep(nested_external_dep));
    filtered_and_cropped_deps(&mut base_deps);

    assert_eq!(base_deps.len(), 2);
    assert!(base_deps.contains_key("rxjs"));
    assert!(base_deps.contains_key("@angular/core"));
}

#[test]
fn should_returns_filtered_and_cropped_test() {
    let mut base_deps: ImportMap = ImportMap::new();
    let simple_external_dep: String = String::from("node");
    let nested_external_dep: String = String::from("@angular/core/truc");
    let internal_dep: String = String::from("./aah");
    let namespace_external_dep: String = String::from("@something/utils");

    base_deps.insert(simple_external_dep.clone(), fake_dep(simple_external_dep));
    base_deps.insert(nested_external_dep.clone(), fake_dep(nested_external_dep));
    base_deps.insert(internal_dep.clone(), fake_dep(internal_dep));
    base_deps.insert(
        namespace_external_dep.clone(),
        fake_dep(namespace_external_dep),
    );

    filtered_and_cropped_deps(&mut base_deps);

    assert_eq!(base_deps.len(), 3);

    assert!(base_deps.contains_key("node"));
    assert!(base_deps.contains_key("@angular/core"));
    assert!(base_deps.contains_key("@something/utils"));
}
