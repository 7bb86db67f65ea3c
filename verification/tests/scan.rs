use robespierre::import_map::{ImportMap, ImportStatement};
use robespierre::module_scan::{
    is_analyzable_source_path, is_test_function_name, process_typescript_source,
    register_module_imports, ModuleItemInfo,
};

fn import(specifier: &str, line: usize) -> ModuleItemInfo {
    ModuleItemInfo::Import { specifier: Some(String::from(specifier)), type_only: false, line }
}

fn call(name: &str) -> ModuleItemInfo {
    ModuleItemInfo::Expression { called_identifier: Some(String::from(name)) }
}

#[test]
fn parses_imports_of_a_typescript_source() {
    let source = "import { of } from 'rxjs';\nimport type { Foo } from './foo';\n\nimport { TestBed } from \"@angular/core/testing\";\nimport './side-effect';\nconst x = of(1);\n";
    let mut imports = ImportMap::new();
    assert!(process_typescript_source("src/app.ts", source, &mut imports));
    assert_eq!(imports.len(), 3);
    let rxjs = imports.get("rxjs").unwrap();
    assert_eq!(rxjs.name, "rxjs");
    assert_eq!(rxjs.file, "src/app.ts");
    assert_eq!(rxjs.line, 1);
    assert_eq!(imports.get("@angular/core/testing").unwrap().line, 4);
    assert_eq!(imports.get("./side-effect").unwrap().line, 5);
    assert!(!imports.contains_key("./foo"));
}

#[test]
fn test_sources_add_no_imports() {
    let source = "import { expect } from 'chai';\ndescribe('suite', () => {\n  it('works', () => {});\n});\n";
    let mut imports = ImportMap::new();
    assert!(process_typescript_source("src/app.spec.ts", source, &mut imports));
    assert_eq!(imports.len(), 0);
}

#[test]
fn capitalised_test_calls_mark_test_sources() {
    let source = "import { expect } from 'chai';\nTEST('x', () => {});\n";
    let mut imports = ImportMap::new();
    assert!(process_typescript_source("a.ts", source, &mut imports));
    assert_eq!(imports.len(), 0);
}

#[test]
fn decorators_parse() {
    let source = "import { Component } from '@angular/core';\n@Component({})\nexport class A {}\n";
    let mut imports = ImportMap::new();
    assert!(process_typescript_source("a.ts", source, &mut imports));
    assert!(imports.contains_key("@angular/core"));
}

#[test]
fn unparsable_source_adds_nothing() {
    let mut imports = ImportMap::new();
    imports.insert(
        String::from("lodash"),
        ImportStatement { name: String::from("lodash"), file: String::from("b.ts"), line: 3 },
    );
    assert!(!process_typescript_source("a.ts", "import { from 'x';\n", &mut imports));
    assert_eq!(imports.len(), 1);
    assert!(imports.contains_key("lodash"));
}

#[test]
fn later_files_replace_earlier_records() {
    let mut imports = ImportMap::new();
    register_module_imports("a.ts", &vec![import("'lodash'", 2)], &mut imports);
    register_module_imports("b.ts", &vec![import("'lodash'", 7)], &mut imports);
    let record = imports.get("lodash").unwrap();
    assert_eq!(record.file, "b.ts");
    assert_eq!(record.line, 7);
}

#[test]
fn later_imports_of_one_file_win() {
    let mut imports = ImportMap::new();
    register_module_imports("a.ts", &vec![import("'x'", 1), import("'x'", 9)], &mut imports);
    assert_eq!(imports.len(), 1);
    assert_eq!(imports.get("x").unwrap().line, 9);
}

#[test]
fn type_only_and_unquoted_imports_are_skipped() {
    let mut imports = ImportMap::new();
    let items = vec![
        ModuleItemInfo::Import { specifier: Some(String::from("'t'")), type_only: true, line: 1 },
        ModuleItemInfo::Import { specifier: None, type_only: false, line: 2 },
        ModuleItemInfo::Other,
        call("run"),
        ModuleItemInfo::Expression { called_identifier: None },
    ];
    register_module_imports("a.ts", &items, &mut imports);
    assert_eq!(imports.len(), 0);
}

#[test]
fn test_call_anywhere_marks_the_file() {
    let mut imports = ImportMap::new();
    register_module_imports("a.ts", &vec![import("'x'", 1), call("It")], &mut imports);
    assert_eq!(imports.len(), 0);
}

#[test]
fn test_function_names_ignore_ascii_case() {
    assert!(is_test_function_name("describe"));
    assert!(is_test_function_name("DeScribe"));
    assert!(is_test_function_name("it"));
    assert!(is_test_function_name("Test"));
    assert!(!is_test_function_name("tests"));
    assert!(!is_test_function_name("xit"));
    assert!(!is_test_function_name(""));
}

fn components(parts: &[&str]) -> Vec<String> {
    parts.iter().map(|p| p.to_string()).collect()
}

#[test]
fn source_paths_outside_node_modules_are_analyzed() {
    assert!(is_analyzable_source_path(&components(&["/", "project", "src", "app.ts"])));
    assert!(!is_analyzable_source_path(&components(&["/", "project", "node_modules", "x", "index.ts"])));
    assert!(!is_analyzable_source_path(&components(&["src", "types.d.ts"])));
    assert!(is_analyzable_source_path(&components(&["src", ".d.ts"])));
    assert!(is_analyzable_source_path(&components(&["src", "types.ts"])));
}
