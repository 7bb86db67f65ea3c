# robespierre

Finds the *extraneous* dependencies of an npm project (declared in
`package.json`, imported by no source file) and its *implicit* ones
(imported, not declared), by parsing its TypeScript sources.

- `src/` is the verified library (Verus):
  - `text` — character-level helpers over `Seq<char>`;
  - `import_map` — `ImportMap`, a map from names to import statements, viewed as a `Map`;
  - `dependency` — which specifiers name npm packages, cropping them to the package name,
    and filtering a project's imports;
  - `module_scan` — what the top-level items of a module (parsed with `swc_ecma_parser`)
    add to the imports, and which source paths are scanned;
  - `report` — the sorted differences between declared and imported packages, and their JSON form;
  - `manifest` — the steps of the search for the project's `package.json`.
- `app/` is the command line program: arguments, logging, the file system, globbing.
