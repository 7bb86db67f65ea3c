//! Finds extraneous and implicit dependencies of a TypeScript project by
//! comparing the dependencies that its `package.json` declares with the
//! packages that its source files import.

pub mod text;
pub mod import_map;
pub mod dependency;
pub mod module_scan;
pub mod report;
pub mod manifest;
