//! What the top-level items of a TypeScript module contribute to the
//! imports of a project.

use vstd::prelude::*;
use crate::text::{chars_of, chars_equal, has_chars_at};
use crate::import_map::{ImportMap, ImportRecord, ImportStatement};
use crate::dependency::{remove_first_and_last_chars, strip_outer_chars};
use swc_common::{sync::Lrc, FileName, SourceMap};
use swc_ecma_ast::{Callee, EsVersion, Expr, ModuleDecl, ModuleItem, Stmt};
use swc_ecma_parser::{Lexer, Parser, StringInput, Syntax, TsSyntax};

verus! {

/// A top-level item of a module, as far as the import scan reads it.
#[derive(Debug)]
pub enum ModuleItemInfo {
    /// An `import` declaration: the source text of its module specifier
    /// (quotes included), whether it is `import type`, and its line (from 1).
    Import { specifier: Option<String>, type_only: bool, line: usize },
    /// An expression statement; when the expression calls a plain
    /// identifier, that identifier.
    Expression { called_identifier: Option<String> },
    /// Any other item.
    Other,
}

/// What a `ModuleItemInfo` holds, as mathematical values.
pub enum ModuleItemFact {
    Import { specifier: Option<Seq<char>>, type_only: bool, line: usize },
    Expression { called_identifier: Option<Seq<char>> },
    Other,
}

/// The characters of an optional string.
pub open spec fn option_chars(s: Option<String>) -> Option<Seq<char>> {
    match s {
        Some(t) => Some(t@),
        None => None,
    }
}

impl View for ModuleItemInfo {
    type V = ModuleItemFact;

    open spec fn view(&self) -> ModuleItemFact {
        match self {
            ModuleItemInfo::Import { specifier, type_only, line } => ModuleItemFact::Import {
                specifier: option_chars(*specifier),
                type_only: *type_only,
                line: *line,
            },
            ModuleItemInfo::Expression { called_identifier } => ModuleItemFact::Expression {
                called_identifier: option_chars(*called_identifier),
            },
            ModuleItemInfo::Other => ModuleItemFact::Other,
        }
    }
}

/// The facts of a sequence of items.
pub open spec fn item_facts(items: Seq<ModuleItemInfo>) -> Seq<ModuleItemFact> {
    items.map_values(|item: ModuleItemInfo| item@)
}

/// The names of the functions with which test files declare their tests.
pub const TEST_FUNCTIONS: [&'static str; 3] = ["describe", "it", "test"];

/// The code of `c` once lowercased, when it is an ASCII capital letter.
pub open spec fn lowercase_code(c: char) -> u32 {
    if 'A' <= c <= 'Z' {
        (c as u32 + 32) as u32
    } else {
        c as u32
    }
}

/// `s` lowercases to `lower`.
pub open spec fn lowercases_to(s: Seq<char>, lower: Seq<char>) -> bool {
    s.len() == lower.len() && forall|i: int| 0 <= i < s.len() ==> lowercase_code(s[i]) == (
    #[trigger] lower[i]) as u32
}

/// Whether `name`, lowercased, is the name of a test function. Only ASCII
/// capitals can lowercase into these names, so lowercasing ASCII alone
/// decides it.
pub open spec fn is_test_function(name: Seq<char>) -> bool {
    exists|i: int| 0 <= i < TEST_FUNCTIONS@.len() && lowercases_to(name, (#[trigger] TEST_FUNCTIONS@[i])@)
}

/// Whether the module declares tests: one of its top-level statements
/// calls a test function.
pub open spec fn is_test_module(items: Seq<ModuleItemFact>) -> bool {
    exists|i: int|
        0 <= i < items.len() && (#[trigger] items[i] matches ModuleItemFact::Expression {
            called_identifier: Some(name),
        } && is_test_function(name))
}

/// The imports that the items of the module at `path` declare, later ones
/// in place of earlier ones of the same module: each import that is not
/// `import type`, under its module specifier without quotes.
pub open spec fn module_imports(path: Seq<char>, items: Seq<ModuleItemFact>) -> Map<
    Seq<char>,
    ImportRecord,
>
    decreases items.len(),
{
    if items.len() == 0 {
        Map::empty()
    } else {
        let before = module_imports(path, items.drop_last());
        match items.last() {
            ModuleItemFact::Import { specifier: Some(raw), type_only: false, line } => {
                let name = strip_outer_chars(raw);
                before.insert(name, ImportRecord { name, file: path, line })
            },
            _ => before,
        }
    }
}

/// The imports of a project once the module at `path` is scanned: a test
/// module adds nothing; any other adds its imports, in place of those
/// recorded before under the same names.
pub open spec fn registered_imports(
    imports: Map<Seq<char>, ImportRecord>,
    path: Seq<char>,
    items: Seq<ModuleItemFact>,
) -> Map<Seq<char>, ImportRecord> {
    if is_test_module(items) {
        imports
    } else {
        imports.union_prefer_right(module_imports(path, items))
    }
}

/// Scanning a module never drops an import recorded before: every name
/// recorded before is still recorded after.
pub proof fn lemma_registration_keeps_names(
    imports: Map<Seq<char>, ImportRecord>,
    path: Seq<char>,
    items: Seq<ModuleItemFact>,
)
    ensures
        forall|k: Seq<char>| #[trigger] imports.contains_key(k) ==> registered_imports(
            imports,
            path,
            items,
        ).contains_key(k),
{
}

/// A module that declares tests leaves the imports as they were.
pub proof fn lemma_test_modules_add_nothing(
    imports: Map<Seq<char>, ImportRecord>,
    path: Seq<char>,
    items: Seq<ModuleItemFact>,
)
    requires
        is_test_module(items),
    ensures
        registered_imports(imports, path, items) == imports,
{
}

/// `name` is `word` with some of its letters in ASCII capitals.
pub open spec fn same_ignoring_ascii_capitals(name: Seq<char>, word: Seq<char>) -> bool {
    name.len() == word.len() && forall|j: int|
        0 <= j < name.len() ==> name[j] == word[j] || ('A' <= name[j] <= 'Z' && name[j] as u32 + 32
            == (#[trigger] word[j]) as u32)
}

/// A name that is a test function's name, whatever its ASCII case, is the
/// name of a test function.
proof fn lemma_test_word_is_test_function(name: Seq<char>, k: int)
    requires
        0 <= k < TEST_FUNCTIONS@.len(),
        same_ignoring_ascii_capitals(name, TEST_FUNCTIONS@[k]@),
        forall|j: int| 0 <= j < TEST_FUNCTIONS@[k]@.len() ==> 'a' <= #[trigger] TEST_FUNCTIONS@[k]@[j] <= 'z',
    ensures
        is_test_function(name),
{
    let word = TEST_FUNCTIONS@[k]@;
    assert forall|j: int| 0 <= j < name.len() implies lowercase_code(name[j]) == (#[trigger] word[j]) as u32 by {
        assert('a' <= word[j] <= 'z');
    }
    assert(lowercases_to(name, word));
}

/// A module any of whose top-level statements, wherever it stands, calls
/// `describe`, `it` or `test` (in any ASCII case) adds no imports, and adding
/// items before or after it keeps it so.
pub proof fn lemma_any_test_call_adds_nothing(
    imports: Map<Seq<char>, ImportRecord>,
    path: Seq<char>,
    items: Seq<ModuleItemFact>,
    i: int,
    name: Seq<char>,
    before: Seq<ModuleItemFact>,
    after: Seq<ModuleItemFact>,
)
    requires
        0 <= i < items.len(),
        items[i] == (ModuleItemFact::Expression { called_identifier: Some(name) }),
        same_ignoring_ascii_capitals(name, "describe"@) || same_ignoring_ascii_capitals(name, "it"@)
            || same_ignoring_ascii_capitals(name, "test"@),
    ensures
        registered_imports(imports, path, items) == imports,
        registered_imports(imports, path, before + items + after) == imports,
{
    reveal_strlit("describe");
    reveal_strlit("it");
    reveal_strlit("test");
    if same_ignoring_ascii_capitals(name, "describe"@) {
        lemma_test_word_is_test_function(name, 0);
    } else if same_ignoring_ascii_capitals(name, "it"@) {
        lemma_test_word_is_test_function(name, 1);
    } else {
        lemma_test_word_is_test_function(name, 2);
    }
    assert(is_test_module(items));
    let all = before + items + after;
    assert(all[before.len() + i] == items[i]);
    assert(is_test_module(all));
}

/// Whether `c`, lowercased, is `lower`.
fn lowercases_char_to(c: char, lower: char) -> (r: bool)
    ensures
        r == (lowercase_code(c) == lower as u32),
{
    if 'A' <= c && c <= 'Z' {
        (c as u32) + 32 == lower as u32
    } else {
        c == lower
    }
}

/// Whether `name`, lowercased, is the name of a test function.
pub fn is_test_function_name(name: &str) -> (r: bool)
    ensures
        r == is_test_function(name@),
{
    let chars = chars_of(name);
    let mut i: usize = 0;
    while i < TEST_FUNCTIONS.len()
        invariant
            chars@ == name@,
            i <= TEST_FUNCTIONS@.len(),
            forall|j: int| 0 <= j < i ==> !lowercases_to(name@, (#[trigger] TEST_FUNCTIONS@[j])@),
        decreases TEST_FUNCTIONS@.len() - i,
    {
        let word = chars_of(TEST_FUNCTIONS[i]);
        let mut same = word.len() == chars.len();
        let mut j: usize = 0;
        while same && j < chars.len()
            invariant
                same ==> word@.len() == chars@.len(),
                j <= chars@.len(),
                same <==> (word@.len() == chars@.len() && forall|l: int| 0 <= l < j ==> lowercase_code(chars@[l]) == (#[trigger] word@[l]) as u32),
            decreases chars@.len() - j,
        {
            same = lowercases_char_to(chars[j], word[j]);
            j += 1;
        }
        if same {
            assert(lowercases_to(name@, TEST_FUNCTIONS@[i as int]@));
            return true;
        }
        i += 1;
    }
    false
}

/// Adds to `actual_imports` the imports that the items of the module at
/// `path` declare, unless the module declares tests.
pub fn register_module_imports(path: &str, items: &Vec<ModuleItemInfo>, actual_imports: &mut ImportMap)
    ensures
        final(actual_imports)@ == registered_imports(old(actual_imports)@, path@, item_facts(items@)),
{
    let ghost facts = item_facts(items@);
    let mut file_imports = ImportMap::new();
    let mut is_test_file = false;
    let mut i: usize = 0;
    while i < items.len()
        invariant
            facts == item_facts(items@),
            i <= items@.len(),
            file_imports@ == module_imports(path@, facts.take(i as int)),
            is_test_file == is_test_module(facts.take(i as int)),
        decreases items@.len() - i,
    {
        let ghost prefix = facts.take(i as int);
        assert(facts.take(i + 1).drop_last() == prefix);
        assert(facts.take(i + 1).last() == items@[i as int]@);
        match &items[i] {
            ModuleItemInfo::Import { specifier: Some(raw), type_only: false, line } => {
                let name = remove_first_and_last_chars(raw.clone());
                let statement = ImportStatement { name: name.clone(), file: path.to_owned(), line: *line };
                file_imports.insert(name, statement);
            },
            ModuleItemInfo::Expression { called_identifier: Some(name) } => {
                if is_test_function_name(name.as_str()) {
                    is_test_file = true;
                    assert(facts.take(i + 1)[i as int] == facts[i as int]);
                }
            },
            _ => {},
        }
        proof {
            let next = facts.take(i + 1);
            if is_test_module(next) && !is_test_module(prefix) {
                let j = choose|j: int| 0 <= j < next.len() && (#[trigger] next[j] matches ModuleItemFact::Expression {
                    called_identifier: Some(name),
                } && is_test_function(name));
                if j < i {
                    assert(prefix[j] == next[j]);
                }
            }
            if is_test_module(prefix) {
                let j = choose|j: int| 0 <= j < prefix.len() && (#[trigger] prefix[j] matches ModuleItemFact::Expression {
                    called_identifier: Some(name),
                } && is_test_function(name));
                assert(next[j] == prefix[j]);
            }
        }
        i += 1;
    }
    assert(facts.take(items@.len() as int) == facts);
    if !is_test_file {
        actual_imports.extend(file_imports);
    }
}


#[verifier::external_type_specification]
#[verifier::external_body]
pub struct ExSourceMap(SourceMap);

#[verifier::external_type_specification]
#[verifier::external_body]
pub struct ExModuleItem(ModuleItem);

#[verifier::external_type_specification]
#[verifier::external_body]
pub struct ExExpr(Expr);

/// The top-level items of the TypeScript module that `swc_ecma_parser`
/// parses from `source` (ES2022; JSX syntax when `tsx`, decorators when
/// `decorators`), in order; `None` when the parser reports an error,
/// recoverable or not. Line numbers are those that
/// `swc_common::SourceMap::lookup_char_pos` gives.
pub uninterp spec fn typescript_module_items(source: Seq<char>, tsx: bool, decorators: bool) -> Option<
    Seq<ModuleItemFact>,
>;

/// The facts of an optional list of items.
pub open spec fn optional_item_facts(items: Option<Vec<ModuleItemInfo>>) -> Option<Seq<ModuleItemFact>> {
    match items {
        Some(v) => Some(item_facts(v@)),
        None => None,
    }
}

/// The identifier that `expr` calls, when it is a call of a plain identifier.
/// Tells the variants of `swc_ecma_ast::Expr` and `Callee` apart.
#[verifier::external_body]
fn called_identifier(expr: &Expr) -> Option<String> {
    match expr {
        Expr::Call(call) => match &call.callee {
            Callee::Expr(callee) => match &**callee {
                Expr::Ident(ident) => Some(ident.sym.to_string()),
                _ => None,
            },
            _ => None,
        },
        _ => None,
    }
}

/// Converts an `swc_ecma_ast::ModuleItem` into a `ModuleItemInfo`, with the
/// line that `SourceMap::lookup_char_pos` gives for the start of an import.
#[verifier::external_body]
fn module_item_info(source_map: &SourceMap, item: &ModuleItem) -> ModuleItemInfo {
    match item {
        ModuleItem::ModuleDecl(ModuleDecl::Import(decl)) => ModuleItemInfo::Import {
            specifier: decl.src.raw.as_ref().map(|raw| raw.to_string()),
            type_only: decl.type_only,
            line: source_map.lookup_char_pos(decl.span.lo).line,
        },
        ModuleItem::Stmt(Stmt::Expr(stmt)) => ModuleItemInfo::Expression {
            called_identifier: called_identifier(&stmt.expr),
        },
        _ => ModuleItemInfo::Other,
    }
}

/// Parses `source` with `swc_ecma_parser::Parser::parse_module` (TypeScript
/// syntax, ES2022, with the `tsx` and `decorators` options of `TsSyntax` as
/// given) and lists its top-level items; `None` when `parse_module` fails or
/// `Parser::take_errors` reports a recoverable error. The contract names the
/// result and claims only that it is a function of the arguments.
#[verifier::external_body]
fn parse_typescript_module(source: &str, tsx: bool, decorators: bool) -> (r: Option<Vec<ModuleItemInfo>>)
    ensures
        optional_item_facts(r) == typescript_module_items(source@, tsx, decorators),
{
    let source_map = SourceMap::default();
    let file = source_map.new_source_file(Lrc::new(FileName::Anon), source.to_string());
    let syntax = Syntax::Typescript(TsSyntax { tsx, decorators, ..Default::default() });
    let lexer = Lexer::new(syntax, EsVersion::Es2022, StringInput::from(&*file), None);
    let mut parser = Parser::new_from(lexer);
    let module = parser.parse_module();
    if !parser.take_errors().is_empty() {
        return None;
    }
    let items = module.ok()?.body;
    Some(items.iter().map(|item| module_item_info(&source_map, item)).collect())
}

/// Parses the TypeScript `source` of the file at `path` and adds the
/// imports it declares to `actual_imports`, unless it declares tests.
/// Returns whether the source parsed; when it does not, nothing is added.
/// The source is read as a `.ts` file: TypeScript without JSX (so that
/// `<T>expr` is a type assertion), with decorators.
pub fn process_typescript_source(path: &str, source: &str, actual_imports: &mut ImportMap) -> (parsed: bool)
    ensures
        parsed == typescript_module_items(source@, false, true) is Some,
        match typescript_module_items(source@, false, true) {
            Some(items) => final(actual_imports)@ == registered_imports(old(actual_imports)@, path@, items),
            None => final(actual_imports)@ == old(actual_imports)@,
        },
{
    match parse_typescript_module(source, false, true) {
        Some(items) => {
            register_module_imports(path, &items, actual_imports);
            true
        },
        None => false,
    }
}


/// The directory under which npm installs packages.
pub const NODE_MODULES: &'static str = "node_modules";

/// The suffix of TypeScript declaration files.
pub const DECLARATION_SUFFIX: &'static str = ".d.ts";

/// Whether `name` is the name of a declaration file: longer than the
/// suffix `.d.ts`, and ending with it.
pub open spec fn is_declaration_file_name(name: Seq<char>) -> bool {
    let suffix = DECLARATION_SUFFIX@;
    name.len() > suffix.len() && name.subrange(name.len() - suffix.len(), name.len() as int) == suffix
}

/// Whether a source file whose path has these components is scanned for
/// imports: none of them is `node_modules`, and the last does not name a
/// declaration file.
pub open spec fn is_analyzable_source(components: Seq<Seq<char>>) -> bool {
    &&& forall|i: int| 0 <= i < components.len() ==> #[trigger] components[i] != NODE_MODULES@
    &&& !is_declaration_file_name(components.last())
}

/// The UTF-8 length of `name` is at most that of the suffix `.d.ts`, or
/// the suffix's length from the end falls on a character boundary, so that
/// the byte slice that compares the end of `name` with the suffix exists.
pub open spec fn suffix_is_sliceable(name: Seq<char>) -> bool {
    let bytes = vstd::utf8::encode_utf8(name);
    let n = vstd::utf8::encode_utf8(DECLARATION_SUFFIX@).len();
    bytes.len() <= n || vstd::utf8::is_char_boundary(bytes, bytes.len() - n)
}

/// Whether the source file whose path has these components (from a glob
/// match) is to be scanned: it lies outside `node_modules` and is not a
/// declaration (`.d.ts`) file.
pub fn is_analyzable_source_path(components: &Vec<String>) -> (r: bool)
    requires
        components@.len() > 0,
        suffix_is_sliceable(components@.last()@),
    ensures
        r == is_analyzable_source(components@.map_values(|c: String| c@)),
{
    let ghost views = components@.map_values(|c: String| c@);
    let node_modules = chars_of(NODE_MODULES);
    let mut i: usize = 0;
    while i < components.len()
        invariant
            views == components@.map_values(|c: String| c@),
            node_modules@ == NODE_MODULES@,
            i <= components@.len(),
            forall|j: int| 0 <= j < i ==> #[trigger] views[j] != NODE_MODULES@,
        decreases components@.len() - i,
    {
        let component = chars_of(components[i].as_str());
        if chars_equal(&component, &node_modules) {
            assert(views[i as int] == NODE_MODULES@);
            return false;
        }
        i += 1;
    }
    let name = chars_of(components[components.len() - 1].as_str());
    let suffix = chars_of(DECLARATION_SUFFIX);
    assert(views.last() == name@);
    if name.len() > suffix.len() {
        !has_chars_at(&name, name.len() - suffix.len(), &suffix)
    } else {
        true
    }
}

} // verus!
