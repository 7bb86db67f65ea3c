//! Recognising the module specifiers that name npm packages, and reducing
//! them to the package's own name.

use vstd::prelude::*;
use vstd::string::*;
use crate::text::{lemma_index_of_prefix, chars_of, chars_equal, find_char_from, has_chars_at, index_of, index_of_from, lemma_index_of_from_bounds, sub_chars};
use crate::import_map::{ImportMap, ImportRecord, ImportStatement};

verus! {

/// The modules that Node.js provides itself.
pub const BUILT_IN: [&'static str; 41] = [
    "assert",
    "async_hooks",
    "buffer",
    "child_process",
    "cluster",
    "console",
    "constants",
    "crypto",
    "dgram",
    "diagnostics_channel",
    "dns",
    "domain",
    "events",
    "fs",
    "http",
    "http2",
    "https",
    "inspector",
    "module",
    "net",
    "os",
    "path",
    "perf_hooks",
    "process",
    "punycode",
    "querystring",
    "readline",
    "repl",
    "stream",
    "string_decoder",
    "timers",
    "tls",
    "trace_events",
    "tty",
    "url",
    "util",
    "v8",
    "vm",
    "wasi",
    "worker_threads",
    "zlib",
];

/// The scheme by which Node.js built-in modules may be named.
pub const NODE_PROTOCOL: &'static str = "node:";

/// A specifier that names a package starts with one of these characters.
pub const PACKAGE_PATTERN: &'static str = "^[a-zA-Z0-9@]+";

/// A package name that starts with `@` belongs to an organisation's scope.
pub const SCOPE_PATTERN: &'static str = "^@";

/// Whether `c` may start the name of an npm package: an ASCII letter, an
/// ASCII digit, or `@`.
pub open spec fn is_package_start(c: char) -> bool {
    ('a' <= c <= 'z') || ('A' <= c <= 'Z') || ('0' <= c <= '9') || c == '@'
}

/// What the two patterns of this module match: `PACKAGE_PATTERN` a text
/// whose first character may start a package name, `SCOPE_PATTERN` a text
/// whose first character is `@`.
pub open spec fn pattern_matches(pattern: Seq<char>, text: Seq<char>) -> bool {
    if pattern == PACKAGE_PATTERN@ {
        text.len() > 0 && is_package_start(text[0])
    } else {
        text.len() > 0 && text[0] == '@'
    }
}

/// Compiles `pattern` with `regex::Regex::new` and tests it against
/// `haystack` with `Regex::is_match`. The contract states, of the two
/// patterns that this module uses, what the regex documentation says they
/// match: a `^` anchors at the start of the text, and a one-or-more
/// repetition of a class matches when the first character is in the class.
#[verifier::external_body]
fn regex_is_match(pattern: &str, haystack: &str) -> (r: bool)
    requires
        pattern@ == PACKAGE_PATTERN@ || pattern@ == SCOPE_PATTERN@,
    ensures
        r == pattern_matches(pattern@, haystack@),
{
    regex::Regex::new(pattern).unwrap().is_match(haystack)
}

/// `s` without its first and last characters; empty when `s` has fewer
/// than two.
pub open spec fn strip_outer_chars(s: Seq<char>) -> Seq<char> {
    if s.len() <= 1 {
        Seq::empty()
    } else {
        s.subrange(1, s.len() - 1)
    }
}

/// Drops the first and the last character of `value` (the quotes around a
/// string literal's source text).
pub fn remove_first_and_last_chars(value: String) -> (r: String)
    ensures
        r@ == strip_outer_chars(value@),
{
    let n = value.as_str().unicode_len();
    if n <= 1 {
        return String::new();
    }
    value.as_str().substring_char(1, n - 1).to_owned()
}

/// `s` with every leading `node:` removed.
pub open spec fn strip_node_protocol(s: Seq<char>) -> Seq<char>
    decreases s.len(),
{
    let p = NODE_PROTOCOL@;
    if p.len() > 0 && p.len() <= s.len() && s.subrange(0, p.len() as int) == p {
        strip_node_protocol(s.subrange(p.len() as int, s.len() as int))
    } else {
        s
    }
}

/// The part of `s` before its first `/`, unless that `/` is its last character.
pub open spec fn module_base(s: Seq<char>) -> Seq<char> {
    let i = index_of(s, '/');
    if i < s.len() && i != s.len() - 1 {
        s.subrange(0, i)
    } else {
        s
    }
}

/// Whether `s` is one of the built-in module names.
pub open spec fn is_built_in_name(s: Seq<char>) -> bool {
    exists|i: int| 0 <= i < BUILT_IN@.len() && (#[trigger] BUILT_IN@[i])@ == s
}

/// Whether `s` names a Node.js built-in module: once leading `node:`
/// schemes are dropped, and a path after the first `/` too, it is one of
/// the built-in module names.
pub open spec fn is_built_in_specifier(s: Seq<char>) -> bool {
    is_built_in_name(module_base(strip_node_protocol(s)))
}

/// Whether `dependency_string` names a Node.js built-in module, such as
/// `fs`, `node:child_process` or `fs/promises`.
pub fn is_built_in_dep(dependency_string: &str) -> (r: bool)
    ensures
        r == is_built_in_specifier(dependency_string@),
{
    let protocol = chars_of(NODE_PROTOCOL);
    let mut module_name = chars_of(dependency_string);
    while protocol.len() > 0 && has_chars_at(&module_name, 0, &protocol)
        invariant
            protocol@ == NODE_PROTOCOL@,
            strip_node_protocol(module_name@) == strip_node_protocol(dependency_string@),
        decreases module_name@.len(),
    {
        module_name = sub_chars(&module_name, protocol.len(), module_name.len());
    }
    let slash = find_char_from(&module_name, '/', 0);
    if slash < module_name.len() && slash != module_name.len() - 1 {
        module_name = sub_chars(&module_name, 0, slash);
    }
    let ghost base = module_name@;
    assert(base == module_base(strip_node_protocol(dependency_string@)));
    let mut i: usize = 0;
    while i < BUILT_IN.len()
        invariant
            module_name@ == base,
            base == module_base(strip_node_protocol(dependency_string@)),
            i <= BUILT_IN@.len(),
            forall|j: int| 0 <= j < i ==> (#[trigger] BUILT_IN@[j])@ != base,
        decreases BUILT_IN@.len() - i,
    {
        let name = chars_of(BUILT_IN[i]);
        if chars_equal(&name, &module_name) {
            assert(BUILT_IN@[i as int]@ == base);
            return true;
        }
        i += 1;
    }
    false
}

/// Whether `s` names an npm package: it starts like a package name and is
/// not a built-in module.
pub open spec fn is_npm_specifier(s: Seq<char>) -> bool {
    s.len() > 0 && is_package_start(s[0]) && !is_built_in_specifier(s)
}

/// Whether `dependency_string` names an npm package, as opposed to a
/// relative path, a subpath import (`#...`) or a Node.js built-in module.
pub fn is_npm_dep(dependency_string: &str) -> (r: bool)
    ensures
        r == is_npm_specifier(dependency_string@),
{
    regex_is_match(PACKAGE_PATTERN, dependency_string) && !is_built_in_dep(dependency_string)
}

/// The package that `s` imports from: for a scoped specifier (`@scope/...`)
/// its first two `/`-separated parts, otherwise its first part.
pub open spec fn crop_dependency(s: Seq<char>) -> Seq<char> {
    let first = index_of(s, '/');
    if first == s.len() {
        s
    } else if s[0] == '@' {
        s.subrange(0, index_of_from(s, '/', first + 1))
    } else {
        s.subrange(0, first)
    }
}

/// Reduces a module specifier to the package name: `rxjs/internal` to
/// `rxjs`, `@angular/core/testing` to `@angular/core`.
pub fn crop_dep_only(dependency: String) -> (r: String)
    ensures
        r@ == crop_dependency(dependency@),
{
    let chars = chars_of(dependency.as_str());
    let first = find_char_from(&chars, '/', 0);
    proof {
        lemma_index_of_from_bounds(chars@, '/', 0);
    }
    if first == chars.len() {
        return dependency;
    }
    let head = dependency.as_str().substring_char(0, first);
    proof {
        reveal_strlit("^@");
        reveal_strlit("^[a-zA-Z0-9@]+");
        assert(SCOPE_PATTERN@.len() == 2);
        assert(PACKAGE_PATTERN@.len() == 14);
    }
    if regex_is_match(SCOPE_PATTERN, head) {
        proof {
            lemma_index_of_from_bounds(chars@, '/', first + 1);
        }
        let end = find_char_from(&chars, '/', first + 1);
        dependency.as_str().substring_char(0, end).to_owned()
    } else {
        head.to_owned()
    }
}


/// The record names an npm package and already in its cropped form: it
/// stays under its key.
pub open spec fn keeps_name(r: ImportRecord) -> bool {
    is_npm_specifier(r.name) && crop_dependency(r.name) == r.name
}

/// The record names an npm package through a longer specifier: it moves to
/// the key of the package's name.
pub open spec fn moves_to_package(r: ImportRecord) -> bool {
    is_npm_specifier(r.name) && crop_dependency(r.name) != r.name
}

/// `m` records under `k` an import that moves to the key `c`.
pub open spec fn moved_to(m: Map<Seq<char>, ImportRecord>, k: Seq<char>, c: Seq<char>) -> bool {
    m.contains_key(k) && moves_to_package(m[k]) && crop_dependency(m[k].name) == c
}

/// `r` is what `filtered_and_cropped_deps` makes of `m`: the imports of
/// packages that are not npm packages leave; an import whose specifier is
/// the package's name stays under its key; any other import of an npm
/// package is recorded under the package's name, in place of what was
/// there. Where several imports move to one name, one of them is kept.
pub open spec fn filtered_and_cropped(m: Map<Seq<char>, ImportRecord>, r: Map<Seq<char>, ImportRecord>) -> bool {
    &&& forall|c: Seq<char>|
        #[trigger] r.contains_key(c) <==> (m.contains_key(c) && keeps_name(m[c])) || exists|k: Seq<char>|
            moved_to(m, k, c)
    &&& forall|c: Seq<char>|
        #[trigger] r.contains_key(c) && (exists|k: Seq<char>| moved_to(m, k, c)) ==> exists|k: Seq<char>|
            moved_to(m, k, c) && r[c] == m[k]
    &&& forall|c: Seq<char>|
        #[trigger] r.contains_key(c) && !(exists|k: Seq<char>| moved_to(m, k, c)) ==> r[c] == m[c]
}

/// Keeps the imports of npm packages only, each under the name of its
/// package (`@angular/core/testing` under `@angular/core`).
pub fn filtered_and_cropped_deps(dependencies: &mut ImportMap)
    ensures
        filtered_and_cropped(old(dependencies)@, final(dependencies)@),
{
    let mut rest = ImportMap::new();
    std::mem::swap(&mut rest, dependencies);
    let ghost m = rest@;
    let mut kept = ImportMap::new();
    let mut moved = ImportMap::new();
    proof {
        rest.lemma_finite();
    }
    loop
        invariant
            m == old(dependencies)@,
            rest@.dom().finite(),
            forall|k: Seq<char>| #[trigger] rest@.contains_key(k) ==> m.contains_key(k) && rest@[k] == m[k],
            forall|c: Seq<char>|
                #[trigger] kept@.contains_key(c) <==> m.contains_key(c) && !rest@.contains_key(c)
                    && keeps_name(m[c]),
            forall|c: Seq<char>| #[trigger] kept@.contains_key(c) ==> kept@[c] == m[c],
            forall|c: Seq<char>|
                #[trigger] moved@.contains_key(c) <==> exists|k: Seq<char>|
                    moved_to(m, k, c) && !rest@.contains_key(k),
            forall|c: Seq<char>|
                #[trigger] moved@.contains_key(c) ==> exists|k: Seq<char>|
                    moved_to(m, k, c) && moved@[c] == m[k],
        ensures
            rest@.len() == 0,
        decreases rest@.len(),
    {
        let ghost before = rest@;
        match rest.pop_entry() {
            None => {
                break;
            },
            Some((key, dependency)) => {
                let ghost k = key@;
                if is_npm_dep(dependency.name.as_str()) {
                    let new_name = crop_dep_only(dependency.name.clone());
                    if new_name == dependency.name {
                        kept.insert(key, dependency);
                    } else {
                        let ghost c = new_name@;
                        assert(moved_to(m, k, c));
                        moved.insert(new_name, dependency);
                    }
                }
                assert forall|c2: Seq<char>|
                    #[trigger] moved@.contains_key(c2) <==> exists|k2: Seq<char>|
                        moved_to(m, k2, c2) && !rest@.contains_key(k2) by {
                    if moved@.contains_key(c2) {
                        if !(c2 == crop_dependency(m[k].name) && moves_to_package(m[k])) {
                            let k2 = choose|k2: Seq<char>| moved_to(m, k2, c2) && !before.contains_key(k2);
                            assert(moved_to(m, k2, c2) && !rest@.contains_key(k2));
                        }
                    }
                    if exists|k2: Seq<char>| moved_to(m, k2, c2) && !rest@.contains_key(k2) {
                        let k2 = choose|k2: Seq<char>| moved_to(m, k2, c2) && !rest@.contains_key(k2);
                        if k2 != k {
                            assert(moved_to(m, k2, c2) && !before.contains_key(k2));
                        }
                    }
                }
            },
        }
    }
    proof {
        assert(rest@.dom() =~= Set::<Seq<char>>::empty());
    }
    kept.extend(moved);
    *dependencies = kept;
}


/// Cropping is idempotent: the name of a package is its own package name.
pub proof fn lemma_crop_idempotent(s: Seq<char>)
    ensures
        crop_dependency(crop_dependency(s)) == crop_dependency(s),
{
    let first = index_of(s, '/');
    lemma_index_of_from_bounds(s, '/', 0);
    if first < s.len() {
        if s[0] == '@' {
            lemma_index_of_from_bounds(s, '/', first + 1);
            let e = index_of_from(s, '/', first + 1);
            let t = s.subrange(0, e);
            lemma_index_of_prefix(s, '/', 0, e);
            lemma_index_of_prefix(s, '/', first + 1, e);
            assert(index_of(t, '/') == first);
            assert(t[0] == '@');
            assert(index_of_from(t, '/', first + 1) == t.len());
            assert(t.subrange(0, t.len() as int) =~= t);
        } else {
            let t = s.subrange(0, first);
            lemma_index_of_prefix(s, '/', 0, first);
            assert(index_of(t, '/') == t.len());
        }
    }
}

/// After `filtered_and_cropped_deps`, every import left names an npm package.
pub proof fn lemma_only_npm_packages_remain(m: Map<Seq<char>, ImportRecord>, r: Map<Seq<char>, ImportRecord>)
    requires
        filtered_and_cropped(m, r),
    ensures
        forall|c: Seq<char>| #[trigger] r.contains_key(c) ==> is_npm_specifier(r[c].name),
{
    assert forall|c: Seq<char>| #[trigger] r.contains_key(c) implies is_npm_specifier(r[c].name) by {
        if exists|k: Seq<char>| moved_to(m, k, c) {
            let k = choose|k: Seq<char>| moved_to(m, k, c) && r[c] == m[k];
        }
    }
}

/// Every import left by `filtered_and_cropped_deps` stays as it is or is
/// recorded under its package's name.
pub proof fn lemma_filtered_records_are_settled(m: Map<Seq<char>, ImportRecord>, r: Map<Seq<char>, ImportRecord>)
    requires
        filtered_and_cropped(m, r),
    ensures
        forall|c: Seq<char>| #[trigger] r.contains_key(c) ==> keeps_name(r[c]) || (moves_to_package(
            r[c],
        ) && crop_dependency(r[c].name) == c),
{
    assert forall|c: Seq<char>| #[trigger] r.contains_key(c) implies keeps_name(r[c]) || (
    moves_to_package(r[c]) && crop_dependency(r[c].name) == c) by {
        if exists|k: Seq<char>| moved_to(m, k, c) {
            let k = choose|k: Seq<char>| moved_to(m, k, c) && r[c] == m[k];
        }
    }
}

/// When each import is recorded under its own specifier, then after
/// `filtered_and_cropped_deps` each is recorded under the name of its
/// package, and that name is already cropped.
pub proof fn lemma_keys_become_package_names(m: Map<Seq<char>, ImportRecord>, r: Map<Seq<char>, ImportRecord>)
    requires
        filtered_and_cropped(m, r),
        forall|k: Seq<char>| #[trigger] m.contains_key(k) ==> m[k].name == k,
    ensures
        forall|c: Seq<char>| #[trigger] r.contains_key(c) ==> crop_dependency(r[c].name) == c
            && crop_dependency(c) == c,
{
    assert forall|c: Seq<char>| #[trigger] r.contains_key(c) implies crop_dependency(r[c].name) == c
        && crop_dependency(c) == c by {
        if exists|k: Seq<char>| moved_to(m, k, c) {
            let k = choose|k: Seq<char>| moved_to(m, k, c) && r[c] == m[k];
        } else {
            assert(m.contains_key(c) && keeps_name(m[c]));
        }
        lemma_crop_idempotent(r[c].name);
    }
}

/// `filtered_and_cropped_deps` is idempotent: applied to its own result it
/// changes nothing.
pub proof fn lemma_filtered_idempotent(
    m1: Map<Seq<char>, ImportRecord>,
    m2: Map<Seq<char>, ImportRecord>,
    m3: Map<Seq<char>, ImportRecord>,
)
    requires
        filtered_and_cropped(m1, m2),
        filtered_and_cropped(m2, m3),
    ensures
        m3 == m2,
{
    lemma_filtered_records_are_settled(m1, m2);
    assert forall|c: Seq<char>, k: Seq<char>| #[trigger] moved_to(m2, k, c) implies k == c by {}
    assert forall|c: Seq<char>| #[trigger] m3.contains_key(c) <==> m2.contains_key(c) by {
        if m2.contains_key(c) && !keeps_name(m2[c]) {
            assert(moved_to(m2, c, c));
        }
    }
    assert forall|c: Seq<char>| #[trigger] m3.contains_key(c) implies m3[c] == m2[c] by {
        if exists|k: Seq<char>| moved_to(m2, k, c) {
            let k = choose|k: Seq<char>| moved_to(m2, k, c) && m3[c] == m2[k];
        }
    }
    assert(m3 =~= m2);
}


/// Every import of an npm package leaves its package recorded, however many
/// imports share the package: an import whose specifier is already its
/// package's name stays under its key, and any other leaves the name of its
/// package recorded.
pub proof fn lemma_every_npm_package_stays_recorded(m: Map<Seq<char>, ImportRecord>, r: Map<Seq<char>, ImportRecord>)
    requires
        filtered_and_cropped(m, r),
    ensures
        forall|k: Seq<char>|
            #[trigger] m.contains_key(k) && is_npm_specifier(m[k].name) ==> if crop_dependency(m[k].name)
                == m[k].name {
                r.contains_key(k)
            } else {
                r.contains_key(crop_dependency(m[k].name))
            },
{
    assert forall|k: Seq<char>| #[trigger] m.contains_key(k) && is_npm_specifier(m[k].name) implies if crop_dependency(m[k].name)
        == m[k].name {
        r.contains_key(k)
    } else {
        r.contains_key(crop_dependency(m[k].name))
    } by {
        if crop_dependency(m[k].name) != m[k].name {
            assert(moved_to(m, k, crop_dependency(m[k].name)));
        }
    }
}

/// A specifier names an npm package exactly when its first character is an
/// ASCII letter, an ASCII digit or `@` (what `PACKAGE_PATTERN` matches) and
/// it does not name a built-in module.
pub proof fn lemma_npm_specifier_by_first_character(s: Seq<char>)
    ensures
        pattern_matches(PACKAGE_PATTERN@, s) == (s.len() > 0 && (('a' <= s[0] && s[0] <= 'z') || ('A' <= s[0]
            && s[0] <= 'Z') || ('0' <= s[0] && s[0] <= '9') || s[0] == '@')),
        is_npm_specifier(s) == (s.len() > 0 && (('a' <= s[0] && s[0] <= 'z') || ('A' <= s[0] && s[0]
            <= 'Z') || ('0' <= s[0] && s[0] <= '9') || s[0] == '@') && !is_built_in_specifier(s)),
{
}


/// A built-in module's name with neither `/` nor `:` in it is a built-in
/// specifier as it stands.
proof fn lemma_plain_built_in_name(i: int)
    requires
        0 <= i < BUILT_IN@.len(),
        forall|j: int| 0 <= j < BUILT_IN@[i]@.len() ==> BUILT_IN@[i]@[j] != '/' && BUILT_IN@[i]@[j] != ':',
    ensures
        is_built_in_specifier(BUILT_IN@[i]@),
{
    let s = BUILT_IN@[i]@;
    reveal_strlit("node:");
    let p = NODE_PROTOCOL@;
    if p.len() <= s.len() && s.subrange(0, p.len() as int) == p {
        assert(s.subrange(0, p.len() as int)[4] == p[4]);
    }
    assert(strip_node_protocol(s) == s);
    lemma_index_of_from_bounds(s, '/', 0);
    assert(module_base(s) == s);
}

/// Every name in `BUILT_IN` is recognised as a built-in module, so no such
/// name counts as an npm package.
pub proof fn lemma_every_listed_module_is_built_in()
    ensures
        forall|i: int| 0 <= i < 41 ==> is_built_in_specifier(#[trigger] BUILT_IN@[i]@),
        forall|i: int| 0 <= i < 41 ==> !is_npm_specifier(#[trigger] BUILT_IN@[i]@),
{
    assert forall|i: int| 0 <= i < 41 implies is_built_in_specifier(#[trigger] BUILT_IN@[i]@) by {
        if i == 0 {
            reveal_strlit("assert");
            lemma_plain_built_in_name(i);
        }
        if i == 1 {
            reveal_strlit("async_hooks");
            lemma_plain_built_in_name(i);
        }
        if i == 2 {
            reveal_strlit("buffer");
            lemma_plain_built_in_name(i);
        }
        if i == 3 {
            reveal_strlit("child_process");
            lemma_plain_built_in_name(i);
        }
        if i == 4 {
            reveal_strlit("cluster");
            lemma_plain_built_in_name(i);
        }
        if i == 5 {
            reveal_strlit("console");
            lemma_plain_built_in_name(i);
        }
        if i == 6 {
            reveal_strlit("constants");
            lemma_plain_built_in_name(i);
        }
        if i == 7 {
            reveal_strlit("crypto");
            lemma_plain_built_in_name(i);
        }
        if i == 8 {
            reveal_strlit("dgram");
            lemma_plain_built_in_name(i);
        }
        if i == 9 {
            reveal_strlit("diagnostics_channel");
            lemma_plain_built_in_name(i);
        }
        if i == 10 {
            reveal_strlit("dns");
            lemma_plain_built_in_name(i);
        }
        if i == 11 {
            reveal_strlit("domain");
            lemma_plain_built_in_name(i);
        }
        if i == 12 {
            reveal_strlit("events");
            lemma_plain_built_in_name(i);
        }
        if i == 13 {
            reveal_strlit("fs");
            lemma_plain_built_in_name(i);
        }
        if i == 14 {
            reveal_strlit("http");
            lemma_plain_built_in_name(i);
        }
        if i == 15 {
            reveal_strlit("http2");
            lemma_plain_built_in_name(i);
        }
        if i == 16 {
            reveal_strlit("https");
            lemma_plain_built_in_name(i);
        }
        if i == 17 {
            reveal_strlit("inspector");
            lemma_plain_built_in_name(i);
        }
        if i == 18 {
            reveal_strlit("module");
            lemma_plain_built_in_name(i);
        }
        if i == 19 {
            reveal_strlit("net");
            lemma_plain_built_in_name(i);
        }
        if i == 20 {
            reveal_strlit("os");
            lemma_plain_built_in_name(i);
        }
        if i == 21 {
            reveal_strlit("path");
            lemma_plain_built_in_name(i);
        }
        if i == 22 {
            reveal_strlit("perf_hooks");
            lemma_plain_built_in_name(i);
        }
        if i == 23 {
            reveal_strlit("process");
            lemma_plain_built_in_name(i);
        }
        if i == 24 {
            reveal_strlit("punycode");
            lemma_plain_built_in_name(i);
        }
        if i == 25 {
            reveal_strlit("querystring");
            lemma_plain_built_in_name(i);
        }
        if i == 26 {
            reveal_strlit("readline");
            lemma_plain_built_in_name(i);
        }
        if i == 27 {
            reveal_strlit("repl");
            lemma_plain_built_in_name(i);
        }
        if i == 28 {
            reveal_strlit("stream");
            lemma_plain_built_in_name(i);
        }
        if i == 29 {
            reveal_strlit("string_decoder");
            lemma_plain_built_in_name(i);
        }
        if i == 30 {
            reveal_strlit("timers");
            lemma_plain_built_in_name(i);
        }
        if i == 31 {
            reveal_strlit("tls");
            lemma_plain_built_in_name(i);
        }
        if i == 32 {
            reveal_strlit("trace_events");
            lemma_plain_built_in_name(i);
        }
        if i == 33 {
            reveal_strlit("tty");
            lemma_plain_built_in_name(i);
        }
        if i == 34 {
            reveal_strlit("url");
            lemma_plain_built_in_name(i);
        }
        if i == 35 {
            reveal_strlit("util");
            lemma_plain_built_in_name(i);
        }
        if i == 36 {
            reveal_strlit("v8");
            lemma_plain_built_in_name(i);
        }
        if i == 37 {
            reveal_strlit("vm");
            lemma_plain_built_in_name(i);
        }
        if i == 38 {
            reveal_strlit("wasi");
            lemma_plain_built_in_name(i);
        }
        if i == 39 {
            reveal_strlit("worker_threads");
            lemma_plain_built_in_name(i);
        }
        if i == 40 {
            reveal_strlit("zlib");
            lemma_plain_built_in_name(i);
        }
    }
}

} // verus!
