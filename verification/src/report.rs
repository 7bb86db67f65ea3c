//! The comparison of declared and imported dependencies.

use vstd::prelude::*;
use crate::text::chars_of;

verus! {

/// `a` comes strictly before `b` in lexicographic order of characters,
/// which is the order of `String`s (UTF-8 preserves the order of code
/// points).
pub open spec fn chars_lt(a: Seq<char>, b: Seq<char>) -> bool
    decreases a.len(),
{
    if a.len() == 0 {
        b.len() > 0
    } else if b.len() == 0 {
        false
    } else if a[0] != b[0] {
        a[0] < b[0]
    } else {
        chars_lt(a.drop_first(), b.drop_first())
    }
}

/// The order is irreflexive.
pub proof fn lemma_chars_lt_irreflexive(a: Seq<char>)
    ensures
        !chars_lt(a, a),
    decreases a.len(),
{
    if a.len() > 0 {
        lemma_chars_lt_irreflexive(a.drop_first());
    }
}

/// The order is total: of two different sequences, one comes first.
pub proof fn lemma_chars_lt_total(a: Seq<char>, b: Seq<char>)
    ensures
        a != b ==> chars_lt(a, b) || chars_lt(b, a),
        !(chars_lt(a, b) && chars_lt(b, a)),
    decreases a.len(),
{
    if a.len() > 0 && b.len() > 0 && a[0] == b[0] {
        lemma_chars_lt_total(a.drop_first(), b.drop_first());
        if a.drop_first() == b.drop_first() {
            assert(a =~= seq![a[0]] + a.drop_first());
            assert(b =~= seq![b[0]] + b.drop_first());
        }
    }
    if a.len() == 0 && b.len() == 0 {
        assert(a =~= b);
    }
}

/// The order is transitive.
pub proof fn lemma_chars_lt_transitive(a: Seq<char>, b: Seq<char>, c: Seq<char>)
    requires
        chars_lt(a, b),
        chars_lt(b, c),
    ensures
        chars_lt(a, c),
    decreases a.len(),
{
    if a.len() > 0 && b.len() > 0 && c.len() > 0 && a[0] == b[0] && b[0] == c[0] {
        lemma_chars_lt_transitive(a.drop_first(), b.drop_first(), c.drop_first());
    }
}

/// Whether `a` comes strictly before `b`.
pub fn chars_less(a: &Vec<char>, b: &Vec<char>) -> (r: bool)
    ensures
        r == chars_lt(a@, b@),
{
    let mut k: usize = 0;
    assert(a@.subrange(0, a@.len() as int) =~= a@);
    assert(b@.subrange(0, b@.len() as int) =~= b@);
    while k < a.len() && k < b.len() && a[k] == b[k]
        invariant
            k <= a@.len(),
            k <= b@.len(),
            chars_lt(a@, b@) == chars_lt(a@.subrange(k as int, a@.len() as int), b@.subrange(k as int, b@.len() as int)),
        decreases a@.len() - k,
    {
        let ghost sa = a@.subrange(k as int, a@.len() as int);
        let ghost sb = b@.subrange(k as int, b@.len() as int);
        assert(sa.drop_first() =~= a@.subrange(k + 1, a@.len() as int));
        assert(sb.drop_first() =~= b@.subrange(k + 1, b@.len() as int));
        k += 1;
    }
    let ghost sa = a@.subrange(k as int, a@.len() as int);
    let ghost sb = b@.subrange(k as int, b@.len() as int);
    if k == a.len() {
        k < b.len()
    } else if k == b.len() {
        false
    } else {
        assert(sa[0] == a@[k as int]);
        assert(sb[0] == b@[k as int]);
        a[k] < b[k]
    }
}

/// The characters of each string.
pub open spec fn string_views(v: Seq<String>) -> Seq<Seq<char>> {
    v.map_values(|s: String| s@)
}

/// Each string comes strictly before the next: the list is sorted and has
/// no duplicates.
pub open spec fn strictly_sorted(v: Seq<Seq<char>>) -> bool {
    forall|i: int, j: int| 0 <= i < j < v.len() ==> chars_lt(#[trigger] v[i], #[trigger] v[j])
}

/// `v` lists, in order and once each, the strings of `from` that are not
/// in `without`.
pub open spec fn is_sorted_difference(v: Seq<Seq<char>>, from: Seq<Seq<char>>, without: Seq<Seq<char>>) -> bool {
    &&& strictly_sorted(v)
    &&& forall|x: Seq<char>| v.contains(x) <==> from.contains(x) && !without.contains(x)
}

/// Whether `v` holds a string with the characters of `s`.
fn contains_string(v: &Vec<String>, s: &String) -> (r: bool)
    ensures
        r == string_views(v@).contains(s@),
{
    let mut i: usize = 0;
    while i < v.len()
        invariant
            i <= v@.len(),
            forall|j: int| 0 <= j < i ==> (#[trigger] v@[j])@ != s@,
        decreases v@.len() - i,
    {
        if v[i] == *s {
            assert(string_views(v@)[i as int] == s@);
            return true;
        }
        i += 1;
    }
    assert forall|j: int| 0 <= j < string_views(v@).len() implies string_views(v@)[j] != s@ by {
        assert(string_views(v@)[j] == v@[j]@);
    }
    false
}

/// Inserts `s` into the strictly sorted `v`, unless it holds it already.
fn insert_sorted(v: &mut Vec<String>, s: String)
    requires
        strictly_sorted(string_views(old(v)@)),
    ensures
        strictly_sorted(string_views(final(v)@)),
        forall|x: Seq<char>| string_views(final(v)@).contains(x) <==> string_views(old(v)@).contains(x) || x == s@,
{
    let key = chars_of(s.as_str());
    let ghost before = string_views(v@);
    let mut p: usize = 0;
    while p < v.len() && chars_less(&chars_of(v[p].as_str()), &key)
        invariant
            p <= v@.len(),
            key@ == s@,
            before == string_views(v@),
            forall|q: int| 0 <= q < p ==> chars_lt(#[trigger] before[q], s@),
        decreases v@.len() - p,
    {
        assert(before[p as int] == v@[p as int]@);
        p += 1;
    }
    if p < v.len() && v[p] == s {
        assert(before[p as int] == s@);
        return;
    }
    proof {
        if p < v@.len() {
            assert(before[p as int] == v@[p as int]@);
            lemma_chars_lt_total(before[p as int], s@);
        }
    }
    v.insert(p, s);
    let ghost after = string_views(v@);
    assert(after =~= before.insert(p as int, key@));
    assert forall|i: int, j: int| 0 <= i < j < after.len() implies chars_lt(#[trigger] after[i], #[trigger] after[j]) by {
        if j == p {
        } else if i == p {
            if j > p + 1 {
                lemma_chars_lt_transitive(key@, before[p as int], before[j - 1]);
            }
        } else {
            let i0 = if i < p { i } else { i - 1 };
            let j0 = if j < p { j } else { j - 1 };
            assert(after[i] == before[i0]);
            assert(after[j] == before[j0]);
        }
    }
    assert forall|x: Seq<char>| after.contains(x) <==> before.contains(x) || x == s@ by {
        if after.contains(x) {
            let i = choose|i: int| 0 <= i < after.len() && after[i] == x;
            if i < p {
                assert(before[i] == x);
            } else if i > p {
                assert(before[i - 1] == x);
            }
        }
        if before.contains(x) {
            let i = choose|i: int| 0 <= i < before.len() && before[i] == x;
            if i < p {
                assert(after[i] == x);
            } else {
                assert(after[i + 1] == x);
            }
        }
        if x == s@ {
            assert(after[p as int] == x);
        }
    }
}

/// The strings of `from` that are not in `without`, sorted, each once.
pub fn sorted_difference(from: &Vec<String>, without: &Vec<String>) -> (r: Vec<String>)
    ensures
        is_sorted_difference(string_views(r@), string_views(from@), string_views(without@)),
{
    let mut r: Vec<String> = Vec::new();
    let mut i: usize = 0;
    while i < from.len()
        invariant
            i <= from@.len(),
            strictly_sorted(string_views(r@)),
            forall|x: Seq<char>|
                string_views(r@).contains(x) <==> string_views(from@).take(i as int).contains(x)
                    && !string_views(without@).contains(x),
        decreases from@.len() - i,
    {
        let ghost taken = string_views(from@).take(i as int);
        let ghost next = string_views(from@).take(i + 1);
        assert(next =~= taken.push(from@[i as int]@));
        if !contains_string(without, &from[i]) {
            insert_sorted(&mut r, from[i].clone());
        }
        assert forall|x: Seq<char>|
            string_views(r@).contains(x) <==> next.contains(x) && !string_views(without@).contains(x) by {
            if next.contains(x) && x != from@[i as int]@ {
                let j = choose|j: int| 0 <= j < next.len() && next[j] == x;
                assert(taken[j] == x);
            }
            if taken.contains(x) {
                let j = choose|j: int| 0 <= j < taken.len() && taken[j] == x;
                assert(next[j] == x);
            }
            if x == from@[i as int]@ {
                assert(next[i as int] == x);
            }
        }
        i += 1;
    }
    assert(string_views(from@).take(from@.len() as int) =~= string_views(from@));
    r
}

/// The dependencies that a project declares and does not import, and those
/// that it imports and does not declare, each sorted.
#[derive(Debug)]
pub struct DependencyReport {
    pub extraneous: Vec<String>,
    pub implicit: Vec<String>,
}

/// Compares the dependencies that the manifest declares with the packages
/// that the sources import: `extraneous` lists those declared and not
/// imported, `implicit` those imported and not declared.
pub fn dependency_report(declared: &Vec<String>, actual: &Vec<String>) -> (r: DependencyReport)
    ensures
        is_sorted_difference(string_views(r.extraneous@), string_views(declared@), string_views(actual@)),
        is_sorted_difference(string_views(r.implicit@), string_views(actual@), string_views(declared@)),
{
    DependencyReport {
        extraneous: sorted_difference(declared, actual),
        implicit: sorted_difference(actual, declared),
    }
}

/// No dependency is both extraneous and implicit, and none that the
/// project both declares and imports is either.
pub proof fn lemma_report_partitions(
    extraneous: Seq<Seq<char>>,
    implicit: Seq<Seq<char>>,
    declared: Seq<Seq<char>>,
    actual: Seq<Seq<char>>,
)
    requires
        is_sorted_difference(extraneous, declared, actual),
        is_sorted_difference(implicit, actual, declared),
    ensures
        forall|x: Seq<char>| !(extraneous.contains(x) && implicit.contains(x)),
        forall|x: Seq<char>| declared.contains(x) && actual.contains(x) ==> !extraneous.contains(x) && !implicit.contains(x),
        forall|x: Seq<char>| declared.contains(x) || actual.contains(x) ==> extraneous.contains(x) || implicit.contains(x) || (declared.contains(x) && actual.contains(x)),
{
}


/// The member of the JSON report that lists the extraneous dependencies.
pub const EXTRANEOUS_KEY: &'static str = "extraneous_dependencies";

/// The member of the JSON report that lists the implicit dependencies.
pub const IMPLICIT_KEY: &'static str = "implicit_dependencies";

/// The text that `serde_json::to_string_pretty` gives for a JSON object
/// with two members, each an array of strings.
pub uninterp spec fn pretty_json_of_string_lists(
    first_key: Seq<char>,
    first: Seq<Seq<char>>,
    second_key: Seq<char>,
    second: Seq<Seq<char>>,
) -> Seq<char>;

/// Builds a `serde_json::Value::Object` with the two members, each a
/// `Value::from` of its strings, and renders it with
/// `serde_json::to_string_pretty`, which does not fail on such a value.
/// The contract names the text and claims only that it is a function of
/// the keys and the strings.
#[verifier::external_body]
fn pretty_json_object(first_key: &str, first: &Vec<String>, second_key: &str, second: &Vec<String>) -> (r: String)
    ensures
        r@ == pretty_json_of_string_lists(first_key@, string_views(first@), second_key@, string_views(second@)),
{
    let mut object = serde_json::Map::new();
    object.insert(first_key.to_string(), serde_json::Value::from(first.clone()));
    object.insert(second_key.to_string(), serde_json::Value::from(second.clone()));
    serde_json::to_string_pretty(&serde_json::Value::Object(object)).unwrap()
}

/// The report as pretty-printed JSON: an object whose member
/// `extraneous_dependencies` lists the extraneous dependencies and whose
/// member `implicit_dependencies` lists the implicit ones.
pub fn report_json(report: &DependencyReport) -> (r: String)
    ensures
        r@ == pretty_json_of_string_lists(
            EXTRANEOUS_KEY@,
            string_views(report.extraneous@),
            IMPLICIT_KEY@,
            string_views(report.implicit@),
        ),
{
    pretty_json_object(EXTRANEOUS_KEY, &report.extraneous, IMPLICIT_KEY, &report.implicit)
}

} // verus!
