//! The shape of `problem.yaml`: fields the package format does not know
//! are reported, mapping by mapping, with where they are.

use vstd::prelude::*;
use crate::report::{CheckIssue, CheckReport, CheckSeverity, plain_issue};
use crate::text::{decimal, usize_to_decimal};
use serde_yml::Value;
use std::collections::VecDeque;
use crate::yaml_shape::ParsedNode::{Bool, Mapping, Null, Number, Sequence, Tagged, Text};

verus! {

/// A key of a YAML mapping: a string, or anything else.
#[derive(Clone, Debug)]
pub enum YamlKey {
    Text(String),
    Other,
}

/// A YAML value held in an arena: a mapping of keys to the values at the
/// given positions, a sequence of the values at the given positions, or
/// anything else. Tags are looked through: a tagged value is the value.
#[derive(Clone, Debug)]
pub enum YamlNode {
    Mapping(Vec<(YamlKey, usize)>),
    Sequence(Vec<usize>),
    Scalar,
}

/// A YAML document as an arena of nodes; the root is node 0. A position
/// outside the arena stands for a value that is neither mapping nor
/// sequence.
#[derive(Clone, Debug)]
pub struct YamlDoc {
    pub nodes: Vec<YamlNode>,
}

/// The entries of node `n`, when it is a mapping.
pub open spec fn node_mapping(d: YamlDoc, n: int) -> Option<Seq<(YamlKey, usize)>> {
    if 0 <= n < d.nodes@.len() {
        match d.nodes@[n] {
            YamlNode::Mapping(e) => Some(e@),
            _ => None,
        }
    } else {
        None
    }
}

/// The items of node `n`, when it is a sequence.
pub open spec fn node_sequence(d: YamlDoc, n: int) -> Option<Seq<usize>> {
    if 0 <= n < d.nodes@.len() {
        match d.nodes@[n] {
            YamlNode::Sequence(items) => Some(items@),
            _ => None,
        }
    } else {
        None
    }
}

/// The value of the first string key `key` at or after entry `i`.
pub open spec fn value_of_from(entries: Seq<(YamlKey, usize)>, key: Seq<char>, i: int) -> Option<usize>
    decreases entries.len() - i,
{
    if i < 0 || i >= entries.len() {
        None
    } else {
        match entries[i].0 {
            YamlKey::Text(k) => if k@ == key {
                Some(entries[i].1)
            } else {
                value_of_from(entries, key, i + 1)
            },
            YamlKey::Other => value_of_from(entries, key, i + 1),
        }
    }
}

/// The mapping under the first string key `key`.
pub open spec fn child_mapping(d: YamlDoc, entries: Seq<(YamlKey, usize)>, key: Seq<char>) -> Option<
    Seq<(YamlKey, usize)>,
> {
    match value_of_from(entries, key, 0) {
        Some(c) => node_mapping(d, c as int),
        None => None,
    }
}

/// The sequence under the first string key `key`.
pub open spec fn child_sequence(d: YamlDoc, entries: Seq<(YamlKey, usize)>, key: Seq<char>) -> Option<
    Seq<usize>,
> {
    match value_of_from(entries, key, 0) {
        Some(c) => node_sequence(d, c as int),
        None => None,
    }
}

/// The location of a field inside the mapping at `location`.
pub open spec fn field_location(location: Seq<char>, key: Seq<char>) -> Seq<char> {
    if location.len() == 0 {
        key
    } else {
        location + "."@ + key
    }
}

/// The warnings for the keys of one mapping that are not allowed, as
/// (message, location).
pub open spec fn unknown_key_warnings(
    entries: Seq<(YamlKey, usize)>,
    location: Seq<char>,
    allowed: Seq<Seq<char>>,
) -> Seq<(Seq<char>, Seq<char>)>
    decreases entries.len(),
{
    if entries.len() == 0 {
        Seq::empty()
    } else {
        unknown_key_warnings(entries.drop_last(), location, allowed) + match entries.last().0 {
            YamlKey::Text(k) => if allowed.contains(k@) {
                Seq::empty()
            } else {
                seq![("unknown problem.yaml field `"@ + k@ + "`"@, field_location(location, k@))]
            },
            YamlKey::Other => seq![("non-string YAML key is ignored by cptool"@, if location.len() == 0 {
                "<root>"@
            } else {
                location
            })],
        }
    }
}

pub open spec fn root_keys() -> Seq<Seq<char>> {
    seq![
        "name"@,
        "time_limit_secs"@,
        "memory_limit_mb"@,
        "cpp_compile_args"@,
        "output"@,
        "stress"@,
        "programs"@,
        "test"@,
        "solution"@,
        "validator"@,
        "validator_omitted_reason"@,
        "checker"@,
        "generator"@,
    ]
}

pub open spec fn output_keys() -> Seq<Seq<char>> {
    seq!["allow_empty"@]
}

pub open spec fn program_keys() -> Seq<Seq<char>> {
    seq!["info"@, "time_limit_secs"@, "memory_limit_mb"@]
}

pub open spec fn info_keys() -> Seq<Seq<char>> {
    seq!["path"@, "compile_args"@, "extra_args"@]
}

pub open spec fn test_keys() -> Seq<Seq<char>> {
    seq!["generator"@, "type"@, "bundles"@, "tasks"@]
}

pub open spec fn bundle_keys() -> Seq<Seq<char>> {
    seq!["generator"@, "cases"@]
}

pub open spec fn case_keys() -> Seq<Seq<char>> {
    seq!["generator"@, "args"@]
}

pub open spec fn task_keys() -> Seq<Seq<char>> {
    seq!["name"@, "score"@, "type"@, "bundles"@, "dependencies"@]
}

pub open spec fn stress_keys() -> Seq<Seq<char>> {
    seq!["plans"@]
}

pub open spec fn plan_keys() -> Seq<Seq<char>> {
    seq!["name"@, "generator"@, "args"@, "against"@, "cases"@, "expect"@]
}

/// The warnings for the mappings among the items of a sequence at
/// `prefix`; item `i` is at `prefix[i]`.
pub open spec fn item_warnings(
    d: YamlDoc,
    items: Seq<usize>,
    prefix: Seq<char>,
    allowed: Seq<Seq<char>>,
) -> Seq<(Seq<char>, Seq<char>)>
    decreases items.len(),
{
    if items.len() == 0 {
        Seq::empty()
    } else {
        item_warnings(d, items.drop_last(), prefix, allowed) + match node_mapping(d, items.last() as int) {
            Some(m) => unknown_key_warnings(m, prefix + "["@ + decimal((items.len() - 1) as nat) + "]"@, allowed),
            None => Seq::empty(),
        }
    }
}

/// The warnings for one program under `programs.<name>`.
pub open spec fn one_program_warnings(d: YamlDoc, name: Seq<char>, program: Seq<(YamlKey, usize)>) -> Seq<
    (Seq<char>, Seq<char>),
> {
    let location = "programs."@ + name;
    unknown_key_warnings(program, location, program_keys()) + match child_mapping(d, program, "info"@) {
        Some(info) => unknown_key_warnings(info, location + ".info"@, info_keys()),
        None => Seq::empty(),
    }
}

/// The warnings for the programs, in the order of their entries.
pub open spec fn program_warnings(d: YamlDoc, entries: Seq<(YamlKey, usize)>) -> Seq<(Seq<char>, Seq<char>)>
    decreases entries.len(),
{
    if entries.len() == 0 {
        Seq::empty()
    } else {
        program_warnings(d, entries.drop_last()) + match entries.last().0 {
            YamlKey::Text(name) => match node_mapping(d, entries.last().1 as int) {
                Some(p) => one_program_warnings(d, name@, p),
                None => Seq::empty(),
            },
            YamlKey::Other => Seq::empty(),
        }
    }
}

/// The warnings for one bundle under `test.bundles.<name>`.
pub open spec fn one_bundle_warnings(d: YamlDoc, name: Seq<char>, bundle: Seq<(YamlKey, usize)>) -> Seq<
    (Seq<char>, Seq<char>),
> {
    let location = "test.bundles."@ + name;
    unknown_key_warnings(bundle, location, bundle_keys()) + match child_sequence(d, bundle, "cases"@) {
        Some(cases) => item_warnings(d, cases, location + ".cases"@, case_keys()),
        None => Seq::empty(),
    }
}

/// The warnings for the bundles, in the order of their entries.
pub open spec fn bundle_warnings(d: YamlDoc, entries: Seq<(YamlKey, usize)>) -> Seq<(Seq<char>, Seq<char>)>
    decreases entries.len(),
{
    if entries.len() == 0 {
        Seq::empty()
    } else {
        bundle_warnings(d, entries.drop_last()) + match entries.last().0 {
            YamlKey::Text(name) => match node_mapping(d, entries.last().1 as int) {
                Some(b) => one_bundle_warnings(d, name@, b),
                None => Seq::empty(),
            },
            YamlKey::Other => Seq::empty(),
        }
    }
}

/// The warnings under `test`.
pub open spec fn test_warnings(d: YamlDoc, test: Seq<(YamlKey, usize)>) -> Seq<(Seq<char>, Seq<char>)> {
    unknown_key_warnings(test, "test"@, test_keys()) + match child_mapping(d, test, "bundles"@) {
        Some(b) => bundle_warnings(d, b),
        None => Seq::empty(),
    } + match child_sequence(d, test, "tasks"@) {
        Some(t) => item_warnings(d, t, "test.tasks"@, task_keys()),
        None => Seq::empty(),
    }
}

/// The warnings under `stress`.
pub open spec fn stress_warnings(d: YamlDoc, stress: Seq<(YamlKey, usize)>) -> Seq<(Seq<char>, Seq<char>)> {
    unknown_key_warnings(stress, "stress"@, stress_keys()) + match child_sequence(d, stress, "plans"@) {
        Some(p) => item_warnings(d, p, "stress.plans"@, plan_keys()),
        None => Seq::empty(),
    }
}

/// Every warning about `problem.yaml`, in the order the check reports
/// them: the root, `output`, the programs, `test`, then `stress`. A
/// document whose root is not a mapping gives none.
pub open spec fn yaml_field_warnings(d: YamlDoc) -> Seq<(Seq<char>, Seq<char>)> {
    match node_mapping(d, 0) {
        Some(root) => unknown_key_warnings(root, ""@, root_keys()) + match child_mapping(d, root, "output"@) {
            Some(o) => unknown_key_warnings(o, "output"@, output_keys()),
            None => Seq::empty(),
        } + match child_mapping(d, root, "programs"@) {
            Some(p) => program_warnings(d, p),
            None => Seq::empty(),
        } + match child_mapping(d, root, "test"@) {
            Some(t) => test_warnings(d, t),
            None => Seq::empty(),
        } + match child_mapping(d, root, "stress"@) {
            Some(s) => stress_warnings(d, s),
            None => Seq::empty(),
        },
        None => Seq::empty(),
    }
}

/// `issues` are warnings `unknown_field` in the file at `path`, with the
/// given messages and locations.
pub open spec fn issues_are_unknown_fields(
    issues: Seq<CheckIssue>,
    path: Seq<char>,
    expected: Seq<(Seq<char>, Seq<char>)>,
) -> bool {
    &&& issues.len() == expected.len()
    &&& forall|i: int|
        0 <= i < issues.len() ==> plain_issue(
            CheckSeverity::Warning,
            "unknown_field"@,
            expected[i].0,
            Some(path),
            Some(expected[i].1),
            #[trigger] issues[i],
        )
}

/// `after` is `before` with warnings for `expected` appended.
pub open spec fn appended(
    before: Seq<CheckIssue>,
    after: Seq<CheckIssue>,
    path: Seq<char>,
    expected: Seq<(Seq<char>, Seq<char>)>,
) -> bool {
    &&& after.len() >= before.len()
    &&& after.subrange(0, before.len() as int) == before
    &&& issues_are_unknown_fields(after.skip(before.len() as int), path, expected)
}

proof fn lemma_appended_trans(
    a: Seq<CheckIssue>,
    b: Seq<CheckIssue>,
    c: Seq<CheckIssue>,
    path: Seq<char>,
    e1: Seq<(Seq<char>, Seq<char>)>,
    e2: Seq<(Seq<char>, Seq<char>)>,
)
    requires
        appended(a, b, path, e1),
        appended(b, c, path, e2),
    ensures
        appended(a, c, path, e1 + e2),
{
    assert(c.subrange(0, a.len() as int) =~= b.subrange(0, a.len() as int));
    let s = c.skip(a.len() as int);
    let e = e1 + e2;
    assert forall|i: int| 0 <= i < s.len() implies plain_issue(
        CheckSeverity::Warning,
        "unknown_field"@,
        e[i].0,
        Some(path),
        Some(e[i].1),
        #[trigger] s[i],
    ) by {
        if i < e1.len() {
            assert(s[i] == b.skip(a.len() as int)[i]);
        } else {
            assert(s[i] == c.skip(b.len() as int)[i - e1.len()]);
        }
    }
}

proof fn lemma_appended_none(a: Seq<CheckIssue>, path: Seq<char>)
    ensures
        appended(a, a, path, Seq::empty()),
{
    assert(a.subrange(0, a.len() as int) =~= a);
}

/// Positions of the string key `key`'s first entry, and its value.
fn value_of(entries: &Vec<(YamlKey, usize)>, key: &String) -> (r: Option<usize>)
    ensures
        r == value_of_from(entries@, key@, 0),
{
    let mut i: usize = 0;
    while i < entries.len()
        invariant
            i <= entries@.len(),
            value_of_from(entries@, key@, 0) == value_of_from(entries@, key@, i as int),
        decreases entries@.len() - i,
    {
        match &entries[i].0 {
            YamlKey::Text(k) => {
                if *k == *key {
                    return Some(entries[i].1);
                }
            },
            YamlKey::Other => {},
        }
        i = i + 1;
    }
    None
}

fn mapping_at(doc: &YamlDoc, n: usize) -> (r: Option<&Vec<(YamlKey, usize)>>)
    ensures
        match r {
            Some(e) => node_mapping(*doc, n as int) == Some(e@),
            None => node_mapping(*doc, n as int) is None,
        },
{
    if n < doc.nodes.len() {
        match &doc.nodes[n] {
            YamlNode::Mapping(e) => Some(e),
            _ => None,
        }
    } else {
        None
    }
}

fn sequence_at(doc: &YamlDoc, n: usize) -> (r: Option<&Vec<usize>>)
    ensures
        match r {
            Some(e) => node_sequence(*doc, n as int) == Some(e@),
            None => node_sequence(*doc, n as int) is None,
        },
{
    if n < doc.nodes.len() {
        match &doc.nodes[n] {
            YamlNode::Sequence(e) => Some(e),
            _ => None,
        }
    } else {
        None
    }
}

fn child_mapping_of<'a>(doc: &'a YamlDoc, entries: &Vec<(YamlKey, usize)>, key: &str) -> (r: Option<
    &'a Vec<(YamlKey, usize)>,
>)
    ensures
        match r {
            Some(e) => child_mapping(*doc, entries@, key@) == Some(e@),
            None => child_mapping(*doc, entries@, key@) is None,
        },
{
    match value_of(entries, &key.to_string()) {
        Some(c) => mapping_at(doc, c),
        None => None,
    }
}

fn child_sequence_of<'a>(doc: &'a YamlDoc, entries: &Vec<(YamlKey, usize)>, key: &str) -> (r: Option<
    &'a Vec<usize>,
>)
    ensures
        match r {
            Some(e) => child_sequence(*doc, entries@, key@) == Some(e@),
            None => child_sequence(*doc, entries@, key@) is None,
        },
{
    match value_of(entries, &key.to_string()) {
        Some(c) => sequence_at(doc, c),
        None => None,
    }
}

fn contains_key(allowed: &Vec<&str>, key: &String) -> (b: bool)
    ensures
        b == allowed@.map_values(|s: &str| s@).contains(key@),
{
    let ghost names = allowed@.map_values(|s: &str| s@);
    let mut i: usize = 0;
    while i < allowed.len()
        invariant
            i <= allowed@.len(),
            names == allowed@.map_values(|s: &str| s@),
            forall|j: int| 0 <= j < i ==> #[trigger] names[j] != key@,
        decreases allowed@.len() - i,
    {
        if allowed[i].to_string() == *key {
            assert(names[i as int] == key@);
            return true;
        }
        i = i + 1;
    }
    false
}

/// Reports every key of a mapping that is not among the allowed ones.
pub fn warn_unknown_keys(
    report: &mut CheckReport,
    path: &String,
    entries: &Vec<(YamlKey, usize)>,
    location: &String,
    allowed: &Vec<&str>,
)
    ensures
        final(report).work_dir == old(report).work_dir,
        appended(
            old(report).issues@,
            final(report).issues@,
            path@,
            unknown_key_warnings(entries@, location@, allowed@.map_values(|s: &str| s@)),
        ),
{
    proof {
        reveal_strlit("<root>");
    }
    let ghost start = report.issues@;
    let ghost allowed_v = allowed@.map_values(|s: &str| s@);
    proof {
        lemma_appended_none(start, path@);
        assert(entries@.take(0) =~= Seq::<(YamlKey, usize)>::empty());
    }
    let mut i: usize = 0;
    while i < entries.len()
        invariant
            i <= entries@.len(),
            allowed_v == allowed@.map_values(|s: &str| s@),
            report.work_dir == old(report).work_dir,
            start == old(report).issues@,
            appended(start, report.issues@, path@, unknown_key_warnings(entries@.take(i as int), location@, allowed_v)),
        decreases entries@.len() - i,
    {
        assert(entries@.take(i + 1).drop_last() =~= entries@.take(i as int));
        assert(entries@.take(i + 1).last() == entries@[i as int]);
        let ghost before = report.issues@;
        let ghost step: Seq<(Seq<char>, Seq<char>)> = match entries@[i as int].0 {
            YamlKey::Text(k) => if allowed_v.contains(k@) {
                Seq::empty()
            } else {
                seq![("unknown problem.yaml field `"@ + k@ + "`"@, field_location(location@, k@))]
            },
            YamlKey::Other => seq![("non-string YAML key is ignored by cptool"@, if location@.len() == 0 {
                "<root>"@
            } else {
                location@
            })],
        };
        match &entries[i].0 {
            YamlKey::Text(k) => {
                if !contains_key(allowed, k) {
                    let mut message = String::from_str("unknown problem.yaml field `");
                    message.append(k.as_str());
                    message.append("`");
                    let field = if location.as_str().is_empty() {
                        k.clone()
                    } else {
                        let mut f = location.clone();
                        f.append(".");
                        f.append(k.as_str());
                        f
                    };
                    report.warning_at(String::from_str("unknown_field"), message, Some(path.clone()), field);
                }
            },
            YamlKey::Other => {
                let place = if location.as_str().is_empty() {
                    String::from_str("<root>")
                } else {
                    location.clone()
                };
                report.warning_at(
                    String::from_str("unknown_field"),
                    String::from_str("non-string YAML key is ignored by cptool"),
                    Some(path.clone()),
                    place,
                );
            },
        }
        proof {
            let now = report.issues@;
            if step.len() == 0 {
                assert(now == before);
                lemma_appended_none(before, path@);
            } else {
                assert(now.subrange(0, before.len() as int) =~= before);
                assert(now.skip(before.len() as int) =~= seq![now.last()]);
            }
            lemma_appended_trans(start, before, now, path@, unknown_key_warnings(entries@.take(i as int), location@, allowed_v), step);
        }
        i = i + 1;
    }
    assert(entries@.take(i as int) =~= entries@);
}


fn keys_of(which: u8) -> (r: Vec<&'static str>)
    ensures
        which == 0 ==> r@.map_values(|s: &str| s@) == root_keys(),
        which == 1 ==> r@.map_values(|s: &str| s@) == output_keys(),
        which == 2 ==> r@.map_values(|s: &str| s@) == program_keys(),
        which == 3 ==> r@.map_values(|s: &str| s@) == info_keys(),
        which == 4 ==> r@.map_values(|s: &str| s@) == test_keys(),
        which == 5 ==> r@.map_values(|s: &str| s@) == bundle_keys(),
        which == 6 ==> r@.map_values(|s: &str| s@) == case_keys(),
        which == 7 ==> r@.map_values(|s: &str| s@) == task_keys(),
        which == 8 ==> r@.map_values(|s: &str| s@) == stress_keys(),
        which == 9 ==> r@.map_values(|s: &str| s@) == plan_keys(),
{
    let r: Vec<&'static str> = if which == 0 {
        vec![
            "name",
            "time_limit_secs",
            "memory_limit_mb",
            "cpp_compile_args",
            "output",
            "stress",
            "programs",
            "test",
            "solution",
            "validator",
            "validator_omitted_reason",
            "checker",
            "generator",
        ]
    } else if which == 1 {
        vec!["allow_empty"]
    } else if which == 2 {
        vec!["info", "time_limit_secs", "memory_limit_mb"]
    } else if which == 3 {
        vec!["path", "compile_args", "extra_args"]
    } else if which == 4 {
        vec!["generator", "type", "bundles", "tasks"]
    } else if which == 5 {
        vec!["generator", "cases"]
    } else if which == 6 {
        vec!["generator", "args"]
    } else if which == 7 {
        vec!["name", "score", "type", "bundles", "dependencies"]
    } else if which == 8 {
        vec!["plans"]
    } else {
        vec!["name", "generator", "args", "against", "cases", "expect"]
    };
    assert(which == 0 ==> r@.map_values(|s: &str| s@) =~= root_keys());
    assert(which == 1 ==> r@.map_values(|s: &str| s@) =~= output_keys());
    assert(which == 2 ==> r@.map_values(|s: &str| s@) =~= program_keys());
    assert(which == 3 ==> r@.map_values(|s: &str| s@) =~= info_keys());
    assert(which == 4 ==> r@.map_values(|s: &str| s@) =~= test_keys());
    assert(which == 5 ==> r@.map_values(|s: &str| s@) =~= bundle_keys());
    assert(which == 6 ==> r@.map_values(|s: &str| s@) =~= case_keys());
    assert(which == 7 ==> r@.map_values(|s: &str| s@) =~= task_keys());
    assert(which == 8 ==> r@.map_values(|s: &str| s@) =~= stress_keys());
    assert(which == 9 ==> r@.map_values(|s: &str| s@) =~= plan_keys());
    r
}

/// Reports the unknown keys of every mapping among the items of a
/// sequence; item `i` is at `prefix[i]`.
fn warn_items(
    report: &mut CheckReport,
    path: &String,
    doc: &YamlDoc,
    items: &Vec<usize>,
    prefix: &String,
    allowed: &Vec<&str>,
)
    ensures
        final(report).work_dir == old(report).work_dir,
        appended(
            old(report).issues@,
            final(report).issues@,
            path@,
            item_warnings(*doc, items@, prefix@, allowed@.map_values(|s: &str| s@)),
        ),
{
    let ghost start = report.issues@;
    let ghost allowed_v = allowed@.map_values(|s: &str| s@);
    proof {
        lemma_appended_none(start, path@);
        assert(items@.take(0) =~= Seq::<usize>::empty());
    }
    let mut i: usize = 0;
    while i < items.len()
        invariant
            i <= items@.len(),
            allowed_v == allowed@.map_values(|s: &str| s@),
            report.work_dir == old(report).work_dir,
            start == old(report).issues@,
            appended(start, report.issues@, path@, item_warnings(*doc, items@.take(i as int), prefix@, allowed_v)),
        decreases items@.len() - i,
    {
        assert(items@.take(i + 1).drop_last() =~= items@.take(i as int));
        assert(items@.take(i + 1).last() == items@[i as int]);
        let ghost before = report.issues@;
        match mapping_at(doc, items[i]) {
            Some(m) => {
                let mut location = prefix.clone();
                location.append("[");
                let number = usize_to_decimal(i);
                location.append(number.as_str());
                location.append("]");
                warn_unknown_keys(report, path, m, &location, allowed);
                proof {
                    lemma_appended_trans(
                        start,
                        before,
                        report.issues@,
                        path@,
                        item_warnings(*doc, items@.take(i as int), prefix@, allowed_v),
                        unknown_key_warnings(m@, location@, allowed_v),
                    );
                }
            },
            None => {
                proof {
                    lemma_appended_none(before, path@);
                    lemma_appended_trans(
                        start,
                        before,
                        before,
                        path@,
                        item_warnings(*doc, items@.take(i as int), prefix@, allowed_v),
                        Seq::empty(),
                    );
                }
            },
        }
        i = i + 1;
    }
    assert(items@.take(i as int) =~= items@);
}

/// Reports the unknown keys of every program and of its `info`.
fn warn_programs(report: &mut CheckReport, path: &String, doc: &YamlDoc, entries: &Vec<(YamlKey, usize)>)
    ensures
        final(report).work_dir == old(report).work_dir,
        appended(old(report).issues@, final(report).issues@, path@, program_warnings(*doc, entries@)),
{
    let ghost start = report.issues@;
    let program_allowed = keys_of(2);
    let info_allowed = keys_of(3);
    proof {
        lemma_appended_none(start, path@);
        assert(entries@.take(0) =~= Seq::<(YamlKey, usize)>::empty());
    }
    let mut i: usize = 0;
    while i < entries.len()
        invariant
            i <= entries@.len(),
            program_allowed@.map_values(|s: &str| s@) == program_keys(),
            info_allowed@.map_values(|s: &str| s@) == info_keys(),
            report.work_dir == old(report).work_dir,
            start == old(report).issues@,
            appended(start, report.issues@, path@, program_warnings(*doc, entries@.take(i as int))),
        decreases entries@.len() - i,
    {
        assert(entries@.take(i + 1).drop_last() =~= entries@.take(i as int));
        assert(entries@.take(i + 1).last() == entries@[i as int]);
        let ghost before = report.issues@;
        let mut step_done = false;
        match &entries[i].0 {
            YamlKey::Text(name) => {
                match mapping_at(doc, entries[i].1) {
                    Some(program) => {
                        let mut location = String::from_str("programs.");
                        location.append(name.as_str());
                        warn_unknown_keys(report, path, program, &location, &program_allowed);
                        let ghost middle = report.issues@;
                        proof {
                            lemma_appended_trans(
                                start,
                                before,
                                middle,
                                path@,
                                program_warnings(*doc, entries@.take(i as int)),
                                unknown_key_warnings(program@, location@, program_keys()),
                            );
                        }
                        match child_mapping_of(doc, program, "info") {
                            Some(info) => {
                                let mut info_location = location.clone();
                                info_location.append(".info");
                                warn_unknown_keys(report, path, info, &info_location, &info_allowed);
                                proof {
                                    lemma_appended_trans(
                                        start,
                                        middle,
                                        report.issues@,
                                        path@,
                                        program_warnings(*doc, entries@.take(i as int)) + unknown_key_warnings(
                                            program@,
                                            location@,
                                            program_keys(),
                                        ),
                                        unknown_key_warnings(info@, info_location@, info_keys()),
                                    );
                                    assert(program_warnings(*doc, entries@.take(i + 1)) =~= program_warnings(
                                        *doc,
                                        entries@.take(i as int),
                                    ) + unknown_key_warnings(program@, location@, program_keys())
                                        + unknown_key_warnings(info@, info_location@, info_keys()));
                                }
                            },
                            None => {
                                proof {
                                    assert(program_warnings(*doc, entries@.take(i + 1)) =~= program_warnings(
                                        *doc,
                                        entries@.take(i as int),
                                    ) + unknown_key_warnings(program@, location@, program_keys()));
                                }
                            },
                        }
                        step_done = true;
                    },
                    None => {},
                }
            },
            YamlKey::Other => {},
        }
        proof {
            if !step_done {
                assert(program_warnings(*doc, entries@.take(i + 1)) =~= program_warnings(
                    *doc,
                    entries@.take(i as int),
                ));
            }
        }
        i = i + 1;
    }
    assert(entries@.take(i as int) =~= entries@);
}


/// Reports the unknown keys of every bundle and of each of its cases.
fn warn_bundles(report: &mut CheckReport, path: &String, doc: &YamlDoc, entries: &Vec<(YamlKey, usize)>)
    ensures
        final(report).work_dir == old(report).work_dir,
        appended(old(report).issues@, final(report).issues@, path@, bundle_warnings(*doc, entries@)),
{
    let ghost start = report.issues@;
    let bundle_allowed = keys_of(5);
    let case_allowed = keys_of(6);
    proof {
        lemma_appended_none(start, path@);
        assert(entries@.take(0) =~= Seq::<(YamlKey, usize)>::empty());
    }
    let mut i: usize = 0;
    while i < entries.len()
        invariant
            i <= entries@.len(),
            bundle_allowed@.map_values(|s: &str| s@) == bundle_keys(),
            case_allowed@.map_values(|s: &str| s@) == case_keys(),
            report.work_dir == old(report).work_dir,
            start == old(report).issues@,
            appended(start, report.issues@, path@, bundle_warnings(*doc, entries@.take(i as int))),
        decreases entries@.len() - i,
    {
        assert(entries@.take(i + 1).drop_last() =~= entries@.take(i as int));
        assert(entries@.take(i + 1).last() == entries@[i as int]);
        let ghost before = report.issues@;
        let mut step_done = false;
        match &entries[i].0 {
            YamlKey::Text(name) => {
                match mapping_at(doc, entries[i].1) {
                    Some(bundle) => {
                        let mut location = String::from_str("test.bundles.");
                        location.append(name.as_str());
                        warn_unknown_keys(report, path, bundle, &location, &bundle_allowed);
                        let ghost middle = report.issues@;
                        proof {
                            lemma_appended_trans(
                                start,
                                before,
                                middle,
                                path@,
                                bundle_warnings(*doc, entries@.take(i as int)),
                                unknown_key_warnings(bundle@, location@, bundle_keys()),
                            );
                        }
                        match child_sequence_of(doc, bundle, "cases") {
                            Some(cases) => {
                                let mut prefix = location.clone();
                                prefix.append(".cases");
                                warn_items(report, path, doc, cases, &prefix, &case_allowed);
                                proof {
                                    lemma_appended_trans(
                                        start,
                                        middle,
                                        report.issues@,
                                        path@,
                                        bundle_warnings(*doc, entries@.take(i as int)) + unknown_key_warnings(
                                            bundle@,
                                            location@,
                                            bundle_keys(),
                                        ),
                                        item_warnings(*doc, cases@, prefix@, case_keys()),
                                    );
                                    assert(bundle_warnings(*doc, entries@.take(i + 1)) =~= bundle_warnings(
                                        *doc,
                                        entries@.take(i as int),
                                    ) + unknown_key_warnings(bundle@, location@, bundle_keys())
                                        + item_warnings(*doc, cases@, prefix@, case_keys()));
                                }
                            },
                            None => {
                                proof {
                                    assert(bundle_warnings(*doc, entries@.take(i + 1)) =~= bundle_warnings(
                                        *doc,
                                        entries@.take(i as int),
                                    ) + unknown_key_warnings(bundle@, location@, bundle_keys()));
                                }
                            },
                        }
                        step_done = true;
                    },
                    None => {},
                }
            },
            YamlKey::Other => {},
        }
        proof {
            if !step_done {
                assert(bundle_warnings(*doc, entries@.take(i + 1)) =~= bundle_warnings(
                    *doc,
                    entries@.take(i as int),
                ));
            }
        }
        i = i + 1;
    }
    assert(entries@.take(i as int) =~= entries@);
}

/// Reports every field of `problem.yaml` that the package format does
/// not know, with where it stands; `path` is the file's path as it is
/// shown.
pub fn check_unknown_yaml_fields(report: &mut CheckReport, path: &String, doc: &YamlDoc)
    ensures
        final(report).work_dir == old(report).work_dir,
        appended(old(report).issues@, final(report).issues@, path@, yaml_field_warnings(*doc)),
{
    let ghost start = report.issues@;
    let root = match mapping_at(doc, 0) {
        Some(root) => root,
        None => {
            proof {
                lemma_appended_none(start, path@);
            }
            return;
        },
    };
    let root_allowed = keys_of(0);
    let empty = String::new();
    proof {
        reveal_strlit("");
        assert(empty@ =~= ""@);
    }
    warn_unknown_keys(report, path, root, &empty, &root_allowed);
    let ghost e_root = unknown_key_warnings(root@, ""@, root_keys());
    let ghost after_root = report.issues@;

    let ghost e_output: Seq<(Seq<char>, Seq<char>)> = match child_mapping(*doc, root@, "output"@) {
        Some(o) => unknown_key_warnings(o, "output"@, output_keys()),
        None => Seq::empty(),
    };
    match child_mapping_of(doc, root, "output") {
        Some(output) => {
            let allowed = keys_of(1);
            let location = String::from_str("output");
            warn_unknown_keys(report, path, output, &location, &allowed);
        },
        None => {
            proof {
                lemma_appended_none(after_root, path@);
            }
        },
    }
    let ghost after_output = report.issues@;
    proof {
        lemma_appended_trans(start, after_root, after_output, path@, e_root, e_output);
    }

    let ghost e_programs: Seq<(Seq<char>, Seq<char>)> = match child_mapping(*doc, root@, "programs"@) {
        Some(p) => program_warnings(*doc, p),
        None => Seq::empty(),
    };
    match child_mapping_of(doc, root, "programs") {
        Some(programs) => {
            warn_programs(report, path, doc, programs);
        },
        None => {
            proof {
                lemma_appended_none(after_output, path@);
            }
        },
    }
    let ghost after_programs = report.issues@;
    proof {
        lemma_appended_trans(start, after_output, after_programs, path@, e_root + e_output, e_programs);
    }

    let ghost e_test: Seq<(Seq<char>, Seq<char>)> = match child_mapping(*doc, root@, "test"@) {
        Some(t) => test_warnings(*doc, t),
        None => Seq::empty(),
    };
    match child_mapping_of(doc, root, "test") {
        Some(test) => {
            let allowed = keys_of(4);
            let location = String::from_str("test");
            warn_unknown_keys(report, path, test, &location, &allowed);
            let ghost t1 = report.issues@;
            let ghost e_bundles: Seq<(Seq<char>, Seq<char>)> = match child_mapping(*doc, test@, "bundles"@) {
                Some(b) => bundle_warnings(*doc, b),
                None => Seq::empty(),
            };
            match child_mapping_of(doc, test, "bundles") {
                Some(bundles) => {
                    warn_bundles(report, path, doc, bundles);
                },
                None => {
                    proof {
                        lemma_appended_none(t1, path@);
                    }
                },
            }
            let ghost t2 = report.issues@;
            let ghost e_tasks: Seq<(Seq<char>, Seq<char>)> = match child_sequence(*doc, test@, "tasks"@) {
                Some(t) => item_warnings(*doc, t, "test.tasks"@, task_keys()),
                None => Seq::empty(),
            };
            match child_sequence_of(doc, test, "tasks") {
                Some(tasks) => {
                    let task_allowed = keys_of(7);
                    let prefix = String::from_str("test.tasks");
                    warn_items(report, path, doc, tasks, &prefix, &task_allowed);
                },
                None => {
                    proof {
                        lemma_appended_none(t2, path@);
                    }
                },
            }
            proof {
                let e_head = unknown_key_warnings(test@, "test"@, test_keys());
                lemma_appended_trans(after_programs, t1, t2, path@, e_head, e_bundles);
                lemma_appended_trans(after_programs, t2, report.issues@, path@, e_head + e_bundles, e_tasks);
            }
        },
        None => {
            proof {
                lemma_appended_none(after_programs, path@);
            }
        },
    }
    let ghost after_test = report.issues@;
    proof {
        lemma_appended_trans(start, after_programs, after_test, path@, e_root + e_output + e_programs, e_test);
    }

    let ghost e_stress: Seq<(Seq<char>, Seq<char>)> = match child_mapping(*doc, root@, "stress"@) {
        Some(s) => stress_warnings(*doc, s),
        None => Seq::empty(),
    };
    match child_mapping_of(doc, root, "stress") {
        Some(stress) => {
            let allowed = keys_of(8);
            let location = String::from_str("stress");
            warn_unknown_keys(report, path, stress, &location, &allowed);
            let ghost s1 = report.issues@;
            let ghost e_plans: Seq<(Seq<char>, Seq<char>)> = match child_sequence(*doc, stress@, "plans"@) {
                Some(p) => item_warnings(*doc, p, "stress.plans"@, plan_keys()),
                None => Seq::empty(),
            };
            match child_sequence_of(doc, stress, "plans") {
                Some(plans) => {
                    let plan_allowed = keys_of(9);
                    let prefix = String::from_str("stress.plans");
                    warn_items(report, path, doc, plans, &prefix, &plan_allowed);
                },
                None => {
                    proof {
                        lemma_appended_none(s1, path@);
                    }
                },
            }
            proof {
                lemma_appended_trans(
                    after_test,
                    s1,
                    report.issues@,
                    path@,
                    unknown_key_warnings(stress@, "stress"@, stress_keys()),
                    e_plans,
                );
            }
        },
        None => {
            proof {
                lemma_appended_none(after_test, path@);
            }
        },
    }
    proof {
        lemma_appended_trans(
            start,
            after_test,
            report.issues@,
            path@,
            e_root + e_output + e_programs + e_test,
            e_stress,
        );
    }
}

/// One value of a parsed YAML document, its children left out: a null, a
/// boolean, a number, a string, a sequence of so many items, a mapping with
/// these string keys, or a tag on one value.
#[derive(Clone, Debug)]
pub enum ParsedNode {
    Null,
    Bool(bool),
    Number,
    Text(String),
    Sequence(usize),
    Mapping(Vec<String>),
    Tagged,
}

/// How many children a value has: the items of a sequence, the values of
/// a mapping, the value under a tag.
pub open spec fn child_count(n: ParsedNode) -> nat {
    match n {
        ParsedNode::Sequence(k) => k as nat,
        ParsedNode::Mapping(keys) => keys@.len(),
        ParsedNode::Tagged => 1,
        _ => 0,
    }
}

/// Where the children of value `i` stand when the values are listed
/// breadth first: after the root and after the children of every value
/// listed before `i`.
pub open spec fn children_start(ns: Seq<ParsedNode>, i: int) -> int
    decreases i,
{
    if i <= 0 {
        1
    } else {
        children_start(ns, i - 1) + child_count(ns[i - 1])
    }
}

/// The values form one tree listed breadth first: there is a root, the
/// children of the values add up to all the other values, and every value
/// has its children after it.
pub open spec fn breadth_first(ns: Seq<ParsedNode>) -> bool {
    &&& ns.len() > 0
    &&& children_start(ns, ns.len() as int) == ns.len()
    &&& forall|i: int| 0 <= i < ns.len() ==> i < #[trigger] children_start(ns, i)
}

/// The value that value `i` is once its tags are looked through.
pub open spec fn untagged(ns: Seq<ParsedNode>, i: int) -> int
    decreases ns.len() - i,
{
    if 0 <= i < ns.len() && ns[i] is Tagged && i < children_start(ns, i) && children_start(ns, i)
        < ns.len() {
        untagged(ns, children_start(ns, i))
    } else {
        i
    }
}

/// `node` holds value `r` of the listing: a mapping of its keys to the
/// positions of its values, a sequence of the positions of its items, or
/// a scalar for anything else.
pub open spec fn holds_value(ns: Seq<ParsedNode>, r: int, node: YamlNode) -> bool {
    let start = children_start(ns, r);
    if 0 <= r < ns.len() {
        match ns[r] {
            ParsedNode::Mapping(keys) => match node {
                YamlNode::Mapping(e) => e@.len() == keys@.len() && forall|t: int|
                    0 <= t < e@.len() ==> #[trigger] e@[t] == (YamlKey::Text(keys@[t]), (start
                        + t) as usize),
                _ => false,
            },
            ParsedNode::Sequence(k) => match node {
                YamlNode::Sequence(items) => items@.len() == k && forall|t: int|
                    0 <= t < items@.len() ==> #[trigger] items@[t] == start + t,
                _ => false,
            },
            _ => node is Scalar,
        }
    } else {
        node is Scalar
    }
}

/// `d` lays out the values listed breadth first: one node per value, each
/// holding the value it is once its tags are looked through.
pub open spec fn laid_out(ns: Seq<ParsedNode>, d: YamlDoc) -> bool {
    d.nodes@.len() == ns.len() && forall|i: int|
        0 <= i < ns.len() ==> holds_value(ns, untagged(ns, i), #[trigger] d.nodes@[i])
}

proof fn lemma_children_start_mono(ns: Seq<ParsedNode>, i: int, j: int)
    requires
        0 <= i <= j,
    ensures
        children_start(ns, i) <= children_start(ns, j),
    decreases j - i,
{
    if i < j {
        lemma_children_start_mono(ns, i, j - 1);
    }
}

/// The number of children of a value.
fn child_count_of(n: &ParsedNode) -> (c: usize)
    ensures
        c == child_count(*n),
{
    match n {
        ParsedNode::Sequence(k) => *k,
        ParsedNode::Mapping(keys) => keys.len(),
        ParsedNode::Tagged => 1,
        _ => 0,
    }
}

/// Lays out values listed breadth first as an arena of nodes, tags looked
/// through; `None` when the values form no tree listed breadth first.
pub fn yaml_doc_of(ns: &Vec<ParsedNode>) -> (r: Option<YamlDoc>)
    ensures
        match r {
            Some(d) => breadth_first(ns@) && laid_out(ns@, d),
            None => !breadth_first(ns@),
        },
{
    let n = ns.len();
    if n == 0 {
        return None;
    }
    let mut starts: Vec<usize> = vec![1];
    let mut i: usize = 0;
    while i < n
        invariant
            n == ns@.len(),
            i <= n,
            starts@.len() == i + 1,
            forall|j: int| 0 <= j <= i ==> #[trigger] starts@[j] == children_start(ns@, j),
            forall|j: int| 0 <= j < i ==> j < #[trigger] children_start(ns@, j),
            starts@[i as int] <= n,
        decreases n - i,
    {
        let s = starts[i];
        if s <= i {
            return None;
        }
        let c = child_count_of(&ns[i]);
        if c > n - s {
            proof {
                lemma_children_start_mono(ns@, i + 1, n as int);
            }
            return None;
        }
        starts.push(s + c);
        i = i + 1;
    }
    if starts[n] != n {
        return None;
    }
    let ghost g = ns@;
    assert(breadth_first(g));
    let mut nodes: Vec<YamlNode> = Vec::new();
    let mut k: usize = 0;
    while k < n
        invariant
            g == ns@,
            n == g.len(),
            breadth_first(g),
            starts@.len() == n + 1,
            forall|j: int| 0 <= j <= n ==> #[trigger] starts@[j] == children_start(g, j),
            k <= n,
            nodes@.len() == k,
            forall|j: int| 0 <= j < k ==> holds_value(g, untagged(g, j), #[trigger] nodes@[j]),
        decreases n - k,
    {
        let mut r: usize = k;
        while matches!(ns[r], ParsedNode::Tagged)
            invariant
                g == ns@,
                n == g.len(),
                breadth_first(g),
                starts@.len() == n + 1,
                forall|j: int| 0 <= j <= n ==> #[trigger] starts@[j] == children_start(g, j),
                r < n,
                untagged(g, r as int) == untagged(g, k as int),
            decreases n - r,
        {
            proof {
                lemma_children_start_mono(g, r + 1, n as int);
                assert(starts@[r + 1] == children_start(g, r + 1));
            }
            r = starts[r];
        }
        let start = starts[r];
        proof {
            lemma_children_start_mono(g, r + 1, n as int);
            assert(starts@[r + 1] == children_start(g, r + 1));
        }
        let node = match &ns[r] {
            ParsedNode::Mapping(keys) => {
                let mut e: Vec<(YamlKey, usize)> = Vec::new();
                let mut t: usize = 0;
                while t < keys.len()
                    invariant
                        start + keys@.len() <= n,
                        t <= keys@.len(),
                        e@.len() == t,
                        forall|u: int| 0 <= u < t ==> #[trigger] e@[u] == (YamlKey::Text(keys@[u]), (start + u) as usize),
                    decreases keys@.len() - t,
                {
                    e.push((YamlKey::Text(keys[t].clone()), start + t));
                    t = t + 1;
                }
                YamlNode::Mapping(e)
            },
            ParsedNode::Sequence(c) => {
                let mut items: Vec<usize> = Vec::new();
                let mut t: usize = 0;
                while t < *c
                    invariant
                        start + *c <= n,
                        t <= *c,
                        items@.len() == t,
                        forall|u: int| 0 <= u < t ==> #[trigger] items@[u] == start + u,
                    decreases *c - t,
                {
                    items.push(start + t);
                    t = t + 1;
                }
                YamlNode::Sequence(items)
            },
            _ => YamlNode::Scalar,
        };
        nodes.push(node);
        k = k + 1;
    }
    Some(YamlDoc { nodes })
}

/// The values `serde_yml` parses from a text, listed breadth first (each
/// value before the values under it, the children of a value together and
/// in order): `None` when the text is not YAML.
pub uninterp spec fn parsed_yaml(text: Seq<char>) -> Option<Vec<ParsedNode>>;

/// Calls `serde_yml::from_str` into a `Value` and lists its values breadth
/// first, each converted to the `ParsedNode` of its own variant. The
/// contract claims only that the result is the function `parsed_yaml` of
/// the text alone.
#[verifier::external_body]
pub fn parse_yaml(text: &str) -> (r: Option<Vec<ParsedNode>>)
    ensures
        r == parsed_yaml(text@),
{
    let root: Value = serde_yml::from_str(text).ok()?;
    let (mut queue, mut nodes) = (VecDeque::from([&root]), vec![]);
    while let Some(v) = queue.pop_front() {
        nodes.push(match v {
            Value::Null => Null,
            Value::Bool(b) => Bool(*b),
            Value::Number(_) => Number,
            Value::String(s) => Text(s.clone()),
            Value::Sequence(s) => { queue.extend(s); Sequence(s.len()) }
            Value::Mapping(m) => { queue.extend(m.values()); Mapping(m.keys().cloned().collect()) }
            Value::Tagged(t) => { queue.push_back(t.value()); Tagged }
        });
    }
    Some(nodes)
}

/// Reports every field of the `problem.yaml` text that the package format
/// does not know; a text that is not YAML adds nothing here.
pub fn check_problem_yaml_fields(report: &mut CheckReport, path: &String, text: &str)
    ensures
        final(report).work_dir == old(report).work_dir,
        match parsed_yaml(text@) {
            Some(ns) => if breadth_first(ns@) {
                exists|d: YamlDoc|
                    laid_out(ns@, d) && appended(
                        old(report).issues@,
                        final(report).issues@,
                        path@,
                        #[trigger] yaml_field_warnings(d),
                    )
            } else {
                final(report).issues@ == old(report).issues@
            },
            None => final(report).issues@ == old(report).issues@,
        },
{
    match parse_yaml(text) {
        Some(ns) => match yaml_doc_of(&ns) {
            Some(doc) => check_unknown_yaml_fields(report, path, &doc),
            None => {},
        },
        None => {},
    }
}

} // verus!
