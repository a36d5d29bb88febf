//! The `problem.yaml` a package is written back as after a configuration
//! edit: a fixed layout in which names that are plain words stay bare,
//! other strings are written as JSON string literals, and programs and
//! bundles come in name order.

use vstd::prelude::*;
use crate::data::{bundle_index_from, find_bundle, insert_sorted, strictly_sorted};
use crate::explain::{program_index_from, program_position};
use crate::schema::{
    NamedBundle, NamedProgram, Problem, ProgramInfo, StressPlan, StressPlanExpectation, TestCase, TestTask,
    TestTaskType,
};
use crate::problem::{lemma_text_less_irreflexive, lemma_text_less_trans, text_less};
use crate::text::{chars_of, decimal, join, opt_view, string_from_chars, string_views, u64_to_decimal, usize_to_decimal};

verus! {

/// A lower-case hexadecimal digit.
pub open spec fn hex_digit(v: u32) -> char {
    seq!['0', '1', '2', '3', '4', '5', '6', '7', '8', '9', 'a', 'b', 'c', 'd', 'e', 'f'][v as int]
}

/// How `serde_json` writes one character inside a string literal: `"`
/// and `\` behind a backslash, the control characters below U+0020 as
/// `\b`, `\t`, `\n`, `\f`, `\r` or `\u00` and two hexadecimal digits,
/// every other character as it is.
pub open spec fn json_escape(c: char) -> Seq<char> {
    if c == '"' {
        seq!['\\', '"']
    } else if c == '\\' {
        seq!['\\', '\\']
    } else if c == '\u{8}' {
        seq!['\\', 'b']
    } else if c == '\t' {
        seq!['\\', 't']
    } else if c == '\n' {
        seq!['\\', 'n']
    } else if c == '\u{c}' {
        seq!['\\', 'f']
    } else if c == '\r' {
        seq!['\\', 'r']
    } else if (c as u32) < 0x20 {
        seq!['\\', 'u', '0', '0', hex_digit((c as u32) / 16), hex_digit((c as u32) % 16)]
    } else {
        seq![c]
    }
}

/// A string with every character escaped as `serde_json` escapes it.
pub open spec fn json_escaped(s: Seq<char>) -> Seq<char>
    decreases s.len(),
{
    if s.len() == 0 {
        Seq::empty()
    } else {
        json_escaped(s.drop_last()) + json_escape(s.last())
    }
}

/// The JSON string literal of a string, as `serde_json` writes it.
#[verifier::opaque]
pub open spec fn json_quoted(s: Seq<char>) -> Seq<char> {
    seq!['"'] + json_escaped(s) + seq!['"']
}

/// Calls `serde_json::to_string` on a string. The contract claims what
/// `format_escaped_str` in `serde_json`'s `ser.rs` writes: the string
/// between double quotes, each character escaped by its `ESCAPE` table and
/// `write_char_escape`. Writing a string into memory cannot fail, so the
/// error arm (an empty text) is never taken.
#[verifier::external_body]
fn json_string(value: &str) -> (s: String)
    ensures
        s@ == json_quoted(value@),
{
    serde_json::to_string(value).unwrap_or_default()
}

/// A character a bare YAML key may hold.
pub open spec fn is_key_char(c: char) -> bool {
    ('a' <= c && c <= 'z') || ('A' <= c && c <= 'Z') || ('0' <= c && c <= '9') || c == '_' || c == '-'
}

/// A non-empty word of key characters.
pub open spec fn is_plain_key(s: Seq<char>) -> bool {
    s.len() > 0 && forall|i: int| 0 <= i < s.len() ==> is_key_char(#[trigger] s[i])
}

/// A name as written: bare when it is a plain word, quoted otherwise.
pub open spec fn key_text(s: Seq<char>) -> Seq<char> {
    if is_plain_key(s) {
        s
    } else {
        json_quoted(s)
    }
}

/// A path with every `\` turned into `/`.
pub open spec fn slash_path(s: Seq<char>) -> Seq<char> {
    s.map_values(|c: char| if c == '\\' { '/' } else { c })
}

/// A path as written: with forward slashes, quoted.
pub open spec fn path_text(s: Seq<char>) -> Seq<char> {
    json_quoted(slash_path(s))
}

/// A list of strings as written: `[` the quoted strings joined by `, ` `]`.
pub open spec fn list_text(values: Seq<Seq<char>>) -> Seq<char> {
    "["@ + join(values.map_values(|v: Seq<char>| json_quoted(v)), ", "@) + "]"@
}

/// Writes a string as a JSON string literal.
pub fn quoted(value: &str) -> (s: String)
    ensures
        s@ == json_quoted(value@),
{
    json_string(value)
}

/// Writes a name: bare when it is a plain word, quoted otherwise.
pub fn key_string(value: &str) -> (s: String)
    ensures
        s@ == key_text(value@),
{
    let chars = chars_of(value);
    let mut plain = chars.len() > 0;
    let mut i: usize = 0;
    while i < chars.len()
        invariant
            i <= chars@.len(),
            chars@ == value@,
            plain == (chars@.len() > 0 && forall|j: int| 0 <= j < i ==> is_key_char(#[trigger] chars@[j])),
        decreases chars@.len() - i,
    {
        let c = chars[i];
        let ok = ('a' <= c && c <= 'z') || ('A' <= c && c <= 'Z') || ('0' <= c && c <= '9') || c == '_' || c == '-';
        if !ok {
            plain = false;
        }
        i = i + 1;
    }
    if plain {
        value.to_string()
    } else {
        json_string(value)
    }
}

/// Writes a path: with forward slashes, quoted.
pub fn path_string(path: &str) -> (s: String)
    ensures
        s@ == path_text(path@),
{
    let chars = chars_of(path);
    let mut out: Vec<char> = Vec::new();
    let mut i: usize = 0;
    while i < chars.len()
        invariant
            i <= chars@.len(),
            chars@ == path@,
            out@ == slash_path(chars@.take(i as int)),
        decreases chars@.len() - i,
    {
        let c = chars[i];
        out.push(if c == '\\' { '/' } else { c });
        assert(slash_path(chars@.take(i + 1)) =~= slash_path(chars@.take(i as int)).push(
            if c == '\\' { '/' } else { c },
        ));
        i = i + 1;
    }
    assert(chars@.take(i as int) =~= chars@);
    let slashed = string_from_chars(out.as_slice());
    json_string(slashed.as_str())
}

/// Writes a list of strings: `[` the quoted strings joined by `, ` `]`.
pub fn list_string(values: &Vec<String>) -> (s: String)
    ensures
        s@ == list_text(string_views(values@)),
{
    let ghost vs = string_views(values@);
    let ghost qs = vs.map_values(|v: Seq<char>| json_quoted(v));
    let mut out = String::from_str("[");
    proof {
        reveal_strlit("[");
        reveal_strlit("]");
        reveal_strlit(", ");
        assert(qs.take(0) =~= Seq::<Seq<char>>::empty());
    }
    let mut i: usize = 0;
    while i < values.len()
        invariant
            i <= values@.len(),
            vs == string_views(values@),
            qs == vs.map_values(|v: Seq<char>| json_quoted(v)),
            out@ == "["@ + join(qs.take(i as int), ", "@),
        decreases values@.len() - i,
    {
        if i > 0 {
            out.append(", ");
        }
        let q = json_string(values[i].as_str());
        out.append(q.as_str());
        proof {
            assert(qs[i as int] == q@);
            let t = qs.take(i + 1);
            assert(t.drop_last() =~= qs.take(i as int));
            if i > 0 {
                assert(join(t, ", "@) == join(t.drop_last(), ", "@) + ", "@ + t.last());
            } else {
                assert(join(t, ", "@) == t[0]);
            }
            assert(out@ =~= "["@ + join(qs.take(i + 1), ", "@));
        }
        i = i + 1;
    }
    out.append("]");
    proof {
        assert(qs.take(i as int) =~= qs);
    }
    out
}

/// Two strictly sorted lists with the same members are the same list.
proof fn lemma_sorted_unique(a: Seq<Seq<char>>, b: Seq<Seq<char>>)
    requires
        strictly_sorted(a),
        strictly_sorted(b),
        forall|x: Seq<char>| a.contains(x) <==> b.contains(x),
    ensures
        a == b,
    decreases a.len(),
{
    if a.len() == 0 {
        if b.len() > 0 {
            assert(b.contains(b[0]));
        }
        assert(a =~= b);
    } else {
        assert(a.contains(a[0]));
        assert(b.len() > 0);
        assert(b.contains(b[0]));
        let ia = choose|i: int| 0 <= i < b.len() && b[i] == a[0];
        let ib = choose|i: int| 0 <= i < a.len() && a[i] == b[0];
        if a[0] != b[0] {
            assert(ia > 0);
            assert(ib > 0);
            assert(text_less(b[0], b[ia]));
            assert(text_less(a[0], a[ib]));
            lemma_text_less_trans(a[0], b[0], a[0]);
            lemma_text_less_irreflexive(a[0]);
        }
        let ra = a.drop_first();
        let rb = b.drop_first();
        assert forall|x: Seq<char>| ra.contains(x) <==> rb.contains(x) by {
            if ra.contains(x) {
                let k = choose|k: int| 0 <= k < ra.len() && ra[k] == x;
                assert(a[k + 1] == x);
                assert(text_less(a[0], x));
                assert(a.contains(x));
                let j = choose|j: int| 0 <= j < b.len() && b[j] == x;
                if j == 0 {
                    lemma_text_less_irreflexive(x);
                }
                assert(rb[j - 1] == x);
            }
            if rb.contains(x) {
                let k = choose|k: int| 0 <= k < rb.len() && rb[k] == x;
                assert(b[k + 1] == x);
                assert(text_less(b[0], x));
                assert(b.contains(x));
                let j = choose|j: int| 0 <= j < a.len() && a[j] == x;
                if j == 0 {
                    lemma_text_less_irreflexive(x);
                }
                assert(ra[j - 1] == x);
            }
        }
        assert(strictly_sorted(ra)) by {
            assert forall|i: int, j: int| 0 <= i < j < ra.len() implies text_less(#[trigger] ra[i], #[trigger] ra[j]) by {
                assert(ra[i] == a[i + 1] && ra[j] == a[j + 1]);
            }
        }
        assert(strictly_sorted(rb)) by {
            assert forall|i: int, j: int| 0 <= i < j < rb.len() implies text_less(#[trigger] rb[i], #[trigger] rb[j]) by {
                assert(rb[i] == b[i + 1] && rb[j] == b[j + 1]);
            }
        }
        lemma_sorted_unique(ra, rb);
        assert(a =~= seq![a[0]] + ra);
        assert(b =~= seq![b[0]] + rb);
    }
}

/// The names in order: each distinct name once, ascending.
pub open spec fn name_order(names: Seq<Seq<char>>) -> Seq<Seq<char>> {
    choose|s: Seq<Seq<char>>| strictly_sorted(s) && forall|x: Seq<char>| s.contains(x) <==> names.contains(x)
}

/// The distinct names, ascending.
pub fn sorted_names(names: &Vec<String>) -> (r: Vec<String>)
    ensures
        string_views(r@) == name_order(string_views(names@)),
{
    let ghost ns = string_views(names@);
    let mut r: Vec<String> = Vec::new();
    let mut i: usize = 0;
    while i < names.len()
        invariant
            i <= names@.len(),
            ns == string_views(names@),
            strictly_sorted(string_views(r@)),
            forall|x: Seq<char>| string_views(r@).contains(x) <==> ns.take(i as int).contains(x),
        decreases names@.len() - i,
    {
        let ghost before = string_views(r@);
        insert_sorted(&mut r, &names[i]);
        proof {
            let t1 = ns.take(i + 1);
            let t0 = ns.take(i as int);
            assert(t1 =~= t0.push(ns[i as int]));
            assert forall|x: Seq<char>| string_views(r@).contains(x) <==> t1.contains(x) by {
                if t1.contains(x) && !t0.contains(x) {
                    let k = choose|k: int| 0 <= k < t1.len() && #[trigger] t1[k] == x;
                    if k < i {
                        assert(t0[k] == x);
                    }
                }
                if t0.contains(x) {
                    let k = choose|k: int| 0 <= k < t0.len() && #[trigger] t0[k] == x;
                    assert(t1[k] == x);
                }
                if x == ns[i as int] {
                    assert(t1[i as int] == x);
                }
            }
        }
        i = i + 1;
    }
    proof {
        assert(ns.take(i as int) =~= ns);
        let s = string_views(r@);
        assert(strictly_sorted(s) && forall|x: Seq<char>| s.contains(x) <==> ns.contains(x));
        let c = name_order(ns);
        lemma_sorted_unique(s, c);
    }
    r
}

/// The numbers of a package as written, which the caller formats: the
/// package's time and memory limits; for each program, in the order of
/// the package's programs, its own limit when it differs from the
/// package's; and each task's score.
#[derive(Clone, Debug)]
pub struct YamlNumbers {
    pub time_limit: String,
    pub memory_limit: String,
    pub program_time_limits: Vec<Option<String>>,
    pub program_memory_limits: Vec<Option<String>>,
    pub task_scores: Vec<Option<String>>,
}

/// The extra arguments of a program, when it has any.
pub open spec fn extra_args_text(args: Seq<Seq<char>>) -> Seq<char> {
    if args.len() > 0 {
        "      extra_args: "@ + list_text(args) + "\n"@
    } else {
        Seq::empty()
    }
}

/// How a program runs: its kind and path, and the C++ compile arguments
/// when they differ from the package's, or the extra arguments.
pub open spec fn info_text(p: Problem, info: ProgramInfo) -> Seq<char> {
    match info {
        ProgramInfo::Cpp(c) => "    info: !cpp\n      path: "@ + path_text(c.path@) + "\n"@ + if string_views(
            c.compile_args@,
        ) != string_views(p.cpp_compile_args@) {
            "      compile_args: "@ + list_text(string_views(c.compile_args@)) + "\n"@
        } else {
            Seq::empty()
        },
        ProgramInfo::Python(c) => "    info: !python\n      path: "@ + path_text(c.path@) + "\n"@ + extra_args_text(
            string_views(c.extra_args@),
        ),
        ProgramInfo::Command(c) => "    info: !command\n      path: "@ + path_text(c.path@) + "\n"@
            + extra_args_text(string_views(c.extra_args@)),
    }
}

/// A program's own limit, when it has one.
pub open spec fn limit_line(key: Seq<char>, value: Option<Seq<char>>) -> Seq<char> {
    match value {
        Some(v) => "    "@ + key + ": "@ + v + "\n"@,
        None => Seq::empty(),
    }
}

/// The entry of program `i`.
pub open spec fn program_text(p: Problem, n: YamlNumbers, i: int) -> Seq<char> {
    "  "@ + key_text(p.programs@[i].name@) + ":\n"@ + info_text(p, p.programs@[i].info) + limit_line(
        "time_limit_secs"@,
        opt_view(n.program_time_limits@[i]),
    ) + limit_line("memory_limit_mb"@, opt_view(n.program_memory_limits@[i]))
}

/// The names of the programs.
pub open spec fn program_names(p: Problem) -> Seq<Seq<char>> {
    p.programs@.map_values(|x: NamedProgram| x.name@)
}

/// The entries of the first `k` names of `order`, each the first program
/// with the name.
pub open spec fn programs_upto(p: Problem, n: YamlNumbers, order: Seq<Seq<char>>, k: int) -> Seq<char>
    decreases k,
{
    if k <= 0 || k > order.len() {
        Seq::empty()
    } else {
        programs_upto(p, n, order, k - 1) + match program_index_from(p, order[k - 1], 0) {
            Some(i) => program_text(p, n, i),
            None => Seq::empty(),
        }
    }
}

/// The programs section: every program, in name order.
pub open spec fn programs_text(p: Problem, n: YamlNumbers) -> Seq<char> {
    let order = name_order(program_names(p));
    "programs:\n"@ + programs_upto(p, n, order, order.len() as int)
}

/// A case: its arguments alone when the package's generator runs it,
/// else its generator and arguments.
pub open spec fn case_text(p: Problem, c: TestCase) -> Seq<char> {
    if opt_view(p.generator_name) == Some(c.generator_name@) {
        "      - "@ + list_text(string_views(c.args@)) + "\n"@
    } else {
        "      - generator: "@ + key_text(c.generator_name@) + "\n        args: "@ + list_text(
            string_views(c.args@),
        ) + "\n"@
    }
}

/// The first `k` cases.
pub open spec fn cases_upto(p: Problem, cases: Seq<TestCase>, k: int) -> Seq<char>
    decreases k,
{
    if k <= 0 || k > cases.len() {
        Seq::empty()
    } else {
        cases_upto(p, cases, k - 1) + case_text(p, cases[k - 1])
    }
}

/// The entry of a bundle: its name and cases.
pub open spec fn bundle_text(p: Problem, b: NamedBundle) -> Seq<char> {
    "    "@ + key_text(b.name@) + ":\n      cases:\n"@ + cases_upto(p, b.bundle.cases@, b.bundle.cases@.len() as int)
}

/// The names of the bundles.
pub open spec fn bundle_names(p: Problem) -> Seq<Seq<char>> {
    p.test.bundles@.map_values(|b: NamedBundle| b.name@)
}

/// The entries of the first `k` names of `order`, each the first bundle
/// with the name.
pub open spec fn bundles_upto(p: Problem, order: Seq<Seq<char>>, k: int) -> Seq<char>
    decreases k,
{
    if k <= 0 || k > order.len() {
        Seq::empty()
    } else {
        bundles_upto(p, order, k - 1) + match bundle_index_from(p.test.bundles@, order[k - 1], 0) {
            Some(i) => bundle_text(p, p.test.bundles@[i]),
            None => Seq::empty(),
        }
    }
}

/// The word of a task type.
pub open spec fn type_word(t: TestTaskType) -> Seq<char> {
    match t {
        TestTaskType::Sum => "sum"@,
        TestTaskType::Min => "min"@,
    }
}

/// A list of a task, under its key, when it is not empty.
pub open spec fn task_list_text(key: Seq<char>, values: Seq<Seq<char>>) -> Seq<char> {
    if values.len() > 0 {
        "    "@ + key + ": "@ + list_text(values) + "\n"@
    } else {
        Seq::empty()
    }
}

/// An inline case of a task: its generator and arguments.
pub open spec fn inline_case_text(c: TestCase) -> Seq<char> {
    "    - generator: "@ + key_text(c.generator_name@) + "\n      args: "@ + list_text(string_views(c.args@)) + "\n"@
}

/// The first `k` inline cases of a task.
pub open spec fn inline_cases_upto(cases: Seq<TestCase>, k: int) -> Seq<char>
    decreases k,
{
    if k <= 0 || k > cases.len() {
        Seq::empty()
    } else {
        inline_cases_upto(cases, k - 1) + inline_case_text(cases[k - 1])
    }
}

/// The inline cases of a task, when it has any.
pub open spec fn inline_cases_text(cases: Seq<TestCase>) -> Seq<char> {
    if cases.len() > 0 {
        "    cases:\n"@ + inline_cases_upto(cases, cases.len() as int)
    } else {
        Seq::empty()
    }
}

/// The entry of a task: its name, its score as written when it has one,
/// its type and bundles, and its dependencies, the programs that must
/// pass and fail, and its inline cases when there are any.
pub open spec fn task_text(t: TestTask, score: Option<Seq<char>>) -> Seq<char> {
    "  - name: "@ + key_text(t.name@) + "\n"@ + (match score {
        Some(s) => "    score: "@ + s + "\n"@,
        None => Seq::empty(),
    }) + "    type: "@ + type_word(t.task_type.unwrap()) + "\n    bundles: "@ + list_text(string_views(t.bundles@))
        + "\n"@ + task_list_text("dependencies"@, string_views(t.dependencies@)) + task_list_text(
        "pass"@,
        string_views(t.pass_programs@),
    ) + task_list_text("fail"@, string_views(t.fail_programs@)) + inline_cases_text(t.cases@)
}

/// The first `k` tasks.
pub open spec fn tasks_upto(p: Problem, n: YamlNumbers, k: int) -> Seq<char>
    decreases k,
{
    if k <= 0 || k > p.test.tasks@.len() {
        Seq::empty()
    } else {
        tasks_upto(p, n, k - 1) + task_text(p.test.tasks@[k - 1], opt_view(n.task_scores@[k - 1]))
    }
}

/// The test section: the bundles in name order, then the tasks.
pub open spec fn test_text(p: Problem, n: YamlNumbers) -> Seq<char> {
    let order = name_order(bundle_names(p));
    "test:\n  bundles:\n"@ + bundles_upto(p, order, order.len() as int) + "  tasks:\n"@ + tasks_upto(
        p,
        n,
        p.test.tasks@.len() as int,
    )
}

/// The word of a plan's expectation.
pub open spec fn expect_word(e: StressPlanExpectation) -> Seq<char> {
    match e {
        StressPlanExpectation::Pass => "pass"@,
        StressPlanExpectation::Fail => "fail"@,
    }
}

/// The entry of a stress plan; its generator only when it is not the
/// package's.
pub open spec fn plan_text(p: Problem, plan: StressPlan) -> Seq<char> {
    "  - name: "@ + key_text(plan.name@) + "\n"@ + (if opt_view(p.generator_name) != Some(plan.generator@) {
        "    generator: "@ + key_text(plan.generator@) + "\n"@
    } else {
        Seq::empty()
    }) + "    args: "@ + list_text(string_views(plan.args@)) + "\n    against: "@ + list_text(
        string_views(plan.against@),
    ) + "\n    cases: "@ + decimal(plan.cases as nat) + "\n"@ + (match plan.seed_base {
        Some(seed) => "    seed_base: "@ + decimal(seed as nat) + "\n"@,
        None => Seq::empty(),
    }) + "    expect: "@ + expect_word(plan.expect) + "\n"@
}

/// The first `k` stress plans.
pub open spec fn plans_upto(p: Problem, k: int) -> Seq<char>
    decreases k,
{
    if k <= 0 || k > p.stress.plans@.len() {
        Seq::empty()
    } else {
        plans_upto(p, k - 1) + plan_text(p, p.stress.plans@[k - 1])
    }
}

/// The stress section, when there are plans.
pub open spec fn stress_text(p: Problem) -> Seq<char> {
    if p.stress.plans@.len() == 0 {
        Seq::empty()
    } else {
        "stress:\n  plans:\n"@ + plans_upto(p, p.stress.plans@.len() as int)
    }
}

/// The roles and settings after the programs: solution, validator, the
/// reason it is omitted, checker and generator.
pub open spec fn roles_text(p: Problem) -> Seq<char> {
    "solution: "@ + key_text(p.solution_name@) + "\n"@ + (match p.validator_name {
        Some(v) => "validator: "@ + key_text(v@) + "\n"@,
        None => Seq::empty(),
    }) + (match p.validator_omitted_reason {
        Some(r) => "validator_omitted_reason: "@ + json_quoted(r@) + "\n"@,
        None => Seq::empty(),
    }) + (match p.checker_name {
        Some(c) => "checker: "@ + key_text(c@) + "\n"@,
        None => Seq::empty(),
    }) + (match p.generator_name {
        Some(g) => "generator: "@ + key_text(g@) + "\n"@,
        None => Seq::empty(),
    })
}

/// The head of the file: the name, the limits, the C++ compile arguments
/// and the output options.
pub open spec fn head_text(p: Problem, n: YamlNumbers) -> Seq<char> {
    "name: "@ + json_quoted(p.name@) + "\ntime_limit_secs: "@ + n.time_limit@ + "\nmemory_limit_mb: "@
        + n.memory_limit@ + "\ncpp_compile_args: "@ + list_text(string_views(p.cpp_compile_args@)) + "\n"@
        + if p.output.allow_empty {
        "output:\n  allow_empty: true\n"@
    } else {
        Seq::empty()
    }
}

/// The whole `problem.yaml` of a package.
pub open spec fn problem_yaml_text(p: Problem, n: YamlNumbers) -> Seq<char> {
    head_text(p, n) + programs_text(p, n) + roles_text(p) + test_text(p, n) + stress_text(p)
}

/// The numbers fit the package: one entry per program and per task.
pub open spec fn numbers_fit(p: Problem, n: YamlNumbers) -> bool {
    &&& n.program_time_limits@.len() == p.programs@.len()
    &&& n.program_memory_limits@.len() == p.programs@.len()
    &&& n.task_scores@.len() == p.test.tasks@.len()
}

/// Every task has its type.
pub open spec fn tasks_typed(p: Problem) -> bool {
    forall|t: int| 0 <= t < p.test.tasks@.len() ==> (#[trigger] p.test.tasks@[t]).task_type is Some
}

/// Whether two lists of strings are the same.
fn same_strings(a: &Vec<String>, b: &Vec<String>) -> (r: bool)
    ensures
        r == (string_views(a@) == string_views(b@)),
{
    if a.len() != b.len() {
        proof {
            assert(string_views(a@).len() != string_views(b@).len());
        }
        return false;
    }
    let mut i: usize = 0;
    while i < a.len()
        invariant
            i <= a@.len(),
            a@.len() == b@.len(),
            forall|j: int| 0 <= j < i ==> (#[trigger] a@[j])@ == b@[j]@,
        decreases a@.len() - i,
    {
        if a[i] != b[i] {
            proof {
                assert(string_views(a@)[i as int] != string_views(b@)[i as int]);
            }
            return false;
        }
        i = i + 1;
    }
    proof {
        assert(string_views(a@) =~= string_views(b@));
    }
    true
}

/// Writes how a program runs.
fn info_string(p: &Problem, info: &ProgramInfo) -> (s: String)
    ensures
        s@ == info_text(*p, *info),
{
    proof {
        reveal_strlit("    info: !cpp\n      path: ");
        reveal_strlit("    info: !python\n      path: ");
        reveal_strlit("    info: !command\n      path: ");
        reveal_strlit("\n");
        reveal_strlit("      compile_args: ");
        reveal_strlit("      extra_args: ");
    }
    let (mut out, extra) = match info {
        ProgramInfo::Cpp(c) => (String::from_str("    info: !cpp\n      path: "), &c.compile_args),
        ProgramInfo::Python(c) => (String::from_str("    info: !python\n      path: "), &c.extra_args),
        ProgramInfo::Command(c) => (String::from_str("    info: !command\n      path: "), &c.extra_args),
    };
    let path = path_string(info.path().as_str());
    out.append(path.as_str());
    out.append("\n");
    match info {
        ProgramInfo::Cpp(c) => {
            if !same_strings(&c.compile_args, &p.cpp_compile_args) {
                out.append("      compile_args: ");
                out.append(list_string(&c.compile_args).as_str());
                out.append("\n");
            }
        },
        _ => {
            if extra.len() > 0 {
                out.append("      extra_args: ");
                out.append(list_string(extra).as_str());
                out.append("\n");
            }
        },
    }
    assert(out@ =~= info_text(*p, *info));
    out
}

/// Writes a program's own limit, when it has one.
fn limit_string(out: &mut String, key: &str, value: &Option<String>)
    ensures
        final(out)@ == old(out)@ + limit_line(key@, opt_view(*value)),
{
    proof {
        reveal_strlit("    ");
        reveal_strlit(": ");
        reveal_strlit("\n");
    }
    match value {
        Some(v) => {
            out.append("    ");
            out.append(key);
            out.append(": ");
            out.append(v.as_str());
            out.append("\n");
        },
        None => {},
    }
    assert(out@ =~= old(out)@ + limit_line(key@, opt_view(*value)));
}

/// Writes the entry of program `i`.
fn program_string(p: &Problem, n: &YamlNumbers, i: usize) -> (s: String)
    requires
        numbers_fit(*p, *n),
        i < p.programs@.len(),
    ensures
        s@ == program_text(*p, *n, i as int),
{
    proof {
        reveal_strlit("  ");
        reveal_strlit(":\n");
        reveal_strlit("time_limit_secs");
        reveal_strlit("memory_limit_mb");
    }
    let program = &p.programs[i];
    let mut out = String::from_str("  ");
    out.append(key_string(program.name.as_str()).as_str());
    out.append(":\n");
    out.append(info_string(p, &program.info).as_str());
    limit_string(&mut out, "time_limit_secs", &n.program_time_limits[i]);
    limit_string(&mut out, "memory_limit_mb", &n.program_memory_limits[i]);
    assert(out@ =~= program_text(*p, *n, i as int));
    out
}

/// Writes the programs section.
fn programs_string(p: &Problem, n: &YamlNumbers) -> (s: String)
    requires
        numbers_fit(*p, *n),
    ensures
        s@ == programs_text(*p, *n),
{
    let mut names: Vec<String> = Vec::new();
    let mut k: usize = 0;
    while k < p.programs.len()
        invariant
            k <= p.programs@.len(),
            string_views(names@) == program_names(*p).take(k as int),
        decreases p.programs@.len() - k,
    {
        let ghost before = names@;
        let name = p.programs[k].name.clone();
        names.push(name);
        proof {
            let t = program_names(*p).take(k + 1);
            assert(string_views(before) == program_names(*p).take(k as int));
            assert forall|j: int| 0 <= j < k + 1 implies string_views(names@)[j] == t[j] by {
                if j < k {
                    assert(names@[j] == before[j]);
                    assert(string_views(before)[j] == program_names(*p).take(k as int)[j]);
                }
            }
            assert(string_views(names@) =~= t);
        }
        k = k + 1;
    }
    assert(program_names(*p).take(k as int) =~= program_names(*p));
    let order = sorted_names(&names);
    let ghost ov = string_views(order@);
    proof {
        reveal_strlit("programs:\n");
    }
    let mut out = String::from_str("programs:\n");
    let mut j: usize = 0;
    while j < order.len()
        invariant
            numbers_fit(*p, *n),
            j <= order@.len(),
            ov == string_views(order@),
            ov == name_order(program_names(*p)),
            out@ == "programs:\n"@ + programs_upto(*p, *n, ov, j as int),
        decreases order@.len() - j,
    {
        assert(ov[j as int] == order@[j as int]@);
        match program_position(p, &order[j]) {
            Some(i) => {
                out.append(program_string(p, n, i).as_str());
            },
            None => {},
        }
        assert(out@ =~= "programs:\n"@ + programs_upto(*p, *n, ov, j + 1));
        j = j + 1;
    }
    out
}

/// Writes a case.
fn case_string(p: &Problem, c: &TestCase) -> (s: String)
    ensures
        s@ == case_text(*p, *c),
{
    proof {
        reveal_strlit("      - ");
        reveal_strlit("\n");
        reveal_strlit("      - generator: ");
        reveal_strlit("\n        args: ");
    }
    let default = match &p.generator_name {
        Some(g) => *g == c.generator_name,
        None => false,
    };
    let mut out = if default {
        String::from_str("      - ")
    } else {
        let mut head = String::from_str("      - generator: ");
        head.append(key_string(c.generator_name.as_str()).as_str());
        head.append("\n        args: ");
        head
    };
    out.append(list_string(&c.args).as_str());
    out.append("\n");
    assert(out@ =~= case_text(*p, *c));
    out
}

/// Writes the entry of a bundle.
fn bundle_string(p: &Problem, b: &NamedBundle) -> (s: String)
    ensures
        s@ == bundle_text(*p, *b),
{
    proof {
        reveal_strlit("    ");
        reveal_strlit(":\n      cases:\n");
    }
    let mut out = String::from_str("    ");
    out.append(key_string(b.name.as_str()).as_str());
    out.append(":\n      cases:\n");
    let ghost head = out@;
    let cases = &b.bundle.cases;
    let mut k: usize = 0;
    while k < cases.len()
        invariant
            k <= cases@.len(),
            *cases == b.bundle.cases,
            out@ == head + cases_upto(*p, cases@, k as int),
        decreases cases@.len() - k,
    {
        out.append(case_string(p, &cases[k]).as_str());
        assert(out@ =~= head + cases_upto(*p, cases@, k + 1));
        k = k + 1;
    }
    assert(out@ =~= bundle_text(*p, *b));
    out
}

/// Writes a list of a task, under its key, when it is not empty.
fn task_list_string(out: &mut String, key: &str, values: &Vec<String>)
    ensures
        final(out)@ == old(out)@ + task_list_text(key@, string_views(values@)),
{
    proof {
        reveal_strlit("    ");
        reveal_strlit(": ");
        reveal_strlit("\n");
    }
    if values.len() > 0 {
        out.append("    ");
        out.append(key);
        out.append(": ");
        out.append(list_string(values).as_str());
        out.append("\n");
    }
    assert(out@ =~= old(out)@ + task_list_text(key@, string_views(values@)));
}

/// Writes the inline cases of a task, when it has any.
fn inline_cases_string(out: &mut String, cases: &Vec<TestCase>)
    ensures
        final(out)@ == old(out)@ + inline_cases_text(cases@),
{
    proof {
        reveal_strlit("    cases:\n");
        reveal_strlit("    - generator: ");
        reveal_strlit("\n      args: ");
        reveal_strlit("\n");
    }
    if cases.len() == 0 {
        assert(out@ =~= old(out)@ + inline_cases_text(cases@));
        return;
    }
    out.append("    cases:\n");
    let ghost head = out@;
    let mut k: usize = 0;
    while k < cases.len()
        invariant
            k <= cases@.len(),
            out@ == head + inline_cases_upto(cases@, k as int),
        decreases cases@.len() - k,
    {
        out.append("    - generator: ");
        out.append(key_string(cases[k].generator_name.as_str()).as_str());
        out.append("\n      args: ");
        out.append(list_string(&cases[k].args).as_str());
        out.append("\n");
        assert(out@ =~= head + inline_cases_upto(cases@, k + 1));
        k = k + 1;
    }
    assert(out@ =~= old(out)@ + inline_cases_text(cases@));
}

/// Writes the entry of a task.
fn task_string(t: &TestTask, score: &Option<String>) -> (s: String)
    requires
        t.task_type is Some,
    ensures
        s@ == task_text(*t, opt_view(*score)),
{
    proof {
        reveal_strlit("  - name: ");
        reveal_strlit("\n");
        reveal_strlit("    score: ");
        reveal_strlit("    type: ");
        reveal_strlit("sum");
        reveal_strlit("min");
        reveal_strlit("\n    bundles: ");
        reveal_strlit("dependencies");
        reveal_strlit("pass");
        reveal_strlit("fail");
    }
    let mut out = String::from_str("  - name: ");
    out.append(key_string(t.name.as_str()).as_str());
    out.append("\n");
    match score {
        Some(s) => {
            out.append("    score: ");
            out.append(s.as_str());
            out.append("\n");
        },
        None => {},
    }
    out.append("    type: ");
    match t.task_type {
        Some(TestTaskType::Sum) => out.append("sum"),
        Some(TestTaskType::Min) => out.append("min"),
        None => {},
    }
    out.append("\n    bundles: ");
    out.append(list_string(&t.bundles).as_str());
    out.append("\n");
    let ghost head = out@;
    task_list_string(&mut out, "dependencies", &t.dependencies);
    task_list_string(&mut out, "pass", &t.pass_programs);
    task_list_string(&mut out, "fail", &t.fail_programs);
    inline_cases_string(&mut out, &t.cases);
    assert(out@ =~= task_text(*t, opt_view(*score)));
    out
}

/// Writes the test section.
fn test_string(p: &Problem, n: &YamlNumbers) -> (s: String)
    requires
        numbers_fit(*p, *n),
        tasks_typed(*p),
    ensures
        s@ == test_text(*p, *n),
{
    let mut names: Vec<String> = Vec::new();
    let mut k: usize = 0;
    while k < p.test.bundles.len()
        invariant
            k <= p.test.bundles@.len(),
            string_views(names@) == bundle_names(*p).take(k as int),
        decreases p.test.bundles@.len() - k,
    {
        let ghost before = names@;
        let name = p.test.bundles[k].name.clone();
        names.push(name);
        proof {
            let t = bundle_names(*p).take(k + 1);
            assert(string_views(before) == bundle_names(*p).take(k as int));
            assert forall|j: int| 0 <= j < k + 1 implies string_views(names@)[j] == t[j] by {
                if j < k {
                    assert(names@[j] == before[j]);
                    assert(string_views(before)[j] == bundle_names(*p).take(k as int)[j]);
                }
            }
            assert(string_views(names@) =~= t);
        }
        k = k + 1;
    }
    assert(bundle_names(*p).take(k as int) =~= bundle_names(*p));
    let order = sorted_names(&names);
    let ghost ov = string_views(order@);
    proof {
        reveal_strlit("test:\n  bundles:\n");
        reveal_strlit("  tasks:\n");
    }
    let mut out = String::from_str("test:\n  bundles:\n");
    let mut j: usize = 0;
    while j < order.len()
        invariant
            j <= order@.len(),
            ov == string_views(order@),
            ov == name_order(bundle_names(*p)),
            out@ == "test:\n  bundles:\n"@ + bundles_upto(*p, ov, j as int),
        decreases order@.len() - j,
    {
        assert(ov[j as int] == order@[j as int]@);
        match find_bundle(p, &order[j]) {
            Some(i) => {
                out.append(bundle_string(p, &p.test.bundles[i]).as_str());
            },
            None => {},
        }
        assert(out@ =~= "test:\n  bundles:\n"@ + bundles_upto(*p, ov, j + 1));
        j = j + 1;
    }
    out.append("  tasks:\n");
    let ghost head = out@;
    let mut t: usize = 0;
    while t < p.test.tasks.len()
        invariant
            numbers_fit(*p, *n),
            tasks_typed(*p),
            t <= p.test.tasks@.len(),
            out@ == head + tasks_upto(*p, *n, t as int),
        decreases p.test.tasks@.len() - t,
    {
        assert(p.test.tasks@[t as int].task_type is Some);
        out.append(task_string(&p.test.tasks[t], &n.task_scores[t]).as_str());
        assert(out@ =~= head + tasks_upto(*p, *n, t + 1));
        t = t + 1;
    }
    assert(out@ =~= test_text(*p, *n));
    out
}

/// Writes the entry of a stress plan.
fn plan_string(p: &Problem, plan: &StressPlan) -> (s: String)
    ensures
        s@ == plan_text(*p, *plan),
{
    proof {
        reveal_strlit("  - name: ");
        reveal_strlit("\n");
        reveal_strlit("    generator: ");
        reveal_strlit("    args: ");
        reveal_strlit("\n    against: ");
        reveal_strlit("\n    cases: ");
        reveal_strlit("    seed_base: ");
        reveal_strlit("    expect: ");
        reveal_strlit("pass");
        reveal_strlit("fail");
    }
    let mut out = String::from_str("  - name: ");
    out.append(key_string(plan.name.as_str()).as_str());
    out.append("\n");
    let default = match &p.generator_name {
        Some(g) => *g == plan.generator,
        None => false,
    };
    if !default {
        out.append("    generator: ");
        out.append(key_string(plan.generator.as_str()).as_str());
        out.append("\n");
    }
    out.append("    args: ");
    out.append(list_string(&plan.args).as_str());
    out.append("\n    against: ");
    out.append(list_string(&plan.against).as_str());
    out.append("\n    cases: ");
    out.append(usize_to_decimal(plan.cases).as_str());
    out.append("\n");
    match plan.seed_base {
        Some(seed) => {
            out.append("    seed_base: ");
            out.append(u64_to_decimal(seed).as_str());
            out.append("\n");
        },
        None => {},
    }
    out.append("    expect: ");
    match plan.expect {
        StressPlanExpectation::Pass => out.append("pass"),
        StressPlanExpectation::Fail => out.append("fail"),
    }
    out.append("\n");
    assert(out@ =~= plan_text(*p, *plan));
    out
}

/// Writes the stress section, when there are plans.
fn stress_string(p: &Problem) -> (s: String)
    ensures
        s@ == stress_text(*p),
{
    proof {
        reveal_strlit("stress:\n  plans:\n");
    }
    if p.stress.plans.len() == 0 {
        return String::new();
    }
    let mut out = String::from_str("stress:\n  plans:\n");
    let mut k: usize = 0;
    while k < p.stress.plans.len()
        invariant
            k <= p.stress.plans@.len(),
            out@ == "stress:\n  plans:\n"@ + plans_upto(*p, k as int),
        decreases p.stress.plans@.len() - k,
    {
        out.append(plan_string(p, &p.stress.plans[k]).as_str());
        assert(out@ =~= "stress:\n  plans:\n"@ + plans_upto(*p, k + 1));
        k = k + 1;
    }
    out
}

/// Writes the roles.
fn roles_string(p: &Problem) -> (s: String)
    ensures
        s@ == roles_text(*p),
{
    proof {
        reveal_strlit("solution: ");
        reveal_strlit("\n");
        reveal_strlit("validator: ");
        reveal_strlit("validator_omitted_reason: ");
        reveal_strlit("checker: ");
        reveal_strlit("generator: ");
    }
    let mut out = String::from_str("solution: ");
    out.append(key_string(p.solution_name.as_str()).as_str());
    out.append("\n");
    match &p.validator_name {
        Some(v) => {
            out.append("validator: ");
            out.append(key_string(v.as_str()).as_str());
            out.append("\n");
        },
        None => {},
    }
    match &p.validator_omitted_reason {
        Some(r) => {
            out.append("validator_omitted_reason: ");
            out.append(json_string(r.as_str()).as_str());
            out.append("\n");
        },
        None => {},
    }
    match &p.checker_name {
        Some(c) => {
            out.append("checker: ");
            out.append(key_string(c.as_str()).as_str());
            out.append("\n");
        },
        None => {},
    }
    match &p.generator_name {
        Some(g) => {
            out.append("generator: ");
            out.append(key_string(g.as_str()).as_str());
            out.append("\n");
        },
        None => {},
    }
    assert(out@ =~= roles_text(*p));
    out
}

/// Writes `problem.yaml` for a package: its head, the programs in name
/// order, the roles, the bundles in name order and the tasks, and the
/// stress plans.
pub fn render_problem(p: &Problem, n: &YamlNumbers) -> (s: String)
    requires
        numbers_fit(*p, *n),
        tasks_typed(*p),
    ensures
        s@ == problem_yaml_text(*p, *n),
{
    proof {
        reveal_strlit("name: ");
        reveal_strlit("\ntime_limit_secs: ");
        reveal_strlit("\nmemory_limit_mb: ");
        reveal_strlit("\ncpp_compile_args: ");
        reveal_strlit("\n");
        reveal_strlit("output:\n  allow_empty: true\n");
    }
    let mut out = String::from_str("name: ");
    out.append(json_string(p.name.as_str()).as_str());
    out.append("\ntime_limit_secs: ");
    out.append(n.time_limit.as_str());
    out.append("\nmemory_limit_mb: ");
    out.append(n.memory_limit.as_str());
    out.append("\ncpp_compile_args: ");
    out.append(list_string(&p.cpp_compile_args).as_str());
    out.append("\n");
    if p.output.allow_empty {
        out.append("output:\n  allow_empty: true\n");
    }
    assert(out@ =~= head_text(*p, *n));
    out.append(programs_string(p, n).as_str());
    out.append(roles_string(p).as_str());
    out.append(test_string(p, n).as_str());
    out.append(stress_string(p).as_str());
    assert(out@ =~= problem_yaml_text(*p, *n));
    out
}

} // verus!
