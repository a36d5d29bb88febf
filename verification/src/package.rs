//! Problem ids: the directory name a new package gets from its id.

use vstd::prelude::*;
use crate::text::{
    ascii_lower, chars_of, copy_range, is_ws, skip_char_run, string_from_chars, to_ascii_lower,
    trailing_char_cut, trim, trim_char, trim_end, trim_end_char, trim_start, trim_start_char,
    trimmed, trimmed_char,
};

verus! {

/// An ASCII letter or digit, or `_`: kept in a slug.
pub open spec fn is_slug_char(c: char) -> bool {
    ('a' <= c && c <= 'z') || ('A' <= c && c <= 'Z') || ('0' <= c && c <= '9') || c == '_'
}

/// The slug built so far and whether it ends in a dash that stands for a
/// run of other characters, after the characters of `s`.
pub open spec fn slug_state(s: Seq<char>) -> (Seq<char>, bool)
    decreases s.len(),
{
    if s.len() == 0 {
        (Seq::empty(), false)
    } else {
        let (slug, last_dash) = slug_state(s.drop_last());
        let c = s.last();
        if is_slug_char(c) {
            (slug.push(ascii_lower(c)), false)
        } else if c == '-' || !last_dash {
            (slug.push('-'), true)
        } else {
            (slug, last_dash)
        }
    }
}

/// The slug of an id: letters and digits lower-cased, `_` kept, `-` kept,
/// every other run of characters one `-`, and no dash at either end.
pub open spec fn slug_of(value: Seq<char>) -> Seq<char> {
    trim_char(slug_state(trim(value)).0, '-')
}

/// The id has no slug: nothing is left of it.
pub open spec fn slug_is_empty(value: Seq<char>) -> bool {
    slug_of(value).len() == 0
}

/// The directory name of a problem id, or an error when nothing of the id
/// is left.
pub fn slugify(value: &str) -> (r: Result<String, String>)
    ensures
        match r {
            Ok(s) => !slug_is_empty(value@) && s@ == slug_of(value@),
            Err(e) => slug_is_empty(value@) && e@ == "problem id cannot be empty"@,
        },
{
    let chars = chars_of(value);
    let t = trimmed(chars.as_slice());
    let mut slug: Vec<char> = Vec::new();
    let mut last_dash = false;
    let mut i: usize = 0;
    while i < t.len()
        invariant
            i <= t@.len(),
            (slug@, last_dash) == slug_state(t@.take(i as int)),
        decreases t@.len() - i,
    {
        assert(t@.take(i + 1).drop_last() == t@.take(i as int));
        assert(t@.take(i + 1).last() == t@[i as int]);
        let c = t[i];
        if ('a' <= c && c <= 'z') || ('A' <= c && c <= 'Z') || ('0' <= c && c <= '9') || c == '_' {
            slug.push(to_ascii_lower(c));
            last_dash = false;
        } else if c == '-' || !last_dash {
            slug.push('-');
            last_dash = true;
        }
        i = i + 1;
    }
    assert(t@.take(i as int) == t@);
    let result = trimmed_char(slug.as_slice(), '-');
    if result.len() == 0 {
        proof {
            reveal_strlit("problem id cannot be empty");
        }
        Err(String::from_str("problem id cannot be empty"))
    } else {
        Ok(string_from_chars(result.as_slice()))
    }
}

/// A character that a slug can hold.
pub open spec fn in_slug_alphabet(c: char) -> bool {
    ('a' <= c && c <= 'z') || ('0' <= c && c <= '9') || c == '_' || c == '-'
}

proof fn lemma_slug_state_fixed(t: Seq<char>)
    requires
        forall|i: int| 0 <= i < t.len() ==> in_slug_alphabet(#[trigger] t[i]),
    ensures
        slug_state(t).0 == t,
        slug_state(t).1 == (t.len() > 0 && t.last() == '-'),
    decreases t.len(),
{
    if t.len() > 0 {
        assert forall|i: int| 0 <= i < t.drop_last().len() implies in_slug_alphabet(
            #[trigger] t.drop_last()[i],
        ) by {
            assert(t.drop_last()[i] == t[i]);
        }
        lemma_slug_state_fixed(t.drop_last());
        assert(in_slug_alphabet(t[t.len() - 1]));
        assert(t.drop_last().push(t.last()) == t);
    }
}

proof fn lemma_slug_state_alphabet(s: Seq<char>)
    ensures
        forall|i: int| 0 <= i < slug_state(s).0.len() ==> in_slug_alphabet(#[trigger] slug_state(s).0[i]),
        slug_state(s).1 ==> slug_state(s).0.len() > 0 && slug_state(s).0.last() == '-',
    decreases s.len(),
{
    if s.len() > 0 {
        lemma_slug_state_alphabet(s.drop_last());
        let prev = slug_state(s.drop_last()).0;
        let c = s.last();
        if is_slug_char(c) {
            assert(in_slug_alphabet(ascii_lower(c)));
            assert forall|i: int| 0 <= i < prev.push(ascii_lower(c)).len() implies in_slug_alphabet(
                #[trigger] prev.push(ascii_lower(c))[i],
            ) by {
                if i < prev.len() {
                    assert(prev.push(ascii_lower(c))[i] == prev[i]);
                }
            }
        } else {
            assert forall|i: int| 0 <= i < prev.push('-').len() implies in_slug_alphabet(
                #[trigger] prev.push('-')[i],
            ) by {
                if i < prev.len() {
                    assert(prev.push('-')[i] == prev[i]);
                }
            }
        }
    }
}

proof fn lemma_trim_start_char_alphabet(s: Seq<char>, c: char)
    requires
        forall|i: int| 0 <= i < s.len() ==> in_slug_alphabet(#[trigger] s[i]),
    ensures
        forall|i: int| 0 <= i < trim_start_char(s, c).len() ==> in_slug_alphabet(
            #[trigger] trim_start_char(s, c)[i],
        ),
        trim_start_char(s, c).len() > 0 ==> trim_start_char(s, c)[0] != c,
        trim_start_char(s, c).len() > 0 && s.len() > 0 ==> trim_start_char(s, c).last() == s.last(),
    decreases s.len(),
{
    if s.len() > 0 && s[0] == c {
        assert forall|i: int| 0 <= i < s.drop_first().len() implies in_slug_alphabet(
            #[trigger] s.drop_first()[i],
        ) by {
            assert(s.drop_first()[i] == s[i + 1]);
        }
        lemma_trim_start_char_alphabet(s.drop_first(), c);
    }
}

proof fn lemma_trim_end_char_alphabet(s: Seq<char>, c: char)
    requires
        forall|i: int| 0 <= i < s.len() ==> in_slug_alphabet(#[trigger] s[i]),
        s.len() > 0 ==> s[0] != c,
    ensures
        forall|i: int| 0 <= i < trim_end_char(s, c).len() ==> in_slug_alphabet(
            #[trigger] trim_end_char(s, c)[i],
        ),
        trim_end_char(s, c).len() > 0 ==> trim_end_char(s, c).last() != c && trim_end_char(s, c)[0]
            != c,
    decreases s.len(),
{
    if s.len() > 0 && s.last() == c {
        assert forall|i: int| 0 <= i < s.drop_last().len() implies in_slug_alphabet(
            #[trigger] s.drop_last()[i],
        ) by {
            assert(s.drop_last()[i] == s[i]);
        }
        if s.drop_last().len() > 0 {
            assert(s.drop_last()[0] == s[0]);
        }
        lemma_trim_end_char_alphabet(s.drop_last(), c);
    }
}

proof fn lemma_no_ws_trim(t: Seq<char>)
    requires
        forall|i: int| 0 <= i < t.len() ==> in_slug_alphabet(#[trigger] t[i]),
    ensures
        trim(t) == t,
{
    if t.len() > 0 {
        assert(in_slug_alphabet(t[0]));
        assert(!is_ws(t[0]));
        assert(trim_start(t) == t);
        assert(in_slug_alphabet(t[t.len() - 1]));
        assert(!is_ws(t.last()));
        assert(trim_end(t) == t);
    }
}

proof fn lemma_no_dash_ends(t: Seq<char>)
    requires
        t.len() > 0 ==> t[0] != '-' && t.last() != '-',
    ensures
        trim_char(t, '-') == t,
{
    assert(trim_start_char(t, '-') == t);
    assert(trim_end_char(t, '-') == t);
}

/// Law: a slug is its own slug, so slugifying twice changes nothing; it
/// holds only lower-case ASCII letters, digits, `_` and `-`, and neither
/// starts nor ends with `-`.
pub proof fn lemma_slug_laws(value: Seq<char>)
    ensures
        slug_of(slug_of(value)) == slug_of(value),
        forall|i: int| 0 <= i < slug_of(value).len() ==> in_slug_alphabet(#[trigger] slug_of(value)[i]),
        slug_of(value).len() > 0 ==> slug_of(value)[0] != '-' && slug_of(value).last() != '-',
{
    let raw = slug_state(trim(value)).0;
    lemma_slug_state_alphabet(trim(value));
    lemma_trim_start_char_alphabet(raw, '-');
    let front = trim_start_char(raw, '-');
    lemma_trim_end_char_alphabet(front, '-');
    let t = slug_of(value);
    assert(t == trim_end_char(front, '-'));
    lemma_no_ws_trim(t);
    lemma_slug_state_fixed(t);
    lemma_no_dash_ends(t);
}

/// The YAML document `serde_yml` writes for a string.
pub uninterp spec fn yaml_scalar(s: Seq<char>) -> Seq<char>;

/// Calls `serde_yml::to_string` on a string; the contract claims only that
/// the text is the function `yaml_scalar` of the string alone. Writing a
/// string value cannot fail, so the error arm (an empty text) is never
/// taken.
#[verifier::external_body]
fn yaml_string(v: &str) -> (s: String)
    ensures
        s@ == yaml_scalar(v@),
{
    serde_yml::to_string(&v).unwrap_or_default()
}

/// The `problem.yaml` of a new package after its name: the limits, the
/// compile arguments, the five default programs and their roles, and one
/// sample bundle in one task.
pub open spec fn initial_yaml_rest() -> Seq<char> {
    "\ntime_limit_secs: 3.0\nmemory_limit_mb: 512.0\ncpp_compile_args: [-O2, -std=c++20]\nprograms:\n  gen:\n    info: !cpp\n      path: ./src/gen.cpp\n  std:\n    info: !cpp\n      path: ./src/std.cpp\n  brute:\n    info: !cpp\n      path: ./src/brute.cpp\n  val:\n    info: !cpp\n      path: ./src/val.cpp\n  chk:\n    info: !cpp\n      path: ./src/chk.cpp\nsolution: std\nvalidator: val\nchecker: chk\ngenerator: gen\ntest:\n  type: min\n  bundles:\n    sample:\n      cases:\n      - []\n  tasks:\n  - name: sample\n    score: 100.0\n    bundles: [sample]\n"@
}

/// The `problem.yaml` a new package starts with: its name as a YAML
/// string, then the default layout.
pub fn initial_problem_yaml(id: &str) -> (s: String)
    ensures
        s@ == "name: "@ + trim_end(yaml_scalar(id@)) + initial_yaml_rest(),
{
    proof {
        reveal_strlit("name: ");
        reveal_strlit("\ntime_limit_secs: 3.0\nmemory_limit_mb: 512.0\ncpp_compile_args: [-O2, -std=c++20]\nprograms:\n  gen:\n    info: !cpp\n      path: ./src/gen.cpp\n  std:\n    info: !cpp\n      path: ./src/std.cpp\n  brute:\n    info: !cpp\n      path: ./src/brute.cpp\n  val:\n    info: !cpp\n      path: ./src/val.cpp\n  chk:\n    info: !cpp\n      path: ./src/chk.cpp\nsolution: std\nvalidator: val\nchecker: chk\ngenerator: gen\ntest:\n  type: min\n  bundles:\n    sample:\n      cases:\n      - []\n  tasks:\n  - name: sample\n    score: 100.0\n    bundles: [sample]\n");
    }
    let scalar = yaml_string(id);
    let chars = chars_of(scalar.as_str());
    let n = crate::text::trim_end_len(chars.as_slice());
    let name = string_from_chars(copy_range(chars.as_slice(), 0, n).as_slice());
    let mut s = String::from_str("name: ");
    s.append(name.as_str());
    s.append("\ntime_limit_secs: 3.0\nmemory_limit_mb: 512.0\ncpp_compile_args: [-O2, -std=c++20]\nprograms:\n  gen:\n    info: !cpp\n      path: ./src/gen.cpp\n  std:\n    info: !cpp\n      path: ./src/std.cpp\n  brute:\n    info: !cpp\n      path: ./src/brute.cpp\n  val:\n    info: !cpp\n      path: ./src/val.cpp\n  chk:\n    info: !cpp\n      path: ./src/chk.cpp\nsolution: std\nvalidator: val\nchecker: chk\ngenerator: gen\ntest:\n  type: min\n  bundles:\n    sample:\n      cases:\n      - []\n  tasks:\n  - name: sample\n    score: 100.0\n    bundles: [sample]\n");
    s
}

} // verus!
