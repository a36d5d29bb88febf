//! Text audits of a package's Markdown and reports: placeholder text left
//! in the statement or editorial, failure artifacts a report refers to,
//! service-side noise, and negative stress plans counted as positive.

use vstd::prelude::*;
use crate::check_package::{IssueSpec, lemma_pushed_none, lemma_pushed_one, lemma_pushed_trans, pushed};
use crate::report::CheckSeverity;
use crate::schema::{StressPlan, StressPlanExpectation};
use crate::text::{
    ascii_lower, ascii_lowercase, chars_of, contains, lines, lowercase_ascii, occurs_at,
    split_lines, string_from_chars, string_views, trim, trim_end_char, trimmed, trimmed_end,
    views,
};

verus! {

/// An ASCII letter or digit, or `_`: a character that continues a word.
pub open spec fn is_word_char(c: char) -> bool {
    ('a' <= c && c <= 'z') || ('A' <= c && c <= 'Z') || ('0' <= c && c <= '9') || c == '_'
}

/// Whether a character continues a word.
pub fn is_ascii_word_char(c: char) -> (b: bool)
    ensures
        b == is_word_char(c),
{
    ('a' <= c && c <= 'z') || ('A' <= c && c <= 'Z') || ('0' <= c && c <= '9') || c == '_'
}

/// `word` (lower-case ASCII) occurs at `i` in `text`, ignoring ASCII case,
/// with no word character right before or after it.
pub open spec fn word_at(text: Seq<char>, word: Seq<char>, i: int) -> bool {
    &&& 0 <= i && i + word.len() <= text.len()
    &&& ascii_lowercase(text.subrange(i, i + word.len())) == word
    &&& !(i > 0 && is_word_char(text[i - 1]))
    &&& !(i + word.len() < text.len() && is_word_char(text[i + word.len()]))
}

/// Whether `word` (lower-case ASCII) occurs in `text` as a whole word,
/// ignoring ASCII case.
pub fn contains_ascii_word_ci(text: &[char], word: &[char]) -> (b: bool)
    ensures
        b == exists|i: int| word_at(text@, word@, i),
{
    if word.len() > text.len() {
        return false;
    }
    let n = text.len();
    let last = n - word.len();
    let mut i: usize = 0;
    loop
        invariant
            n == text@.len(),
            last == text@.len() - word@.len(),
            word@.len() <= text@.len(),
            i <= last,
            forall|j: int| 0 <= j < i ==> !word_at(text@, word@, j),
        ensures
            forall|j: int| 0 <= j <= last ==> !word_at(text@, word@, j),
        decreases last - i,
    {
        let end = i + word.len();
        let window = crate::text::copy_range(text, i, end);
        let lower = lowercase_ascii(window.as_slice());
        let before_ok = !(i > 0 && is_ascii_word_char(text[i - 1]));
        let after_ok = !(end < n && is_ascii_word_char(text[end]));
        if crate::text::chars_eq(lower.as_slice(), word) && before_ok && after_ok {
            assert(word_at(text@, word@, i as int));
            return true;
        }
        assert(!word_at(text@, word@, i as int));
        if i == last {
            break;
        }
        i = i + 1;
    }
    false
}

/// The text of a Markdown heading line: what follows the first `#` of the
/// trimmed line, trimmed.
pub open spec fn heading_text(line: Seq<char>) -> Option<Seq<char>> {
    let t = trim(line);
    if t.len() > 0 && t[0] == '#' {
        Some(trim(t.skip(1)))
    } else {
        None
    }
}

/// The text of a Markdown heading line, if it is one.
pub fn markdown_heading_text(line: &[char]) -> (r: Option<Vec<char>>)
    ensures
        match r {
            Some(v) => heading_text(line@) == Some(v@),
            None => heading_text(line@) is None,
        },
{
    let t = trimmed(line);
    if t.len() > 0 && t[0] == '#' {
        let rest = crate::text::copy_range(t.as_slice(), 1, t.len());
        assert(rest@ == t@.skip(1));
        Some(trimmed(rest.as_slice()))
    } else {
        None
    }
}

/// The line is a heading whose text, lower-cased, is `prefix` or starts
/// with it followed by something other than a word character.
pub open spec fn heading_starts(line: Seq<char>, prefix: Seq<char>) -> bool {
    match heading_text(line) {
        Some(h) => {
            let lower = ascii_lowercase(h);
            lower == prefix || (crate::text::starts_with(lower, prefix) && !(lower.len() > prefix.len()
                && is_word_char(lower[prefix.len() as int])))
        },
        None => false,
    }
}

/// Whether the line is a heading that begins with the word `prefix`.
pub fn heading_starts_with(line: &[char], prefix: &[char]) -> (b: bool)
    ensures
        b == heading_starts(line@, prefix@),
{
    match markdown_heading_text(line) {
        Some(h) => {
            let lower = lowercase_ascii(h.as_slice());
            if crate::text::chars_eq(lower.as_slice(), prefix) {
                return true;
            }
            if !crate::text::has_prefix(lower.as_slice(), prefix) {
                return false;
            }
            !(lower.len() > prefix.len() && is_ascii_word_char(lower[prefix.len()]))
        },
        None => false,
    }
}

/// Whether the line is a heading whose text is exactly `expected`.
pub fn exact_heading(line: &[char], expected: &[char]) -> (b: bool)
    ensures
        b == (heading_text(line@) == Some(expected@)),
{
    match markdown_heading_text(line) {
        Some(h) => crate::text::chars_eq(h.as_slice(), expected),
        None => false,
    }
}

/// Some line of the text satisfies `heading_starts` with `prefix`.
pub open spec fn any_heading_starts(ls: Seq<Seq<char>>, prefix: Seq<char>) -> bool {
    exists|i: int| 0 <= i < ls.len() && heading_starts(#[trigger] ls[i], prefix)
}

/// Some line of the text is a heading with exactly the text `expected`.
pub open spec fn any_exact_heading(ls: Seq<Seq<char>>, expected: Seq<char>) -> bool {
    exists|i: int| 0 <= i < ls.len() && #[trigger] heading_text(ls[i]) == Some(expected)
}

/// The placeholder pattern a statement or editorial matches, checked in
/// order: the word TODO, a heading `Statement` or `Editorial`, a bare
/// heading 题面 or 题解, and the phrases 题面占位, 题解占位, 待补充.
pub open spec fn placeholder_of(text: Seq<char>) -> Option<Seq<char>> {
    let ls = lines(text);
    if exists|i: int| word_at(text, "todo"@, i) {
        Some("\\bTODO\\b"@)
    } else if any_heading_starts(ls, "statement"@) {
        Some("#\\s*Statement\\b"@)
    } else if any_heading_starts(ls, "editorial"@) {
        Some("#\\s*Editorial\\b"@)
    } else if any_exact_heading(ls, "题面"@) {
        Some("#\\s*题面\\s*$"@)
    } else if any_exact_heading(ls, "题解"@) {
        Some("#\\s*题解\\s*$"@)
    } else if contains(text, "题面占位"@) {
        Some("题面占位"@)
    } else if contains(text, "题解占位"@) {
        Some("题解占位"@)
    } else if contains(text, "待补充"@) {
        Some("待补充"@)
    } else {
        None
    }
}

fn some_heading_starts(ls: &Vec<Vec<char>>, prefix: &[char]) -> (b: bool)
    ensures
        b == any_heading_starts(views(ls@), prefix@),
{
    let mut i: usize = 0;
    while i < ls.len()
        invariant
            i <= ls@.len(),
            forall|j: int| 0 <= j < i ==> !heading_starts(#[trigger] views(ls@)[j], prefix@),
        decreases ls@.len() - i,
    {
        if heading_starts_with(ls[i].as_slice(), prefix) {
            assert(heading_starts(views(ls@)[i as int], prefix@));
            return true;
        }
        assert(views(ls@)[i as int] == ls@[i as int]@);
        i = i + 1;
    }
    false
}

fn some_exact_heading(ls: &Vec<Vec<char>>, expected: &[char]) -> (b: bool)
    ensures
        b == any_exact_heading(views(ls@), expected@),
{
    let mut i: usize = 0;
    while i < ls.len()
        invariant
            i <= ls@.len(),
            forall|j: int| 0 <= j < i ==> #[trigger] heading_text(views(ls@)[j]) != Some(expected@),
        decreases ls@.len() - i,
    {
        if exact_heading(ls[i].as_slice(), expected) {
            assert(heading_text(views(ls@)[i as int]) == Some(expected@));
            return true;
        }
        assert(views(ls@)[i as int] == ls@[i as int]@);
        i = i + 1;
    }
    false
}

/// The placeholder pattern a statement or editorial matches, if any.
pub fn placeholder_pattern(text: &str) -> (r: Option<&'static str>)
    ensures
        match r {
            Some(p) => placeholder_of(text@) == Some(p@),
            None => placeholder_of(text@) is None,
        },
{
    proof {
        reveal_strlit("todo");
        reveal_strlit("statement");
        reveal_strlit("editorial");
        reveal_strlit("题面");
        reveal_strlit("题解");
        reveal_strlit("题面占位");
        reveal_strlit("题解占位");
        reveal_strlit("待补充");
    }
    let chars = chars_of(text);
    let ls = split_lines(chars.as_slice());
    if contains_ascii_word_ci(chars.as_slice(), chars_of("todo").as_slice()) {
        return Some("\\bTODO\\b");
    }
    if some_heading_starts(&ls, chars_of("statement").as_slice()) {
        return Some("#\\s*Statement\\b");
    }
    if some_heading_starts(&ls, chars_of("editorial").as_slice()) {
        return Some("#\\s*Editorial\\b");
    }
    if some_exact_heading(&ls, chars_of("题面").as_slice()) {
        return Some("#\\s*题面\\s*$");
    }
    if some_exact_heading(&ls, chars_of("题解").as_slice()) {
        return Some("#\\s*题解\\s*$");
    }
    if crate::text::has_substring(chars.as_slice(), chars_of("题面占位").as_slice()) {
        return Some("题面占位");
    }
    if crate::text::has_substring(chars.as_slice(), chars_of("题解占位").as_slice()) {
        return Some("题解占位");
    }
    if crate::text::has_substring(chars.as_slice(), chars_of("待补充").as_slice()) {
        return Some("待补充");
    }
    None
}

/// A character of a failure-artifact path.
pub open spec fn is_ref_char(c: char) -> bool {
    is_word_char(c) || c == '.' || c == '-' || c == '/'
}

/// Whether a character continues a failure-artifact path.
pub fn is_failure_ref_char(ch: char) -> (b: bool)
    ensures
        b == is_ref_char(ch),
{
    is_ascii_word_char(ch) || ch == '.' || ch == '-' || ch == '/'
}

/// A trailing character that is punctuation after a path, not part of it.
pub open spec fn is_ref_trailer(c: char) -> bool {
    c == '.' || c == ',' || c == ')' || c == ';' || c == ']'
}

/// `s` without its trailing run of punctuation.
pub open spec fn trim_ref_trailers(s: Seq<char>) -> Seq<char>
    decreases s.len(),
{
    if s.len() > 0 && is_ref_trailer(s.last()) {
        trim_ref_trailers(s.drop_last())
    } else {
        s
    }
}

/// The end of the path that starts at `begin`: the first character from
/// there that cannot be part of a path, or the end of the text.
pub open spec fn ref_end(text: Seq<char>, i: int) -> int
    decreases text.len() - i,
{
    if i < 0 || i >= text.len() {
        text.len() as int
    } else if !is_ref_char(text[i]) {
        i
    } else {
        ref_end(text, i + 1)
    }
}

/// Where a failure-artifact path starts: `tests/failures/` or
/// `.cptool/failures/` occurs there. Gives the length of the marker.
pub open spec fn marker_len_at(text: Seq<char>, i: int) -> Option<int> {
    if crate::text::occurs_at(text, "tests/failures/"@, i) {
        Some(15)
    } else if crate::text::occurs_at(text, ".cptool/failures/"@, i) {
        Some(17)
    } else {
        None
    }
}

/// The first place at or after `i` where a failure-artifact path starts,
/// with the length of its marker.
pub open spec fn next_marker(text: Seq<char>, i: int) -> Option<(int, int)>
    decreases text.len() - i,
{
    if i < 0 || i >= text.len() {
        None
    } else {
        match marker_len_at(text, i) {
            Some(m) => Some((i, m)),
            None => next_marker(text, i + 1),
        }
    }
}

/// The failure artifacts referred to from `start` on: each occurrence of
/// `tests/failures/` or `.cptool/failures/` and the path that continues
/// it, trailing punctuation dropped.
pub open spec fn refs_from(text: Seq<char>, start: int) -> Seq<Seq<char>>
    decreases text.len() - start,
{
    if start < 0 || start > text.len() {
        Seq::empty()
    } else {
        match next_marker(text, start) {
            Some((begin, m)) => {
                let end = ref_end(text, begin + m);
                if end <= start || end > text.len() {
                    Seq::empty()
                } else {
                    seq![trim_ref_trailers(text.subrange(begin, end))] + refs_from(text, end)
                }
            },
            None => Seq::empty(),
        }
    }
}

proof fn lemma_next_marker(text: Seq<char>, i: int)
    requires
        0 <= i,
    ensures
        match next_marker(text, i) {
            Some((b, m)) => i <= b && b + m <= text.len() && marker_len_at(text, b) == Some(m),
            None => true,
        },
    decreases text.len() - i,
{
    reveal_strlit("tests/failures/");
    reveal_strlit(".cptool/failures/");
    if i < text.len() && marker_len_at(text, i) is None {
        lemma_next_marker(text, i + 1);
    }
}

/// The first place at or after `from` where a failure-artifact path
/// starts, with the length of its marker.
fn find_marker(text: &[char], from: usize) -> (r: Option<(usize, usize)>)
    ensures
        match r {
            Some((b, m)) => next_marker(text@, from as int) == Some((b as int, m as int)),
            None => next_marker(text@, from as int) is None,
        },
{
    let tests = chars_of("tests/failures/");
    let cptool = chars_of(".cptool/failures/");
    proof {
        reveal_strlit("tests/failures/");
        reveal_strlit(".cptool/failures/");
    }
    let mut i = from;
    while i < text.len()
        invariant
            from <= i,
            tests@ == "tests/failures/"@,
            cptool@ == ".cptool/failures/"@,
            next_marker(text@, from as int) == next_marker(text@, i as int),
        decreases text@.len() - i,
    {
        if crate::text::matches_at(text, tests.as_slice(), i) {
            return Some((i, 15));
        }
        if crate::text::matches_at(text, cptool.as_slice(), i) {
            return Some((i, 17));
        }
        i = i + 1;
    }
    None
}

proof fn lemma_ref_end_bounds(text: Seq<char>, i: int)
    requires
        0 <= i <= text.len(),
    ensures
        i <= ref_end(text, i) <= text.len(),
        forall|k: int| i <= k < ref_end(text, i) ==> is_ref_char(#[trigger] text[k]),
    decreases text.len() - i,
{
    if i < text.len() && is_ref_char(text[i]) {
        lemma_ref_end_bounds(text, i + 1);
    }
}

fn find_ref_end(text: &[char], from: usize) -> (e: usize)
    requires
        from <= text@.len(),
    ensures
        e == ref_end(text@, from as int),
{
    let mut i = from;
    while i < text.len() && is_failure_ref_char(text[i])
        invariant
            from <= i <= text@.len(),
            ref_end(text@, i as int) == ref_end(text@, from as int),
        decreases text@.len() - i,
    {
        i = i + 1;
    }
    i
}

fn trimmed_ref(s: &[char]) -> (v: Vec<char>)
    ensures
        v@ == trim_ref_trailers(s@),
{
    let mut n = s.len();
    assert(s@.subrange(0, n as int) == s@);
    while n > 0 && (s[n - 1] == '.' || s[n - 1] == ',' || s[n - 1] == ')' || s[n - 1] == ';'
        || s[n - 1] == ']')
        invariant
            n <= s@.len(),
            trim_ref_trailers(s@.subrange(0, n as int)) == trim_ref_trailers(s@),
        decreases n,
    {
        assert(s@.subrange(0, n as int).drop_last() == s@.subrange(0, n - 1));
        n = n - 1;
    }
    crate::text::copy_range(s, 0, n)
}

/// The failure artifacts a report refers to with `tests/failures/...` or
/// `.cptool/failures/...`.
pub fn failure_references(text: &str) -> (refs: Vec<String>)
    ensures
        string_views(refs@) == refs_from(text@, 0),
{
    let chars = chars_of(text);
    let mut refs: Vec<String> = Vec::new();
    let mut start: usize = 0;
    while start <= chars.len()
        invariant
            start <= chars@.len() + 1,
            chars@ == text@,
            string_views(refs@) + refs_from(chars@, start as int) == refs_from(chars@, 0),
        decreases chars@.len() + 1 - start,
    {
        match find_marker(chars.as_slice(), start) {
            Some((begin, m)) => {
                proof {
                    lemma_next_marker(chars@, start as int);
                }
                let end = find_ref_end(chars.as_slice(), begin + m);
                proof {
                    lemma_ref_end_bounds(chars@, begin + m);
                }
                let piece = crate::text::copy_range(chars.as_slice(), begin, end);
                let r = trimmed_ref(piece.as_slice());
                let ghost before_refs = string_views(refs@);
                let s = string_from_chars(r.as_slice());
                refs.push(s);
                assert(string_views(refs@) =~= before_refs.push(s@));
                assert(seq![s@] + refs_from(chars@, end as int) =~= refs_from(chars@, start as int));
                assert(before_refs.push(s@) + refs_from(chars@, end as int) =~= before_refs + (seq![
                    s@,
                ] + refs_from(chars@, end as int)));
                start = end;
            },
            None => {
                assert(refs_from(chars@, start as int) =~= Seq::<Seq<char>>::empty());
                assert(string_views(refs@) + Seq::<Seq<char>>::empty() =~= string_views(refs@));
                return refs;
            },
        }
    }
    assert(refs_from(chars@, start as int) =~= Seq::<Seq<char>>::empty());
    assert(string_views(refs@) + Seq::<Seq<char>>::empty() =~= string_views(refs@));
    refs
}

} // verus!

verus! {

/// The text `str::to_lowercase` gives for a text.
pub uninterp spec fn unicode_lowercase(s: Seq<char>) -> Seq<char>;

/// Calls `str::to_lowercase`; the contract claims only that the result is
/// the function `unicode_lowercase` of the text, which the Unicode case
/// tables make it.
#[verifier::external_body]
fn to_lowercase(s: &str) -> (r: String)
    ensures
        r@ == unicode_lowercase(s@),
{
    s.to_lowercase()
}

/// The tokens that mark service-side trouble rather than a package issue.
pub open spec fn service_noise_tokens() -> Seq<Seq<char>> {
    seq!["服务侧噪音"@, "服务端噪音"@, "调度异常"@, "会话中断"@, "网络中断"@, "rate limit"@, "server-side"@]
}

/// The tokens that mark service-side trouble rather than a package issue.
pub fn service_noise() -> (v: Vec<&'static str>)
    ensures
        v@.map_values(|s: &str| s@) == service_noise_tokens(),
{
    let v = vec!["服务侧噪音", "服务端噪音", "调度异常", "会话中断", "网络中断", "rate limit", "server-side"];
    assert(v@.map_values(|s: &str| s@) =~= service_noise_tokens());
    v
}

/// The index of the first noise token whose lower-case form occurs in the
/// lower-cased text, at or after `i`.
pub open spec fn noise_from(lowered: Seq<char>, i: int) -> Option<int>
    decreases service_noise_tokens().len() - i,
{
    if i < 0 || i >= service_noise_tokens().len() {
        None
    } else if contains(lowered, unicode_lowercase(service_noise_tokens()[i])) {
        Some(i)
    } else {
        noise_from(lowered, i + 1)
    }
}

/// The first service-side noise token a report mentions, ignoring case.
pub fn service_noise_token(text: &str) -> (r: Option<&'static str>)
    ensures
        match r {
            Some(t) => exists|i: int|
                noise_from(unicode_lowercase(text@), 0) == Some(i) && t@ == service_noise_tokens()[i],
            None => noise_from(unicode_lowercase(text@), 0) is None,
        },
{
    let lowered = to_lowercase(text);
    let lowered_chars = chars_of(lowered.as_str());
    let tokens = service_noise();
    let mut i: usize = 0;
    while i < tokens.len()
        invariant
            i <= tokens@.len(),
            tokens@.map_values(|s: &str| s@) == service_noise_tokens(),
            lowered_chars@ == unicode_lowercase(text@),
            noise_from(lowered_chars@, 0) == noise_from(lowered_chars@, i as int),
        decreases tokens@.len() - i,
    {
        let token = tokens[i];
        assert(token@ == service_noise_tokens()[i as int]);
        let low = to_lowercase(token);
        let low_chars = chars_of(low.as_str());
        if crate::text::has_substring(lowered_chars.as_slice(), low_chars.as_slice()) {
            return Some(token);
        }
        i = i + 1;
    }
    None
}

/// The warning for a placeholder left in a statement or editorial.
pub open spec fn placeholder_issues(path: Seq<char>, text: Seq<char>) -> Seq<IssueSpec> {
    match placeholder_of(text) {
        Some(p) => seq![(CheckSeverity::Warning, "placeholder_text"@, "placeholder pattern matched: "@ + p, Some(path))],
        None => Seq::empty(),
    }
}

/// Records a placeholder left in the text of a statement or editorial.
pub fn audit_placeholder(report: &mut crate::report::CheckReport, path: &String, text: &str)
    ensures
        final(report).work_dir == old(report).work_dir,
        pushed(old(report).issues@, final(report).issues@, placeholder_issues(path@, text@)),
{
    proof {
        reveal_strlit("placeholder_text");
        reveal_strlit("placeholder pattern matched: ");
        lemma_pushed_none(old(report).issues@);
    }
    match placeholder_pattern(text) {
        Some(pattern) => {
            let mut message = String::from_str("placeholder pattern matched: ");
            message.append(pattern);
            let ghost before = report.issues@;
            report.warning(String::from_str("placeholder_text"), message, Some(path.clone()));
            proof {
                lemma_pushed_one(before, report.issues@, placeholder_issues(path@, text@)[0]);
                assert(seq![placeholder_issues(path@, text@)[0]] =~= placeholder_issues(path@, text@));
            }
        },
        None => {
            assert(placeholder_issues(path@, text@) =~= Seq::<IssueSpec>::empty());
        },
    }
}

/// The warning for the service-side noise a report mentions, if any.
pub open spec fn noise_issues(path: Seq<char>, text: Seq<char>) -> Seq<IssueSpec> {
    match noise_from(unicode_lowercase(text), 0) {
        Some(i) => seq![
            (
                CheckSeverity::Warning,
                "service_side_noise"@,
                "service-side noise token should not be a package issue: "@ + service_noise_tokens()[i],
                Some(path),
            ),
        ],
        None => Seq::empty(),
    }
}

/// A warning for each referenced failure artifact that does not exist,
/// in the order of the references.
pub open spec fn missing_reference_issues(path: Seq<char>, refs: Seq<Seq<char>>, exists: Seq<bool>) -> Seq<
    IssueSpec,
>
    decreases exists.len(),
{
    if exists.len() == 0 || refs.len() != exists.len() {
        Seq::empty()
    } else {
        missing_reference_issues(path, refs.drop_last(), exists.drop_last()) + if exists.last() {
            Seq::empty()
        } else {
            seq![
                (
                    CheckSeverity::Warning,
                    "missing_failure_reference"@,
                    "referenced failure artifact does not exist: "@ + refs.last(),
                    Some(path),
                ),
            ]
        }
    }
}

/// The issues recorded for a report file's text: the noise warning, then
/// the missing references.
pub open spec fn report_text_issues(path: Seq<char>, text: Seq<char>, exists: Seq<bool>) -> Seq<IssueSpec> {
    noise_issues(path, text) + missing_reference_issues(path, refs_from(text, 0), exists)
}

/// Records the audits of a report file's text: service-side noise (once)
/// and every failure artifact it names that does not exist; `exists` says,
/// for each reference in order, whether the artifact is there.
pub fn audit_report_text(
    report: &mut crate::report::CheckReport,
    path: &String,
    text: &str,
    exists: &[bool],
)
    requires
        exists@.len() == refs_from(text@, 0).len(),
    ensures
        final(report).work_dir == old(report).work_dir,
        pushed(old(report).issues@, final(report).issues@, report_text_issues(path@, text@, exists@)),
{
    proof {
        reveal_strlit("service_side_noise");
        reveal_strlit("service-side noise token should not be a package issue: ");
        reveal_strlit("missing_failure_reference");
        reveal_strlit("referenced failure artifact does not exist: ");
        lemma_pushed_none(old(report).issues@);
    }
    match service_noise_token(text) {
        Some(token) => {
            let mut message = String::from_str("service-side noise token should not be a package issue: ");
            message.append(token);
            let ghost before = report.issues@;
            report.warning(String::from_str("service_side_noise"), message, Some(path.clone()));
            proof {
                lemma_pushed_one(before, report.issues@, noise_issues(path@, text@)[0]);
                assert(seq![noise_issues(path@, text@)[0]] =~= noise_issues(path@, text@));
            }
        },
        None => {
            assert(noise_issues(path@, text@) =~= Seq::<IssueSpec>::empty());
        },
    }
    let ghost base = report.issues@;
    let refs = failure_references(text);
    let ghost rs = refs_from(text@, 0);
    let mut i: usize = 0;
    proof {
        lemma_pushed_none(base);
        assert(missing_reference_issues(path@, rs.take(0), exists@.take(0)) =~= Seq::<IssueSpec>::empty());
    }
    while i < refs.len()
        invariant
            i <= refs@.len(),
            refs@.len() == exists@.len(),
            string_views(refs@) == rs,
            rs.len() == exists@.len(),
            report.work_dir == old(report).work_dir,
            pushed(old(report).issues@, base, noise_issues(path@, text@)),
            pushed(base, report.issues@, missing_reference_issues(path@, rs.take(i as int), exists@.take(i as int))),
        decreases refs@.len() - i,
    {
        let ghost before = report.issues@;
        assert(exists@.take(i + 1).drop_last() =~= exists@.take(i as int));
        assert(rs.take(i + 1).drop_last() =~= rs.take(i as int));
        assert(refs@[i as int]@ == rs[i as int]);
        if !exists[i] {
            let mut message = String::from_str("referenced failure artifact does not exist: ");
            message.append(refs[i].as_str());
            report.warning(
                String::from_str("missing_failure_reference"),
                message,
                Some(path.clone()),
            );
            proof {
                let e = (
                    CheckSeverity::Warning,
                    "missing_failure_reference"@,
                    "referenced failure artifact does not exist: "@ + rs[i as int],
                    Some(path@),
                );
                lemma_pushed_one(before, report.issues@, e);
                lemma_pushed_trans(
                    base,
                    before,
                    report.issues@,
                    missing_reference_issues(path@, rs.take(i as int), exists@.take(i as int)),
                    seq![e],
                );
            }
        } else {
            assert(missing_reference_issues(path@, rs.take(i + 1), exists@.take(i + 1)) =~= missing_reference_issues(
                path@,
                rs.take(i as int),
                exists@.take(i as int),
            ));
        }
        i = i + 1;
    }
    proof {
        assert(exists@.take(i as int) =~= exists@);
        assert(rs.take(i as int) =~= rs);
        lemma_pushed_trans(
            old(report).issues@,
            base,
            report.issues@,
            noise_issues(path@, text@),
            missing_reference_issues(path@, rs, exists@),
        );
    }
}

/// The line mentions positive coverage (正向) and the plan's name.
pub open spec fn positive_line_names(line: Seq<char>, name: Seq<char>) -> bool {
    contains(line, "正向"@) && contains(line, name)
}

/// Some line of the text counts the plan as positive coverage.
pub open spec fn counted_positive(ls: Seq<Seq<char>>, name: Seq<char>) -> bool {
    exists|i: int| 0 <= i < ls.len() && positive_line_names(#[trigger] ls[i], name)
}

/// The first plan, among those expected to fail, at or after `k`, that
/// the text counts as positive coverage.
pub open spec fn misclassified_from(plans: Seq<StressPlan>, ls: Seq<Seq<char>>, k: int) -> Option<int>
    decreases plans.len() - k,
{
    if k < 0 || k >= plans.len() {
        None
    } else if plans[k].expect == StressPlanExpectation::Fail && counted_positive(ls, plans[k].name@) {
        Some(k)
    } else {
        misclassified_from(plans, ls, k + 1)
    }
}

fn line_counts_positive(ls: &Vec<Vec<char>>, name: &[char]) -> (b: bool)
    ensures
        b == counted_positive(views(ls@), name@),
{
    let marker = chars_of("正向");
    proof {
        reveal_strlit("正向");
    }
    let mut i: usize = 0;
    while i < ls.len()
        invariant
            i <= ls@.len(),
            marker@ == "正向"@,
            forall|j: int| 0 <= j < i ==> !positive_line_names(#[trigger] views(ls@)[j], name@),
        decreases ls@.len() - i,
    {
        assert(views(ls@)[i as int] == ls@[i as int]@);
        if crate::text::has_substring(ls[i].as_slice(), marker.as_slice())
            && crate::text::has_substring(ls[i].as_slice(), name) {
            assert(positive_line_names(views(ls@)[i as int], name@));
            return true;
        }
        i = i + 1;
    }
    false
}

/// The first stress plan expected to fail that a quality report counts as
/// positive coverage.
pub fn negative_plan_counted_as_positive(plans: &[StressPlan], text: &str) -> (r: Option<usize>)
    ensures
        match r {
            Some(k) => misclassified_from(plans@, lines(text@), 0) == Some(k as int) && k
                < plans@.len(),
            None => misclassified_from(plans@, lines(text@), 0) is None,
        },
{
    let chars = chars_of(text);
    let ls = split_lines(chars.as_slice());
    let mut k: usize = 0;
    while k < plans.len()
        invariant
            k <= plans@.len(),
            views(ls@) == lines(text@),
            misclassified_from(plans@, lines(text@), 0) == misclassified_from(
                plans@,
                lines(text@),
                k as int,
            ),
        decreases plans@.len() - k,
    {
        if plans[k].expect == StressPlanExpectation::Fail {
            let name = chars_of(plans[k].name.as_str());
            if line_counts_positive(&ls, name.as_slice()) {
                return Some(k);
            }
        }
        k = k + 1;
    }
    None
}

/// The warning for the first plan expected to fail that the quality
/// report counts as positive coverage.
pub open spec fn negative_plan_issues(path: Seq<char>, plans: Seq<StressPlan>, text: Seq<char>) -> Seq<IssueSpec> {
    match misclassified_from(plans, lines(text), 0) {
        Some(k) => seq![
            (
                CheckSeverity::Warning,
                "negative_plan_counted_as_positive"@,
                "expect: fail plan appears in positive coverage text: "@ + plans[k].name@,
                Some(path),
            ),
        ],
        None => Seq::empty(),
    }
}

/// Records the first plan expected to fail that the quality report's text
/// counts as positive coverage.
pub fn audit_negative_plans(report: &mut crate::report::CheckReport, path: &String, plans: &[StressPlan], text: &str)
    ensures
        final(report).work_dir == old(report).work_dir,
        pushed(old(report).issues@, final(report).issues@, negative_plan_issues(path@, plans@, text@)),
{
    proof {
        reveal_strlit("negative_plan_counted_as_positive");
        reveal_strlit("expect: fail plan appears in positive coverage text: ");
        lemma_pushed_none(old(report).issues@);
    }
    match negative_plan_counted_as_positive(plans, text) {
        Some(k) => {
            let mut message = String::from_str("expect: fail plan appears in positive coverage text: ");
            message.append(plans[k].name.as_str());
            let ghost before = report.issues@;
            report.warning(String::from_str("negative_plan_counted_as_positive"), message, Some(path.clone()));
            proof {
                lemma_pushed_one(before, report.issues@, negative_plan_issues(path@, plans@, text@)[0]);
                assert(seq![negative_plan_issues(path@, plans@, text@)[0]] =~= negative_plan_issues(path@, plans@, text@));
            }
        },
        None => {
            assert(negative_plan_issues(path@, plans@, text@) =~= Seq::<IssueSpec>::empty());
        },
    }
}

} // verus!
