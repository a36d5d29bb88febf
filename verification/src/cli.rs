//! The decisions behind command-line arguments: positional selectors,
//! whole-second options, comma-separated case arguments and lock waits.

use vstd::prelude::*;
use crate::text::{chars_of, contains, ends_with, has_prefix, parse_unsigned, string_from_chars,
    string_views, unsigned_value};
use crate::time::Duration;

verus! {

/// A positional argument that looks like a case selector: it holds `[`
/// and ends with `]`.
pub open spec fn looks_like_selector(s: Seq<char>) -> bool {
    contains(s, "["@) && s.len() > 0 && s.last() == ']'
}

/// The program and case of `run`: a lone positional that looks like a case
/// selector is the case, not the program.
pub fn normalize_run_positionals(program: Option<String>, case: Option<String>) -> (r: (
    Option<String>,
    Option<String>,
))
    ensures
        match (program, case) {
            (Some(first), None) => if looks_like_selector(first@) {
                r == (None::<String>, Some(first))
            } else {
                r == (Some(first), None::<String>)
            },
            (p, c) => r == (p, c),
        },
{
    match (program, case) {
        (Some(first), None) => {
            let chars = chars_of(first.as_str());
            let bracket = chars_of("[");
            proof {
                reveal_strlit("[");
            }
            let n = chars.len();
            if crate::text::has_substring(chars.as_slice(), bracket.as_slice()) && n > 0 && chars[n
                - 1] == ']' {
                (None, Some(first))
            } else {
                (Some(first), None)
            }
        },
        (p, c) => (p, c),
    }
}

/// Reads a whole, positive number of seconds.
pub fn positive_seconds(value: &str) -> (r: Result<u64, String>)
    ensures
        match unsigned_value(value@, u64::MAX as int) {
            Some(v) => if v == 0 {
                r is Err && r->Err_0@ == "value must be at least 1 second"@
            } else {
                r == Ok::<u64, String>(v as u64)
            },
            None => r is Err && r->Err_0@ == "`"@ + value@
                + "` is not a positive integer number of seconds"@,
        },
{
    let chars = chars_of(value);
    proof {
        reveal_strlit("value must be at least 1 second");
        reveal_strlit("`");
        reveal_strlit("` is not a positive integer number of seconds");
    }
    match parse_unsigned(chars.as_slice(), u64::MAX) {
        Some(v) => {
            if v == 0 {
                Err(String::from_str("value must be at least 1 second"))
            } else {
                Ok(v)
            }
        },
        None => {
            let mut s = String::from_str("`");
            s.append(value);
            s.append("` is not a positive integer number of seconds");
            Err(s)
        },
    }
}

/// How long to wait for a data generation in progress.
pub fn generation_lock_timeout(seconds: Option<u64>) -> (d: Option<Duration>)
    ensures
        match seconds {
            Some(s) => d == Some(Duration { secs: s, nanos: 0 }),
            None => d is None,
        },
{
    match seconds {
        Some(s) => Some(Duration::from_secs(s)),
        None => None,
    }
}

/// The pieces of `s` between commas, in order (one piece when there is no
/// comma).
pub open spec fn comma_pieces(s: Seq<char>) -> Seq<Seq<char>>
    decreases s.len(),
{
    if s.len() == 0 {
        seq![Seq::empty()]
    } else {
        let rest = comma_pieces(s.drop_last());
        if s.last() == ',' {
            rest.push(Seq::empty())
        } else {
            rest.update(rest.len() - 1, rest.last().push(s.last()))
        }
    }
}

proof fn lemma_comma_pieces_nonempty(s: Seq<char>)
    ensures
        comma_pieces(s).len() > 0,
    decreases s.len(),
{
    if s.len() > 0 {
        lemma_comma_pieces_nonempty(s.drop_last());
    }
}

/// The arguments of a case given as one comma-separated value; the empty
/// value is no arguments.
pub fn parse_case_args(value: String) -> (v: Vec<String>)
    ensures
        string_views(v@) == if value@.len() == 0 {
            Seq::empty()
        } else {
            comma_pieces(value@)
        },
{
    let chars = chars_of(value.as_str());
    if chars.len() == 0 {
        return Vec::new();
    }
    let mut done: Vec<String> = Vec::new();
    let mut cur: Vec<char> = Vec::new();
    let mut i: usize = 0;
    while i < chars.len()
        invariant
            i <= chars@.len(),
            string_views(done@).push(cur@) == comma_pieces(chars@.take(i as int)),
        decreases chars@.len() - i,
    {
        assert(chars@.take(i + 1).drop_last() == chars@.take(i as int));
        assert(chars@.take(i + 1).last() == chars@[i as int]);
        proof {
            lemma_comma_pieces_nonempty(chars@.take(i as int));
        }
        let ghost before = string_views(done@);
        let ghost before_cur = cur@;
        if chars[i] == ',' {
            let piece = string_from_chars(cur.as_slice());
            done.push(piece);
            cur = Vec::new();
            assert(string_views(done@) =~= before.push(before_cur));
            assert(string_views(done@).push(cur@) =~= before.push(before_cur).push(Seq::empty()));
        } else {
            cur.push(chars[i]);
            assert(string_views(done@).push(cur@) =~= before.push(before_cur).update(
                before.len() as int,
                before_cur.push(chars@[i as int]),
            ));
        }
        i = i + 1;
    }
    assert(chars@.take(i as int) == chars@);
    let last = string_from_chars(cur.as_slice());
    let ghost before = string_views(done@);
    done.push(last);
    assert(string_views(done@) =~= before.push(last@));
    done
}

} // verus!
