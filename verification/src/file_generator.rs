//! Where a case's input comes from: a generator program of the package,
//! or `:file`, which reads a handwritten `.in` fixture under
//! `fixtures/input`. Paths are taken with `/` as separator.

use vstd::prelude::*;
use crate::problem::{file_generator, file_generator_name, program_exists, has_program};
use crate::schema::{Problem, RunResult, failure_text};
use crate::text::{chars_of, chars_eq, decimal, usize_to_decimal};

verus! {

/// A path taken apart: whether it starts at the root, and its names in
/// order, with empty names and `.` left out.
pub struct PathParts {
    pub rooted: bool,
    pub names: Vec<Vec<char>>,
}

/// The names of a path: the pieces between `/`, without empty ones and
/// `.`; `from` is where the current piece starts.
pub open spec fn names_from(s: Seq<char>, from: int, i: int) -> Seq<Seq<char>>
    decreases s.len() - i,
{
    if i < 0 || i > s.len() || from < 0 || from > i {
        Seq::empty()
    } else if i == s.len() {
        keep_name(s.subrange(from, i))
    } else if s[i] == '/' {
        keep_name(s.subrange(from, i)) + names_from(s, i + 1, i + 1)
    } else {
        names_from(s, from, i + 1)
    }
}

/// A piece as a name: none when it is empty or `.`.
pub open spec fn keep_name(piece: Seq<char>) -> Seq<Seq<char>> {
    if piece.len() == 0 || piece == seq!['.'] {
        Seq::empty()
    } else {
        seq![piece]
    }
}

/// The path `s` taken apart.
pub open spec fn path_names(s: Seq<char>) -> Seq<Seq<char>> {
    names_from(s, 0, 0)
}

pub open spec fn is_rooted(s: Seq<char>) -> bool {
    s.len() > 0 && s[0] == '/'
}

/// Takes a path apart.
pub fn split_path(s: &[char]) -> (p: PathParts)
    ensures
        p.rooted == is_rooted(s@),
        p.names@.map_values(|n: Vec<char>| n@) == path_names(s@),
{
    let mut names: Vec<Vec<char>> = Vec::new();
    let mut from: usize = 0;
    let mut i: usize = 0;
    while i < s.len()
        invariant
            from <= i <= s@.len(),
            names@.map_values(|n: Vec<char>| n@) + names_from(s@, from as int, i as int) == path_names(s@),
        decreases s@.len() - i,
    {
        if s[i] == '/' {
            let piece = crate::text::copy_range(s, from, i);
            let ghost before = names@.map_values(|n: Vec<char>| n@);
            let dot = piece.len() == 1 && piece[0] == '.';
            proof {
                assert(dot == (piece@ == seq!['.'])) by {
                    if piece@.len() == 1 && piece@[0] == '.' {
                        assert(piece@ =~= seq!['.']);
                    }
                }
            }
            if piece.len() > 0 && !dot {
                names.push(piece);
                assert(names@.map_values(|n: Vec<char>| n@) =~= before + keep_name(s@.subrange(from as int, i as int)));
            } else {
                assert(names@.map_values(|n: Vec<char>| n@) =~= before + keep_name(s@.subrange(from as int, i as int)));
            }
            assert(names_from(s@, from as int, i as int) == keep_name(s@.subrange(from as int, i as int))
                + names_from(s@, i + 1, i + 1));
            from = i + 1;
        }
        i = i + 1;
    }
    let piece = crate::text::copy_range(s, from, i);
    let ghost before = names@.map_values(|n: Vec<char>| n@);
    let dot = piece.len() == 1 && piece[0] == '.';
    proof {
        assert(dot == (piece@ == seq!['.'])) by {
            if piece@.len() == 1 && piece@[0] == '.' {
                assert(piece@ =~= seq!['.']);
            }
        }
    }
    if piece.len() > 0 && !dot {
        names.push(piece);
    }
    assert(names@.map_values(|n: Vec<char>| n@) =~= before + keep_name(s@.subrange(from as int, i as int)));
    PathParts { rooted: s.len() > 0 && s[0] == '/', names }
}

/// The names of a path with `..` folded in, as `PathBuf::pop` does: `..`
/// removes the name before it, and stays when there is none.
pub open spec fn fold_parents(names: Seq<Seq<char>>) -> Seq<Seq<char>>
    decreases names.len(),
{
    if names.len() == 0 {
        Seq::empty()
    } else {
        let before = fold_parents(names.drop_last());
        if names.last() == ".."@ {
            if before.len() > 0 {
                before.drop_last()
            } else {
                before.push(names.last())
            }
        } else {
            before.push(names.last())
        }
    }
}

/// Folds the `..` names of a path into it.
pub fn fold_parent_names(names: &Vec<Vec<char>>) -> (r: Vec<Vec<char>>)
    ensures
        r@.map_values(|n: Vec<char>| n@) == fold_parents(names@.map_values(|n: Vec<char>| n@)),
{
    proof {
        reveal_strlit("..");
    }
    let ghost all = names@.map_values(|n: Vec<char>| n@);
    let mut r: Vec<Vec<char>> = Vec::new();
    let mut i: usize = 0;
    while i < names.len()
        invariant
            i <= names@.len(),
            all == names@.map_values(|n: Vec<char>| n@),
            r@.map_values(|n: Vec<char>| n@) == fold_parents(all.take(i as int)),
        decreases names@.len() - i,
    {
        assert(all.take(i + 1).drop_last() =~= all.take(i as int));
        assert(all.take(i + 1).last() == names@[i as int]@);
        let ghost before = r@.map_values(|n: Vec<char>| n@);
        let name = &names[i];
        let parent = name.len() == 2 && name[0] == '.' && name[1] == '.';
        proof {
            reveal_strlit("..");
            if parent {
                assert(name@ =~= ".."@);
            } else if name@ == ".."@ {
                assert(name@[0] == '.' && name@[1] == '.');
            }
        }
        if parent && r.len() > 0 {
            r.pop();
            assert(r@.map_values(|n: Vec<char>| n@) =~= before.drop_last());
        } else {
            r.push(copy_chars(name));
            assert(r@.map_values(|n: Vec<char>| n@) =~= before.push(name@));
        }
        i = i + 1;
    }
    assert(all.take(i as int) =~= all);
    r
}

/// The names of `arg` taken from `work_dir`: the path itself when it
/// starts at the root, else the two joined; `..` folded in.
pub open spec fn resolved_names(work_dir: Seq<char>, arg: Seq<char>) -> Seq<Seq<char>> {
    if is_rooted(arg) {
        fold_parents(path_names(arg))
    } else {
        fold_parents(path_names(work_dir) + path_names(arg))
    }
}

pub open spec fn resolved_rooted(work_dir: Seq<char>, arg: Seq<char>) -> bool {
    if is_rooted(arg) {
        true
    } else {
        is_rooted(work_dir)
    }
}

/// The name has the extension `in`: it ends with `.in` and something
/// comes before.
pub open spec fn has_in_extension(name: Seq<char>) -> bool {
    name.len() > 3 && name.subrange(name.len() - 3, name.len() as int) == ".in"@
}

/// What `:file` requires of its argument, read from `work_dir`: that it
/// lies under `fixtures/input` and names a `.in` file.
pub open spec fn fixture_path_error(work_dir: Seq<char>, arg: Seq<char>, context: Seq<char>) -> Option<Seq<char>> {
    let dir = fold_parents(path_names(work_dir) + seq!["fixtures"@, "input"@]);
    let src = resolved_names(work_dir, arg);
    if !(resolved_rooted(work_dir, arg) == is_rooted(work_dir) && dir.len() <= src.len() && src.subrange(
        0,
        dir.len() as int,
    ) == dir) {
        Some(
            "generator `:file` for "@ + context + " must read handwritten input from fixtures/input; got `"@
                + arg + "`"@,
        )
    } else if !(src.len() > 0 && has_in_extension(src.last())) {
        Some("generator `:file` for "@ + context + " must read a .in fixture under fixtures/input; got `"@ + arg + "`"@)
    } else {
        None
    }
}

fn copy_chars(v: &Vec<char>) -> (r: Vec<char>)
    ensures
        r@ == v@,
{
    crate::text::copy_range(v.as_slice(), 0, v.len())
}

fn names_prefix(prefix: &Vec<Vec<char>>, names: &Vec<Vec<char>>) -> (b: bool)
    ensures
        b == (prefix@.len() <= names@.len() && names@.map_values(|n: Vec<char>| n@).subrange(0, prefix@.len() as int)
            == prefix@.map_values(|n: Vec<char>| n@)),
{
    if prefix.len() > names.len() {
        return false;
    }
    let ghost p = prefix@.map_values(|n: Vec<char>| n@);
    let ghost q = names@.map_values(|n: Vec<char>| n@);
    let mut i: usize = 0;
    while i < prefix.len()
        invariant
            i <= prefix@.len() <= names@.len(),
            p == prefix@.map_values(|n: Vec<char>| n@),
            q == names@.map_values(|n: Vec<char>| n@),
            forall|j: int| 0 <= j < i ==> p[j] == q[j],
        decreases prefix@.len() - i,
    {
        if !chars_eq(prefix[i].as_slice(), names[i].as_slice()) {
            assert(p[i as int] != q.subrange(0, p.len() as int)[i as int]);
            return false;
        }
        i = i + 1;
    }
    assert(q.subrange(0, p.len() as int) =~= p);
    true
}

fn join_names(a: &Vec<Vec<char>>, b: &Vec<Vec<char>>) -> (r: Vec<Vec<char>>)
    ensures
        r@.map_values(|n: Vec<char>| n@) == a@.map_values(|n: Vec<char>| n@) + b@.map_values(|n: Vec<char>| n@),
{
    let mut r: Vec<Vec<char>> = Vec::new();
    let mut i: usize = 0;
    while i < a.len()
        invariant
            i <= a@.len(),
            r@.map_values(|n: Vec<char>| n@) == a@.map_values(|n: Vec<char>| n@).take(i as int),
        decreases a@.len() - i,
    {
        let ghost before = r@.map_values(|n: Vec<char>| n@);
        r.push(copy_chars(&a[i]));
        assert(r@.map_values(|n: Vec<char>| n@) =~= before.push(a@[i as int]@));
        assert(a@.map_values(|n: Vec<char>| n@).take(i + 1) =~= a@.map_values(|n: Vec<char>| n@).take(i as int).push(
            a@[i as int]@,
        ));
        i = i + 1;
    }
    let mut j: usize = 0;
    while j < b.len()
        invariant
            j <= b@.len(),
            r@.map_values(|n: Vec<char>| n@) == a@.map_values(|n: Vec<char>| n@) + b@.map_values(|n: Vec<char>| n@).take(
                j as int,
            ),
        decreases b@.len() - j,
    {
        let ghost before = r@.map_values(|n: Vec<char>| n@);
        r.push(copy_chars(&b[j]));
        assert(r@.map_values(|n: Vec<char>| n@) =~= before.push(b@[j as int]@));
        assert(b@.map_values(|n: Vec<char>| n@).take(j + 1) =~= b@.map_values(|n: Vec<char>| n@).take(j as int).push(
            b@[j as int]@,
        ));
        assert(r@.map_values(|n: Vec<char>| n@) =~= a@.map_values(|n: Vec<char>| n@) + b@.map_values(
            |n: Vec<char>| n@,
        ).take(j + 1));
        j = j + 1;
    }
    assert(b@.map_values(|n: Vec<char>| n@).take(j as int) =~= b@.map_values(|n: Vec<char>| n@));
    assert(a@.map_values(|n: Vec<char>| n@).take(i as int) =~= a@.map_values(|n: Vec<char>| n@));
    r
}

fn fixture_message(context: &str, arg: &str, extension: bool) -> (s: String)
    ensures
        extension ==> s@ == "generator `:file` for "@ + context@
            + " must read a .in fixture under fixtures/input; got `"@ + arg@ + "`"@,
        !extension ==> s@ == "generator `:file` for "@ + context@
            + " must read handwritten input from fixtures/input; got `"@ + arg@ + "`"@,
{
    let mut s = String::from_str("generator `:file` for ");
    s.append(context);
    if extension {
        s.append(" must read a .in fixture under fixtures/input; got `");
    } else {
        s.append(" must read handwritten input from fixtures/input; got `");
    }
    s.append(arg);
    s.append("`");
    s
}

/// Checks, by the text of the paths alone, that the argument of `:file`
/// names a `.in` fixture under `fixtures/input` of `work_dir`.
pub fn check_fixture_path(work_dir: &str, arg: &str, context: &str) -> (r: Option<String>)
    ensures
        crate::text::opt_view(r) == fixture_path_error(work_dir@, arg@, context@),
{
    proof {
        reveal_strlit("fixtures");
        reveal_strlit("input");
    }
    let w = chars_of(work_dir);
    let a = chars_of(arg);
    let wp = split_path(w.as_slice());
    let ap = split_path(a.as_slice());
    let mut tail: Vec<Vec<char>> = Vec::new();
    tail.push(chars_of("fixtures"));
    tail.push(chars_of("input"));
    assert(tail@.map_values(|n: Vec<char>| n@) =~= seq!["fixtures"@, "input"@]);
    let dir_names = join_names(&wp.names, &tail);
    let dir = fold_parent_names(&dir_names);
    let (src_rooted, src) = if ap.rooted {
        (true, fold_parent_names(&ap.names))
    } else {
        let joined = join_names(&wp.names, &ap.names);
        (wp.rooted, fold_parent_names(&joined))
    };
    if !(src_rooted == wp.rooted && names_prefix(&dir, &src)) {
        return Some(fixture_message(context, arg, false));
    }
    let ok_ext = if src.len() > 0 {
        let last = &src[src.len() - 1];
        let n = last.len();
        n > 3 && last[n - 3] == '.' && last[n - 2] == 'i' && last[n - 1] == 'n'
    } else {
        false
    };
    proof {
        reveal_strlit(".in");
        let names = src@.map_values(|n: Vec<char>| n@);
        if src@.len() > 0 {
            let last = names.last();
            assert(last == src@[src@.len() - 1]@);
            if last.len() > 3 {
                let tail3 = last.subrange(last.len() - 3, last.len() as int);
                if ok_ext {
                    assert(tail3 =~= ".in"@);
                } else if tail3 == ".in"@ {
                    assert(tail3[0] == '.' && tail3[1] == 'i' && tail3[2] == 'n');
                }
            }
        }
    }
    if !ok_ext {
        return Some(fixture_message(context, arg, true));
    }
    None
}

/// The arguments of `:file` for `context`: exactly one path.
pub open spec fn file_args_error(args_len: nat, context: Seq<char>) -> Option<Seq<char>> {
    if args_len != 1 {
        Some(
            "generator `:file` for "@ + context + " expects exactly one input path argument, got "@ + decimal(
                args_len,
            ),
        )
    } else {
        None
    }
}

/// Checks that `:file` got exactly one argument.
pub fn check_file_args(args: &Vec<String>, context: &str) -> (r: Option<String>)
    ensures
        crate::text::opt_view(r) == file_args_error(args@.len(), context@),
{
    if args.len() != 1 {
        let mut s = String::from_str("generator `:file` for ");
        s.append(context);
        s.append(" expects exactly one input path argument, got ");
        let n = usize_to_decimal(args.len());
        s.append(n.as_str());
        return Some(s);
    }
    None
}

/// Where a case's input comes from.
#[derive(Clone, Copy, Debug, PartialEq, Eq, Structural)]
pub enum InputSource {
    /// A handwritten fixture read by `:file`.
    File,
    /// A program of the package.
    Program,
}

/// How generator `g` is found: `:file`, an unknown built-in, a declared
/// program, or nothing.
pub open spec fn input_source_spec(p: Problem, g: Seq<char>) -> Result<InputSource, Seq<char>> {
    if g == file_generator() {
        Ok(InputSource::File)
    } else if g.len() > 0 && g[0] == ':' {
        Err("generator `"@ + g + "` is an unknown built-in generator"@)
    } else if has_program(p, g) {
        Ok(InputSource::Program)
    } else {
        Err("generator `"@ + g + "` not found"@)
    }
}

/// Finds where generator `g` takes a case's input from.
pub fn input_source(problem: &Problem, generator: &String) -> (r: Result<InputSource, String>)
    ensures
        match (r, input_source_spec(*problem, generator@)) {
            (Ok(a), Ok(b)) => a == b,
            (Err(e), Err(m)) => e@ == m,
            _ => false,
        },
{
    let g = chars_of(generator.as_str());
    let f = chars_of(file_generator_name());
    if chars_eq(g.as_slice(), f.as_slice()) {
        return Ok(InputSource::File);
    }
    if g.len() > 0 && g[0] == ':' {
        let mut s = String::from_str("generator `");
        s.append(generator.as_str());
        s.append("` is an unknown built-in generator");
        return Err(s);
    }
    if program_exists(problem, generator) {
        return Ok(InputSource::Program);
    }
    let mut s = String::from_str("generator `");
    s.append(generator.as_str());
    s.append("` not found");
    Err(s)
}

/// What a generator's run for `context` must satisfy: success, and output
/// not cut at the limit.
pub open spec fn generator_output_error(r: RunResult, context: Seq<char>, limit: nat) -> Option<Seq<char>> {
    if !r.ok {
        Some(failure_text(r, "generator failed for "@ + context))
    } else if r.truncated_stdout {
        Some("generator output for "@ + context + " exceeded --output-limit-bytes ("@ + decimal(limit) + ")"@)
    } else {
        None
    }
}

/// Checks a generator's run for `context`.
pub fn check_generator_output(result: &RunResult, context: &str, output_limit_bytes: usize) -> (r: Option<String>)
    ensures
        crate::text::opt_view(r) == generator_output_error(*result, context@, output_limit_bytes as nat),
{
    if !result.is_success() {
        let mut c = String::from_str("generator failed for ");
        c.append(context);
        return Some(result.failure_report(c.as_str()));
    }
    if result.truncated_stdout {
        let mut s = String::from_str("generator output for ");
        s.append(context);
        s.append(" exceeded --output-limit-bytes (");
        let n = usize_to_decimal(output_limit_bytes);
        s.append(n.as_str());
        s.append(")");
        return Some(s);
    }
    None
}

} // verus!
