//! Reading the sample output out of a problem statement written in Markdown,
//! and the normalization used to compare it with the generated answer.

use vstd::prelude::*;
use crate::text::{
    ascii_lowercase, chars_eq, chars_of, contains, copy_range, has_prefix, has_substring,
    is_ws, lines, lowercase_ascii, skip_char_run, split_lines, starts_with, string_views,
    strings_from, trim, trim_start, trim_start_char, trim_start_index, trimmed, views,
    append_chars, join, join_chars, string_from_chars, trim_char, trim_end_each, trimmed_char,
    trimmed_end_each, unified_newlines, unify_newlines,
};
use crate::text_facts::lemma_phrase_survives_heading;

verus! {

/// Whether a (non-blank, non-fence) statement line announces a sample
/// output: once trimmed, stripped of heading marks and lower-cased, it
/// mentions "sample output", "output sample", "样例输出" or "输出样例".
pub open spec fn sample_output_context(line: Seq<char>) -> bool {
    let l = ascii_lowercase(trim(trim_start_char(trim(line), '#')));
    ||| contains(l, "sample output"@)
    ||| contains(l, "output sample"@)
    ||| contains(l, "样例输出"@)
    ||| contains(l, "输出样例"@)
}

/// Law: a line that mentions "sample output" or "output sample" (in any
/// ASCII case), "样例输出" or "输出样例" anywhere, whatever stands around
/// the phrase (heading marks, spaces, other words), announces a sample
/// output.
pub proof fn lemma_sample_output_phrases(pre: Seq<char>, phrase: Seq<char>, post: Seq<char>)
    requires
        ascii_lowercase(phrase) == "sample output"@ || ascii_lowercase(phrase) == "output sample"@
            || ascii_lowercase(phrase) == "样例输出"@ || ascii_lowercase(phrase) == "输出样例"@,
    ensures
        sample_output_context(pre + phrase + post),
{
    reveal_strlit("sample output");
    reveal_strlit("output sample");
    reveal_strlit("样例输出");
    reveal_strlit("输出样例");
    let p = ascii_lowercase(phrase);
    assert(p.len() > 0);
    assert(!is_ws(p[0]) && !is_ws(p.last()) && p[0] != '#');
    lemma_phrase_survives_heading(pre, phrase, post, p);
}

/// Executable form of [`sample_output_context`].
pub fn is_sample_output_context(line: &[char]) -> (b: bool)
    ensures
        b == sample_output_context(line@),
{
    let t = trimmed(line);
    let k = skip_char_run(t.as_slice(), '#');
    let rest = copy_range(t.as_slice(), k, t.len());
    let t2 = trimmed(rest.as_slice());
    let l = lowercase_ascii(t2.as_slice());
    let p1 = chars_of("sample output");
    let p2 = chars_of("output sample");
    let p3 = chars_of("样例输出");
    let p4 = chars_of("输出样例");
    has_substring(l.as_slice(), p1.as_slice()) || has_substring(l.as_slice(), p2.as_slice())
        || has_substring(l.as_slice(), p3.as_slice()) || has_substring(
        l.as_slice(),
        p4.as_slice(),
    )
}

/// The state of the line-by-line scan for sample output blocks.
pub struct FenceScan {
    pub in_fence: bool,
    pub marker: Seq<char>,
    pub capture: bool,
    pub current: Seq<char>,
    pub pending: bool,
    pub blocks: Seq<Seq<char>>,
}

/// The scan state before the first line.
pub open spec fn fence_start() -> FenceScan {
    FenceScan {
        in_fence: false,
        marker: Seq::empty(),
        capture: false,
        current: Seq::empty(),
        pending: false,
        blocks: Seq::empty(),
    }
}

/// Whether a line (after leading whitespace) opens or closes a code fence.
pub open spec fn is_fence_line(line: Seq<char>) -> bool {
    starts_with(trim_start(line), "```"@) || starts_with(trim_start(line), "~~~"@)
}

/// One line of the scan: a fence line opens a block (captured when the
/// last meaningful line announced a sample output) or closes the open block
/// when it uses the same marker; lines inside a captured block are kept;
/// outside a block every non-blank line decides whether the next block is
/// a sample output.
pub open spec fn fence_step(st: FenceScan, line: Seq<char>) -> FenceScan {
    if is_fence_line(line) {
        let marker = trim_start(line).subrange(0, 3);
        if !st.in_fence {
            FenceScan {
                in_fence: true,
                marker: marker,
                capture: st.pending,
                pending: false,
                current: Seq::empty(),
                ..st
            }
        } else if marker == st.marker {
            FenceScan {
                in_fence: false,
                capture: false,
                blocks: if st.capture { st.blocks.push(st.current) } else { st.blocks },
                ..st
            }
        } else if st.capture {
            FenceScan { current: st.current + line.push('\n'), ..st }
        } else {
            st
        }
    } else if st.in_fence {
        if st.capture {
            FenceScan { current: st.current + line.push('\n'), ..st }
        } else {
            st
        }
    } else if trim(line).len() == 0 {
        st
    } else {
        FenceScan { pending: sample_output_context(line), ..st }
    }
}

/// The scan over a sequence of lines.
pub open spec fn fence_scan(lines: Seq<Seq<char>>, st: FenceScan) -> FenceScan
    decreases lines.len(),
{
    if lines.len() == 0 {
        st
    } else {
        fence_scan(lines.drop_first(), fence_step(st, lines[0]))
    }
}

/// The sample output code blocks of a Markdown statement, in order.
pub open spec fn sample_output_blocks(markdown: Seq<char>) -> Seq<Seq<char>> {
    fence_scan(lines(markdown), fence_start()).blocks
}

/// Collects the contents of every fenced code block that follows a line
/// announcing a sample output (each content line ends with `\n`).
pub fn markdown_sample_output_blocks(markdown: &str) -> (blocks: Vec<String>)
    ensures
        string_views(blocks@) == sample_output_blocks(markdown@),
{
    let text = chars_of(markdown);
    let all_lines = split_lines(text.as_slice());
    let backticks = chars_of("```");
    let tildes = chars_of("~~~");
    let mut blocks: Vec<Vec<char>> = Vec::new();
    let mut in_fence = false;
    let mut marker: Vec<char> = Vec::new();
    let mut capture = false;
    let mut current: Vec<char> = Vec::new();
    let mut pending = false;
    let mut i: usize = 0;
    proof {
        reveal_strlit("```");
        reveal_strlit("~~~");
    }
    let ghost ls = views(all_lines@);
    assert(ls.skip(0) == ls);
    assert(views(blocks@) =~= Seq::<Seq<char>>::empty());
    while i < all_lines.len()
        invariant
            ls == views(all_lines@),
            ls == lines(markdown@),
            backticks@ == "```"@,
            tildes@ == "~~~"@,
            "```"@.len() == 3,
            "~~~"@.len() == 3,
            i <= all_lines@.len(),
            fence_scan(
                ls.skip(i as int),
                FenceScan {
                    in_fence: in_fence,
                    marker: marker@,
                    capture: capture,
                    current: current@,
                    pending: pending,
                    blocks: views(blocks@),
                },
            ) == fence_scan(ls, fence_start()),
        decreases all_lines@.len() - i,
    {
        let line = &all_lines[i];
        assert(line@ == ls[i as int]);
        assert(ls.skip(i as int).drop_first() == ls.skip(i + 1));
        assert(ls.skip(i as int)[0] == ls[i as int]);
        let start = trim_start_index(line.as_slice());
        let t = copy_range(line.as_slice(), start, line.len());
        let is_fence = has_prefix(t.as_slice(), backticks.as_slice()) || has_prefix(
            t.as_slice(),
            tildes.as_slice(),
        );
        if is_fence {
            let m = copy_range(t.as_slice(), 0, 3);
            if !in_fence {
                in_fence = true;
                marker = m;
                capture = pending;
                pending = false;
                current = Vec::new();
            } else if chars_eq(m.as_slice(), marker.as_slice()) {
                in_fence = false;
                if capture {
                    let ghost old_blocks = views(blocks@);
                    let ghost cur = current@;
                    let c = copy_range(current.as_slice(), 0, current.len());
                    assert(c@ =~= cur);
                    blocks.push(c);
                    assert(views(blocks@) =~= old_blocks.push(cur));
                }
                capture = false;
            } else if capture {
                let ghost old_cur = current@;
                append_chars(&mut current, line.as_slice());
                current.push('\n');
                assert(current@ =~= old_cur + line@.push('\n'));
            }
        } else if in_fence {
            if capture {
                let ghost old_cur = current@;
                append_chars(&mut current, line.as_slice());
                current.push('\n');
                assert(current@ =~= old_cur + line@.push('\n'));
            }
        } else {
            let whole = trimmed(line.as_slice());
            if whole.len() != 0 {
                pending = is_sample_output_context(line.as_slice());
            }
        }
        i = i + 1;
    }
    strings_from(&blocks)
}

} // verus!

verus! {

/// A sample block or answer as it is compared: newlines unified, trailing
/// whitespace removed from every line, and blank edges dropped.
pub open spec fn normalized_block(value: Seq<char>) -> Seq<char> {
    trim_char(join(trim_end_each(lines(unify_newlines(value))), seq!['\n']), '\n')
}

/// Normalizes a sample output block or answer text for comparison.
pub fn normalize_output_block(value: &str) -> (r: String)
    ensures
        r@ == normalized_block(value@),
{
    let text = chars_of(value);
    let unified = unified_newlines(text.as_slice());
    let ls = split_lines(unified.as_slice());
    let trimmed_lines = trimmed_end_each(&ls);
    let newline = vec!['\n'];
    assert(newline@ == seq!['\n']);
    let joined = join_chars(&trimmed_lines, newline.as_slice());
    let result = trimmed_char(joined.as_slice(), '\n');
    string_from_chars(result.as_slice())
}

} // verus!
