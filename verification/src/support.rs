//! Small helpers shared by the run and generation reports.

use vstd::prelude::*;
use crate::text::{decimal, push_char, u128_to_decimal, u64_to_decimal};

verus! {

/// The number of `\n` bytes in a byte string.
pub open spec fn newline_count(bytes: Seq<u8>) -> nat
    decreases bytes.len(),
{
    if bytes.len() == 0 {
        0
    } else {
        newline_count(bytes.drop_last()) + if bytes.last() == 10u8 {
            1nat
        } else {
            0nat
        }
    }
}

/// The number of lines of a byte string: its newlines, plus one for a last
/// line that does not end with a newline; empty output has no lines.
pub open spec fn line_count(bytes: Seq<u8>) -> nat {
    if bytes.len() == 0 {
        0
    } else {
        newline_count(bytes) + if bytes.last() == 10u8 {
            0nat
        } else {
            1nat
        }
    }
}

/// Counts the lines of program output.
pub fn count_lines(bytes: &[u8]) -> (n: usize)
    ensures
        n == line_count(bytes@),
{
    if bytes.len() == 0 {
        return 0;
    }
    let mut n: usize = 0;
    let mut i: usize = 0;
    while i < bytes.len()
        invariant
            i <= bytes@.len(),
            n == newline_count(bytes@.subrange(0, i as int)),
            n <= i,
        decreases bytes@.len() - i,
    {
        assert(bytes@.subrange(0, i + 1).drop_last() == bytes@.subrange(0, i as int));
        if bytes[i] == 10u8 {
            n = n + 1;
        }
        i = i + 1;
    }
    assert(bytes@.subrange(0, bytes@.len() as int) == bytes@);
    if bytes[bytes.len() - 1] == 10u8 {
        n
    } else {
        proof {
            lemma_newline_count_le_len(bytes@.drop_last());
        }
        n + 1
    }
}

/// Appending a line that ends with a newline adds exactly one line.
pub proof fn lemma_line_count_append_line(text: Seq<u8>, line: Seq<u8>)
    requires
        text.len() == 0 || text.last() == 10u8,
        line.len() > 0,
        line.last() == 10u8,
        forall|i: int| 0 <= i < line.len() - 1 ==> line[i] != 10u8,
    ensures
        line_count(text + line) == line_count(text) + 1,
{
    lemma_newline_count_concat(text, line);
    lemma_newline_count_single(line);
}

/// Newlines of a concatenation add up.
pub proof fn lemma_newline_count_concat(a: Seq<u8>, b: Seq<u8>)
    ensures
        newline_count(a + b) == newline_count(a) + newline_count(b),
    decreases b.len(),
{
    if b.len() > 0 {
        assert((a + b).drop_last() == a + b.drop_last());
        lemma_newline_count_concat(a, b.drop_last());
    } else {
        assert(a + b == a);
    }
}

proof fn lemma_newline_count_single(line: Seq<u8>)
    requires
        line.len() > 0,
        line.last() == 10u8,
        forall|i: int| 0 <= i < line.len() - 1 ==> line[i] != 10u8,
    ensures
        newline_count(line) == 1,
{
    lemma_no_newlines(line.drop_last());
}

proof fn lemma_newline_count_le_len(s: Seq<u8>)
    ensures
        newline_count(s) <= s.len(),
    decreases s.len(),
{
    if s.len() > 0 {
        lemma_newline_count_le_len(s.drop_last());
    }
}

proof fn lemma_no_newlines(s: Seq<u8>)
    requires
        forall|i: int| 0 <= i < s.len() ==> s[i] != 10u8,
    ensures
        newline_count(s) == 0,
    decreases s.len(),
{
    if s.len() > 0 {
        lemma_no_newlines(s.drop_last());
    }
}

/// The suffix that keeps temporary names apart: process id, time in
/// nanoseconds and a per-process counter, joined with `-`.
pub open spec fn temp_suffix_text(pid: u32, nanos: u128, counter: u64) -> Seq<char> {
    decimal(pid as nat) + "-"@ + decimal(nanos as nat) + "-"@ + decimal(counter as nat)
}

/// Renders the suffix used for temporary file and directory names.
pub fn temp_suffix(pid: u32, nanos: u128, counter: u64) -> (s: String)
    ensures
        s@ == temp_suffix_text(pid, nanos, counter),
{
    let mut s = u64_to_decimal(pid as u64);
    s.append("-");
    let n = u128_to_decimal(nanos);
    s.append(n.as_str());
    s.append("-");
    let c = u64_to_decimal(counter);
    s.append(c.as_str());
    s
}

} // verus!
