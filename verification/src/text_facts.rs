//! Facts about trimming, splitting into lines and joining lines again:
//! what the normalization of program outputs rests on.

use vstd::prelude::*;
use crate::text::{
    ascii_lower, ascii_lowercase, contains, is_ws, join, lines, lines_from, occurs_at, strip_cr, trim,
    trim_end, trim_start, trim_start_char,
};

verus! {

/// `c` does not occur in `s`.
pub open spec fn lacks(s: Seq<char>, c: char) -> bool {
    forall|i: int| 0 <= i < s.len() ==> s[i] != c
}

/// Pieces that can be joined by newlines and split back: none holds a
/// newline, and none ends in whitespace (so in no carriage return).
pub open spec fn clean_pieces(ps: Seq<Seq<char>>) -> bool {
    forall|i: int|
        0 <= i < ps.len() ==> lacks(#[trigger] ps[i], '\n') && (ps[i].len() > 0 ==> !is_ws(
            ps[i].last(),
        ))
}

/// `trim_end(s)` is a prefix of `s`.
pub proof fn lemma_trim_end_prefix(s: Seq<char>)
    ensures
        trim_end(s).len() <= s.len(),
        trim_end(s) == s.subrange(0, trim_end(s).len() as int),
    decreases s.len(),
{
    if s.len() > 0 && is_ws(s.last()) {
        lemma_trim_end_prefix(s.drop_last());
        assert(s.drop_last().subrange(0, trim_end(s).len() as int) == s.subrange(
            0,
            trim_end(s).len() as int,
        ));
    } else {
        assert(s.subrange(0, s.len() as int) == s);
    }
}

/// What `trim_end` leaves does not end in whitespace.
pub proof fn lemma_trim_end_last(s: Seq<char>)
    ensures
        trim_end(s).len() > 0 ==> !is_ws(trim_end(s).last()),
    decreases s.len(),
{
    if s.len() > 0 && is_ws(s.last()) {
        lemma_trim_end_last(s.drop_last());
    }
}

/// A text that does not end in whitespace is its own `trim_end`.
pub proof fn lemma_trim_end_keeps(s: Seq<char>)
    requires
        s.len() > 0 ==> !is_ws(s.last()),
    ensures
        trim_end(s) == s,
{
}

/// `trim_end` keeps a first character that is not whitespace.
pub proof fn lemma_trim_end_first(s: Seq<char>)
    requires
        s.len() > 0,
        !is_ws(s[0]),
    ensures
        trim_end(s).len() > 0,
        trim_end(s)[0] == s[0],
    decreases s.len(),
{
    if is_ws(s.last()) {
        lemma_trim_end_first(s.drop_last());
    }
}

/// What `trim_end` leaves has no character that the text did not have
/// there; in particular no newline where the text had none.
pub proof fn lemma_trim_end_lacks(s: Seq<char>, c: char)
    requires
        lacks(s, c),
    ensures
        lacks(trim_end(s), c),
{
    lemma_trim_end_prefix(s);
}

/// What `trim_start` leaves does not start with whitespace.
pub proof fn lemma_trim_start_first(s: Seq<char>)
    ensures
        trim_start(s).len() > 0 ==> !is_ws(trim_start(s)[0]),
    decreases s.len(),
{
    if s.len() > 0 && is_ws(s[0]) {
        lemma_trim_start_first(s.drop_first());
    }
}

/// A trimmed text neither starts nor ends with whitespace.
pub proof fn lemma_trim_ends(s: Seq<char>)
    ensures
        trim(s).len() > 0 ==> !is_ws(trim(s)[0]) && !is_ws(trim(s).last()),
{
    let u = trim_start(s);
    lemma_trim_start_first(s);
    lemma_trim_end_last(u);
    lemma_trim_end_prefix(u);
    if trim(s).len() > 0 {
        assert(trim(s)[0] == u[0]);
    }
}

/// Splitting keeps the lines gathered so far in front.
proof fn lemma_lines_from_prefix(s: Seq<char>, cur: Seq<char>, acc: Seq<Seq<char>>)
    ensures
        lines_from(s, cur, acc).len() >= acc.len(),
        forall|i: int| 0 <= i < acc.len() ==> #[trigger] lines_from(s, cur, acc)[i] == acc[i],
    decreases s.len(),
{
    if s.len() > 0 {
        if s[0] == '\n' {
            lemma_lines_from_prefix(s.drop_first(), Seq::empty(), acc.push(strip_cr(cur)));
        } else {
            lemma_lines_from_prefix(s.drop_first(), cur.push(s[0]), acc);
        }
    }
}

/// No line holds a newline.
proof fn lemma_lines_from_lack(s: Seq<char>, cur: Seq<char>, acc: Seq<Seq<char>>)
    requires
        lacks(cur, '\n'),
        forall|i: int| 0 <= i < acc.len() ==> lacks(#[trigger] acc[i], '\n'),
    ensures
        forall|i: int|
            0 <= i < lines_from(s, cur, acc).len() ==> lacks(#[trigger] lines_from(s, cur, acc)[i], '\n'),
    decreases s.len(),
{
    if s.len() == 0 {
        if cur.len() > 0 {
            assert(lines_from(s, cur, acc) == acc.push(cur));
            assert forall|i: int| 0 <= i < acc.push(cur).len() implies lacks(
                #[trigger] acc.push(cur)[i],
                '\n',
            ) by {
                if i < acc.len() {
                    assert(acc.push(cur)[i] == acc[i]);
                }
            }
        }
    } else if s[0] == '\n' {
        let c = strip_cr(cur);
        assert(lacks(c, '\n')) by {
            if cur.len() > 0 && cur.last() == '\r' {
                assert forall|j: int| 0 <= j < c.len() implies c[j] != '\n' by {
                    assert(c[j] == cur[j]);
                }
            }
        }
        let a = acc.push(c);
        assert forall|i: int| 0 <= i < a.len() implies lacks(#[trigger] a[i], '\n') by {
            if i < acc.len() {
                assert(a[i] == acc[i]);
            }
        }
        lemma_lines_from_lack(s.drop_first(), Seq::empty(), a);
        assert(lines_from(s, cur, acc) == lines_from(s.drop_first(), Seq::empty(), a));
    } else {
        let c = cur.push(s[0]);
        assert forall|j: int| 0 <= j < c.len() implies c[j] != '\n' by {
            if j < cur.len() {
                assert(c[j] == cur[j]);
            }
        }
        lemma_lines_from_lack(s.drop_first(), c, acc);
        assert(lines_from(s, cur, acc) == lines_from(s.drop_first(), c, acc));
    }
}

/// A text that does not end in a newline ends its last line with its own
/// last character.
proof fn lemma_lines_from_last(s: Seq<char>, cur: Seq<char>, acc: Seq<Seq<char>>)
    requires
        s.len() > 0,
        s.last() != '\n',
    ensures
        lines_from(s, cur, acc).len() > 0,
        lines_from(s, cur, acc).last().len() > 0,
        lines_from(s, cur, acc).last().last() == s.last(),
    decreases s.len(),
{
    let rest = s.drop_first();
    if s.len() == 1 {
        assert(rest.len() == 0);
        assert(lines_from(rest, cur.push(s[0]), acc) == acc.push(cur.push(s[0])));
    } else {
        assert(rest.last() == s.last());
        if s[0] == '\n' {
            lemma_lines_from_last(rest, Seq::empty(), acc.push(strip_cr(cur)));
        } else {
            lemma_lines_from_last(rest, cur.push(s[0]), acc);
        }
    }
}

/// The line under way keeps its first character, unless that is a
/// carriage return that a newline could drop.
proof fn lemma_lines_from_first(s: Seq<char>, cur: Seq<char>, acc: Seq<Seq<char>>)
    requires
        cur.len() > 0,
        cur[0] != '\r',
    ensures
        lines_from(s, cur, acc).len() > acc.len(),
        lines_from(s, cur, acc)[acc.len() as int].len() > 0,
        lines_from(s, cur, acc)[acc.len() as int][0] == cur[0],
    decreases s.len(),
{
    if s.len() > 0 {
        if s[0] == '\n' {
            let c = strip_cr(cur);
            let a = acc.push(c);
            lemma_lines_from_prefix(s.drop_first(), Seq::empty(), a);
            assert(a[acc.len() as int] == c);
        } else {
            lemma_lines_from_first(s.drop_first(), cur.push(s[0]), acc);
        }
    }
}

/// The first line of a text that starts with a character that is neither
/// a newline nor a carriage return starts with that character.
pub proof fn lemma_lines_first(s: Seq<char>)
    requires
        s.len() > 0,
        s[0] != '\n',
        s[0] != '\r',
    ensures
        lines(s).len() > 0,
        lines(s)[0].len() > 0,
        lines(s)[0][0] == s[0],
{
    let e = Seq::<char>::empty();
    assert(e.push(s[0])[0] == s[0]);
    lemma_lines_from_first(s.drop_first(), e.push(s[0]), Seq::empty());
}

/// The last line of a text that does not end in a newline ends with the
/// text's last character.
pub proof fn lemma_lines_last(s: Seq<char>)
    requires
        s.len() > 0,
        s.last() != '\n',
    ensures
        lines(s).len() > 0,
        lines(s).last().len() > 0,
        lines(s).last().last() == s.last(),
{
    lemma_lines_from_last(s, Seq::empty(), Seq::empty());
}

/// No line of a text holds a newline.
pub proof fn lemma_lines_lack_newline(s: Seq<char>)
    ensures
        forall|i: int| 0 <= i < lines(s).len() ==> lacks(#[trigger] lines(s)[i], '\n'),
{
    lemma_lines_from_lack(s, Seq::empty(), Seq::empty());
}

/// Characters that hold no newline join the line under way.
proof fn lemma_lines_from_skip(p: Seq<char>, rest: Seq<char>, cur: Seq<char>, acc: Seq<Seq<char>>)
    requires
        lacks(p, '\n'),
    ensures
        lines_from(p + rest, cur, acc) == lines_from(rest, cur + p, acc),
    decreases p.len(),
{
    if p.len() == 0 {
        assert(p + rest == rest);
        assert(cur + p == cur);
    } else {
        assert((p + rest)[0] == p[0]);
        assert((p + rest).drop_first() == p.drop_first() + rest);
        lemma_lines_from_skip(p.drop_first(), rest, cur.push(p[0]), acc);
        assert(cur.push(p[0]) + p.drop_first() == cur + p);
    }
}

/// Splitting clean pieces joined by newlines, and whatever follows, gives
/// the pieces back, the last one still under way.
proof fn lemma_lines_from_join(ps: Seq<Seq<char>>, tail: Seq<char>, acc: Seq<Seq<char>>)
    requires
        ps.len() > 0,
        clean_pieces(ps),
    ensures
        lines_from(join(ps, seq!['\n']) + tail, Seq::empty(), acc) == lines_from(
            tail,
            ps.last(),
            acc + ps.drop_last(),
        ),
    decreases ps.len(),
{
    let nl = seq!['\n'];
    let e = Seq::<char>::empty();
    if ps.len() == 1 {
        assert(lacks(ps[0], '\n'));
        lemma_lines_from_skip(ps[0], tail, e, acc);
        assert(e + ps[0] == ps[0]);
        assert(acc + ps.drop_last() == acc);
    } else {
        let q = ps.drop_last();
        let last = ps.last();
        let rest = nl + last + tail;
        assert(join(ps, nl) + tail == join(q, nl) + rest);
        assert forall|i: int| 0 <= i < q.len() implies lacks(#[trigger] q[i], '\n') && (q[i].len()
            > 0 ==> !is_ws(q[i].last())) by {
            assert(q[i] == ps[i]);
        }
        lemma_lines_from_join(q, rest, acc);
        assert(rest[0] == '\n');
        assert(rest.drop_first() == last + tail);
        assert(q.last() == ps[ps.len() - 2]);
        assert(strip_cr(q.last()) == q.last());
        assert((acc + q.drop_last()).push(q.last()) == acc + q);
        assert(lacks(ps[ps.len() - 1], '\n'));
        lemma_lines_from_skip(last, tail, e, acc + q);
        assert(e + last == last);
    }
}

/// Clean pieces joined by newlines and ended by one split back into the
/// pieces; without the final newline too, when the last piece is not empty.
pub proof fn lemma_lines_of_joined(ps: Seq<Seq<char>>)
    requires
        ps.len() > 0,
        clean_pieces(ps),
    ensures
        lines(join(ps, seq!['\n']) + seq!['\n']) == ps,
        ps.last().len() > 0 ==> lines(join(ps, seq!['\n'])) == ps,
{
    let nl = seq!['\n'];
    let e = Seq::<char>::empty();
    let q = ps.drop_last();
    lemma_lines_from_join(ps, nl, Seq::empty());
    assert(Seq::<Seq<char>>::empty() + q == q);
    assert(nl.drop_first() == e);
    assert(lines_from(e, e, q.push(strip_cr(ps.last()))) == q.push(strip_cr(ps.last())));
    assert(ps.len() - 1 >= 0 && ps.last() == ps[ps.len() - 1]);
    assert(strip_cr(ps.last()) == ps.last());
    assert(q.push(ps.last()) == ps);
    lemma_lines_from_join(ps, e, Seq::empty());
    assert(join(ps, nl) + e == join(ps, nl));
}

/// A join starts with the first piece and ends with the last.
pub proof fn lemma_join_ends(ps: Seq<Seq<char>>, sep: Seq<char>)
    requires
        ps.len() > 0,
    ensures
        ps.last().len() > 0 ==> join(ps, sep).len() > 0 && join(ps, sep).last() == ps.last().last(),
        ps[0].len() > 0 ==> join(ps, sep).len() > 0 && join(ps, sep)[0] == ps[0][0],
    decreases ps.len(),
{
    if ps.len() > 1 {
        let q = ps.drop_last();
        lemma_join_ends(q, sep);
        assert(q[0] == ps[0]);
        let j = join(q, sep) + sep + ps.last();
        if ps.last().len() > 0 {
            assert(j.last() == ps.last().last());
        }
        if ps[0].len() > 0 {
            assert(j[0] == join(q, sep)[0]);
        }
    }
}

/// Trimming the start keeps an occurrence of a text that does not start
/// with whitespace.
pub proof fn lemma_occurs_trim_start(s: Seq<char>, p: Seq<char>, i: int)
    requires
        occurs_at(s, p, i),
        p.len() > 0,
        !is_ws(p[0]),
    ensures
        contains(trim_start(s), p),
    decreases s.len(),
{
    assert(s[i] == p[0]) by {
        assert(s.subrange(i, i + p.len())[0] == s[i]);
    }
    if s.len() > 0 && is_ws(s[0]) {
        assert(s.drop_first().subrange(i - 1, i - 1 + p.len()) == s.subrange(i, i + p.len()));
        lemma_occurs_trim_start(s.drop_first(), p, i - 1);
    } else {
        assert(occurs_at(trim_start(s), p, i));
    }
}

/// Dropping a leading run of `c` keeps an occurrence of a text that does
/// not start with `c`.
pub proof fn lemma_occurs_trim_start_char(s: Seq<char>, c: char, p: Seq<char>, i: int)
    requires
        occurs_at(s, p, i),
        p.len() > 0,
        p[0] != c,
    ensures
        contains(trim_start_char(s, c), p),
    decreases s.len(),
{
    assert(s[i] == p[0]) by {
        assert(s.subrange(i, i + p.len())[0] == s[i]);
    }
    if s.len() > 0 && s[0] == c {
        assert(s.drop_first().subrange(i - 1, i - 1 + p.len()) == s.subrange(i, i + p.len()));
        lemma_occurs_trim_start_char(s.drop_first(), c, p, i - 1);
    } else {
        assert(occurs_at(trim_start_char(s, c), p, i));
    }
}

/// Trimming the end keeps an occurrence of a text that does not end with
/// whitespace, where it was.
pub proof fn lemma_occurs_trim_end(s: Seq<char>, p: Seq<char>, i: int)
    requires
        occurs_at(s, p, i),
        p.len() > 0,
        !is_ws(p.last()),
    ensures
        occurs_at(trim_end(s), p, i),
    decreases s.len(),
{
    assert(s[i + p.len() - 1] == p.last()) by {
        assert(s.subrange(i, i + p.len())[p.len() - 1] == s[i + p.len() - 1]);
    }
    if s.len() > 0 && is_ws(s.last()) {
        assert(s.drop_last().subrange(i, i + p.len()) == s.subrange(i, i + p.len()));
        lemma_occurs_trim_end(s.drop_last(), p, i);
    }
}

/// Trimming both ends keeps an occurrence of a text that neither starts
/// nor ends with whitespace.
pub proof fn lemma_occurs_trim(s: Seq<char>, p: Seq<char>, i: int)
    requires
        occurs_at(s, p, i),
        p.len() > 0,
        !is_ws(p[0]),
        !is_ws(p.last()),
    ensures
        contains(trim(s), p),
{
    lemma_occurs_trim_start(s, p, i);
    let j = choose|j: int| occurs_at(trim_start(s), p, j);
    lemma_occurs_trim_end(trim_start(s), p, j);
}

/// Lower-casing keeps an occurrence, lower-cased.
pub proof fn lemma_occurs_lowercase(s: Seq<char>, p: Seq<char>, i: int)
    requires
        occurs_at(s, p, i),
    ensures
        occurs_at(ascii_lowercase(s), ascii_lowercase(p), i),
{
    assert(ascii_lowercase(s).subrange(i, i + p.len()) =~= ascii_lowercase(p)) by {
        assert forall|k: int| 0 <= k < p.len() implies ascii_lowercase(s).subrange(i, i + p.len())[k]
            == ascii_lowercase(p)[k] by {
            assert(s.subrange(i, i + p.len())[k] == s[i + k]);
        }
    }
}

/// A text that, lower-cased, is `p`, occurring anywhere in a line, is still
/// there, lower-cased, once the line is trimmed, stripped of leading `#`,
/// trimmed again and lower-cased; `p` must neither start nor end with
/// whitespace, nor start with `#`.
pub proof fn lemma_phrase_survives_heading(pre: Seq<char>, q: Seq<char>, post: Seq<char>, p: Seq<char>)
    requires
        ascii_lowercase(q) == p,
        p.len() > 0,
        !is_ws(p[0]),
        !is_ws(p.last()),
        p[0] != '#',
    ensures
        contains(ascii_lowercase(trim(trim_start_char(trim(pre + q + post), '#'))), p),
{
    let s = pre + q + post;
    assert(q.len() == p.len());
    assert(ascii_lower(q[0]) == p[0]);
    assert(ascii_lower(q[q.len() - 1]) == p[p.len() - 1]);
    assert(!is_ws(q[0]) && q[0] != '#');
    assert(!is_ws(q.last()));
    assert(occurs_at(s, q, pre.len() as int)) by {
        assert(s.subrange(pre.len() as int, (pre.len() + q.len()) as int) =~= q);
    }
    lemma_occurs_trim(s, q, pre.len() as int);
    let t1 = trim(s);
    let j1 = choose|j: int| occurs_at(t1, q, j);
    lemma_occurs_trim_start_char(t1, '#', q, j1);
    let t2 = trim_start_char(t1, '#');
    let j2 = choose|j: int| occurs_at(t2, q, j);
    lemma_occurs_trim(t2, q, j2);
    let t3 = trim(t2);
    let j3 = choose|j: int| occurs_at(t3, q, j);
    lemma_occurs_lowercase(t3, q, j3);
}

} // verus!
