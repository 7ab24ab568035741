//! Splitting one string into the element spans of a sequence literal.
use vstd::prelude::*;
use vstd::string::StringExecFns;

verus! {

/// The reserved delimiter between the elements of a sequence literal.
pub open spec fn delim() -> char {
    ','
}

/// Position of the first delimiter in `s`, or `s.len()` where there is none.
pub open spec fn delim_pos(s: Seq<char>) -> int
    decreases s.len(),
{
    if s.len() == 0 {
        0
    } else if s[0] == delim() {
        0
    } else {
        1 + delim_pos(s.drop_first())
    }
}

/// The element spans of a sequence literal: nothing for the empty string;
/// otherwise the text up to the first delimiter, then the spans of what
/// follows that delimiter. A delimiter that ends the input opens no further
/// element.
pub open spec fn spans(s: Seq<char>) -> Seq<Seq<char>>
    decreases s.len() via spans_decreases
{
    if s.len() == 0 {
        seq![]
    } else {
        let k = delim_pos(s);
        if k >= s.len() {
            seq![s]
        } else {
            seq![s.subrange(0, k)] + spans(s.subrange(k + 1, s.len() as int))
        }
    }
}

proof fn lemma_delim_pos_bounds(s: Seq<char>)
    ensures
        0 <= delim_pos(s) <= s.len(),
    decreases s.len(),
{
    if s.len() > 0 && s[0] != delim() {
        lemma_delim_pos_bounds(s.drop_first());
    }
}

#[via_fn]
proof fn spans_decreases(s: Seq<char>) {
    lemma_delim_pos_bounds(s);
}

/// The elements of `items`, each followed by a delimiter but the last.
pub open spec fn join(items: Seq<Seq<char>>) -> Seq<char>
    decreases items.len(),
{
    if items.len() == 0 {
        seq![]
    } else if items.len() == 1 {
        items[0]
    } else {
        items[0] + seq![delim()] + join(items.drop_first())
    }
}

pub open spec fn has_delim(s: Seq<char>) -> bool {
    exists|i: int| 0 <= i < s.len() && s[i] == delim()
}

proof fn lemma_delim_pos(s: Seq<char>, m: int)
    requires
        0 <= m <= s.len(),
        forall|i: int| 0 <= i < m ==> s[i] != delim(),
        m == s.len() || s[m] == delim(),
    ensures
        delim_pos(s) == m,
    decreases m,
{
    if m > 0 {
        let t = s.drop_first();
        assert forall|i: int| 0 <= i < m - 1 implies t[i] != delim() by {
            assert(t[i] == s[i + 1]);
        }
        if m < s.len() {
            assert(t[m - 1] == s[m]);
        }
        lemma_delim_pos(t, m - 1);
    }
}

/// Cuts `s` at each delimiter into the element spans of a sequence literal.
pub fn split_sequence(s: &str) -> (r: Vec<String>)
    ensures
        r@.map_values(|x: String| x@) == spans(s@),
{
    let n = s.unicode_len();
    let mut out: Vec<String> = Vec::new();
    let mut start: usize = 0;
    assert(s@.subrange(0, n as int) == s@);
    while start < n
        invariant
            n == s@.len(),
            start <= n,
            out@.map_values(|x: String| x@) + spans(s@.subrange(start as int, n as int))
                == spans(s@),
        decreases n - start,
    {
        let ghost rest = s@.subrange(start as int, n as int);
        let mut j: usize = start;
        while j < n && s.get_char(j) != ','
            invariant
                n == s@.len(),
                start <= j <= n,
                forall|i: int| start <= i < j ==> s@[i] != delim(),
            decreases n - j,
        {
            j = j + 1;
        }
        proof {
            lemma_delim_pos(rest, j - start);
            assert(rest.subrange(0, j - start) == s@.subrange(start as int, j as int));
            if j < n {
                assert(rest.subrange(j - start + 1, rest.len() as int) == s@.subrange(
                    j + 1,
                    n as int,
                ));
            } else {
                assert(rest == s@.subrange(start as int, j as int));
            }
        }
        let piece = String::from_str(s.substring_char(start, j));
        let ghost before = out@.map_values(|x: String| x@);
        out.push(piece);
        assert(out@.map_values(|x: String| x@) == before.push(piece@));
        if j < n {
            start = j + 1;
            assert(before.push(piece@) + spans(s@.subrange(start as int, n as int)) == before + (
            seq![piece@] + spans(s@.subrange(start as int, n as int))));
        } else {
            start = n;
            assert(s@.subrange(n as int, n as int).len() == 0);
            assert(before.push(piece@) + spans(s@.subrange(start as int, n as int)) == before
                + seq![piece@]);
        }
    }
    assert(out@.map_values(|x: String| x@) + spans(s@.subrange(n as int, n as int))
        == out@.map_values(|x: String| x@));
    out
}

proof fn lemma_join_delim_pos(a: Seq<char>, rest: Seq<char>)
    requires
        !has_delim(a),
    ensures
        delim_pos(a + seq![delim()] + rest) == a.len(),
        (a + seq![delim()] + rest).subrange(0, a.len() as int) == a,
        (a + seq![delim()] + rest).subrange(
            a.len() as int + 1,
            (a + seq![delim()] + rest).len() as int,
        ) == rest,
{
    let s = a + seq![delim()] + rest;
    assert(s[a.len() as int] == delim());
    assert forall|i: int| 0 <= i < a.len() implies s[i] != delim() by {
        assert(s[i] == a[i]);
    }
    lemma_delim_pos(s, a.len() as int);
    assert(s.subrange(0, a.len() as int) == a);
    assert(s.subrange(a.len() as int + 1, s.len() as int) == rest);
}

/// Joining strings that hold no delimiter and splitting the result gives the
/// strings back, in order, provided the last one is not empty (a trailing
/// empty element leaves no trace in the joined text).
pub proof fn lemma_sequence_round_trip(items: Seq<Seq<char>>)
    requires
        forall|i: int| 0 <= i < items.len() ==> !has_delim(#[trigger] items[i]),
        items.len() > 0 ==> items.last().len() > 0,
    ensures
        spans(join(items)) == items,
    decreases items.len(),
{
    if items.len() == 1 {
        lemma_singleton_sequence(items[0]);
        assert(items == seq![items[0]]);
    } else if items.len() > 1 {
        let tail = items.drop_first();
        assert forall|i: int| 0 <= i < tail.len() implies !has_delim(#[trigger] tail[i]) by {
            assert(tail[i] == items[i + 1]);
        }
        assert(tail.last() == items.last());
        lemma_sequence_round_trip(tail);
        lemma_join_delim_pos(items[0], join(tail));
        let s = join(items);
        assert(s.len() > 0);
        assert(seq![items[0]] + tail == items);
    }
}

/// A non-empty string without a delimiter is a sequence of exactly one
/// element: the whole string.
pub proof fn lemma_singleton_sequence(s: Seq<char>)
    requires
        s.len() > 0,
        !has_delim(s),
    ensures
        spans(s) == seq![s],
{
    lemma_delim_pos(s, s.len() as int);
}

} // verus!
