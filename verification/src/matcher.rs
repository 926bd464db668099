//! The line matcher: splits a text into lines that keep their original
//! terminators, and selects the lines whose match status against a compiled
//! pattern equals the requested polarity.

use vstd::prelude::*;
use vstd::seq_lib::*;
use vstd::string::*;

use crate::pattern::{pattern_matches, CompiledPattern};

verus! {

/// Index of the first newline character in `s`, or `s.len()` when `s` has
/// none.
pub open spec fn first_nl(s: Seq<char>) -> nat
    decreases s.len(),
{
    if s.len() == 0 {
        0
    } else if s[0] == '\n' {
        0
    } else {
        1 + first_nl(s.skip(1))
    }
}

/// The lines of `s`, in order. Every line ends with the newline that
/// terminated it, except a final line that the text left unterminated;
/// empty text has no lines.
pub open spec fn spec_lines(s: Seq<char>) -> Seq<Seq<char>>
    decreases s.len(),
{
    if s.len() == 0 {
        Seq::empty()
    } else {
        let k = first_nl(s) as int;
        if k < s.len() {
            seq![s.subrange(0, k + 1)] + spec_lines(s.skip(k + 1))
        } else {
            seq![s]
        }
    }
}

/// `first_nl` is pinned down by its characterisation: `k` is the position of
/// the first newline (or the length, when there is none).
proof fn lemma_first_nl_at(s: Seq<char>, k: int)
    requires
        0 <= k <= s.len(),
        forall|j: int| 0 <= j < k ==> s[j] != '\n',
        k < s.len() ==> s[k] == '\n',
    ensures
        first_nl(s) == k,
    decreases s.len(),
{
    if k == 0 {
    } else {
        let t = s.skip(1);
        assert forall|j: int| 0 <= j < k - 1 implies t[j] != '\n' by {
            assert(t[j] == s[j + 1]);
        }
        lemma_first_nl_at(t, k - 1);
    }
}

/// Unfolds `spec_lines` one step at a known first newline: the lines of the
/// suffix starting at `start` are the segment through the newline at `i`,
/// followed by the lines of the rest.
proof fn lemma_lines_step(s: Seq<char>, start: int, i: int)
    requires
        0 <= start <= i < s.len(),
        forall|j: int| start <= j < i ==> s[j] != '\n',
        s[i] == '\n',
    ensures
        spec_lines(s.skip(start)) == seq![s.subrange(start, i + 1)] + spec_lines(s.skip(i + 1)),
{
    let t = s.skip(start);
    assert forall|j: int| 0 <= j < i - start implies t[j] != '\n' by {
        assert(t[j] == s[start + j]);
    }
    assert(t[i - start] == s[i]);
    lemma_first_nl_at(t, i - start);
    assert(t.subrange(0, i - start + 1) =~= s.subrange(start, i + 1));
    assert(t.skip(i - start + 1) =~= s.skip(i + 1));
}

/// The lines of a nonempty suffix without any newline are that suffix alone.
proof fn lemma_lines_last(s: Seq<char>, start: int)
    requires
        0 <= start < s.len(),
        forall|j: int| start <= j < s.len() ==> s[j] != '\n',
    ensures
        spec_lines(s.skip(start)) == seq![s.subrange(start, s.len() as int)],
{
    let t = s.skip(start);
    assert forall|j: int| 0 <= j < t.len() implies t[j] != '\n' by {
        assert(t[j] == s[start + j]);
    }
    lemma_first_nl_at(t, t.len() as int);
    assert(t =~= s.subrange(start, s.len() as int));
}

/// Splits `text` into its lines; each line keeps its original terminator, a
/// final unterminated segment is kept as-is, and empty text gives no lines.
#[verifier::loop_isolation(false)]
pub fn split_lines(text: &str) -> (r: Vec<String>)
    ensures
        r@.map_values(|l: String| l@) == spec_lines(text@),
{
    let ghost f = |l: String| l@;
    let n = text.unicode_len();
    let mut out: Vec<String> = Vec::new();
    let mut start: usize = 0;
    let mut i: usize = 0;
    proof {
        assert(text@.skip(0) =~= text@);
        assert(out@.map_values(f) + spec_lines(text@) =~= spec_lines(text@));
    }
    while i < n
        invariant
            n == text@.len(),
            start <= i <= n,
            forall|j: int| start <= j < i ==> text@[j] != '\n',
            spec_lines(text@) == out@.map_values(f) + spec_lines(text@.skip(start as int)),
        decreases n - i,
    {
        let c = text.get_char(i);
        if c == '\n' {
            let line = text.substring_char(start, i + 1).to_owned();
            let ghost out0 = out@;
            let ghost lv = line@;
            proof {
                lemma_lines_step(text@, start as int, i as int);
                out0.lemma_push_map_commute(f, line);
            }
            out.push(line);
            proof {
                assert(out@.map_values(f) =~= out0.map_values(f) + seq![lv]);
                assert(spec_lines(text@.skip(start as int)) == seq![lv] + spec_lines(
                    text@.skip(i + 1),
                ));
                assert(out0.map_values(f) + (seq![lv] + spec_lines(text@.skip(i + 1))) =~= (
                out0.map_values(f) + seq![lv]) + spec_lines(text@.skip(i + 1)));
                assert(spec_lines(text@) == out@.map_values(f) + spec_lines(text@.skip(i + 1)));
            }
            start = i + 1;
        }
        i = i + 1;
    }
    if start < n {
        let line = text.substring_char(start, n).to_owned();
        let ghost out0 = out@;
        let ghost lv = line@;
        proof {
            lemma_lines_last(text@, start as int);
            out0.lemma_push_map_commute(f, line);
        }
        out.push(line);
        proof {
            assert(out@.map_values(f) =~= out0.map_values(f) + seq![lv]);
            assert(spec_lines(text@.skip(start as int)) == seq![lv]);
            assert(out0.map_values(f) + seq![lv] =~= out@.map_values(f));
            assert(spec_lines(text@) == out@.map_values(f));
        }
    } else {
        proof {
            assert(text@.skip(start as int) =~= Seq::<char>::empty());
            assert(out@.map_values(f) + Seq::<Seq<char>>::empty() =~= out@.map_values(f));
        }
    }
    out
}

/// The selection predicate: a line is kept exactly when its match status
/// against the pattern differs from `invert`.
pub open spec fn spec_selected(pattern: Seq<char>, insensitive: bool, invert: bool) -> spec_fn(
    Seq<char>,
) -> bool {
    |line: Seq<char>| pattern_matches(pattern, insensitive, line) != invert
}

/// The lines of `text` that the pattern selects under polarity `invert`, in
/// their original order.
pub open spec fn spec_matching_lines(
    text: Seq<char>,
    pattern: Seq<char>,
    insensitive: bool,
    invert: bool,
) -> Seq<Seq<char>> {
    spec_lines(text).filter(spec_selected(pattern, insensitive, invert))
}

/// Returns, in order, the lines of `text` whose match status against
/// `pattern` equals the polarity requested by `invert_match`. Lines keep
/// their original terminators.
#[verifier::loop_isolation(false)]
pub fn find_lines(text: &str, pattern: &CompiledPattern, invert_match: bool) -> (r: Vec<String>)
    ensures
        r@.map_values(|l: String| l@) == spec_matching_lines(
            text@,
            pattern.spec_pattern(),
            pattern.spec_insensitive(),
            invert_match,
        ),
{
    let ghost f = |l: String| l@;
    let ghost pred = spec_selected(pattern.spec_pattern(), pattern.spec_insensitive(), invert_match);
    let lines = split_lines(text);
    let mut out: Vec<String> = Vec::new();
    let mut i: usize = 0;
    while i < lines.len()
        invariant
            i <= lines@.len(),
            lines@.map_values(f) == spec_lines(text@),
            pred == spec_selected(
                pattern.spec_pattern(),
                pattern.spec_insensitive(),
                invert_match,
            ),
            out@.map_values(f) == lines@.take(i as int).map_values(f).filter(pred),
        decreases lines@.len() - i,
    {
        let line = &lines[i];
        let selected = pattern.is_match(line.as_str()) != invert_match;
        proof {
            reveal_with_fuel(Seq::<_>::filter, 2);
            let prev = lines@.take(i as int).map_values(f);
            let cur = lines@.take(i + 1).map_values(f);
            lines@.lemma_map_take_succ(f, i as int);
            assert(cur.drop_last() =~= prev);
            assert(cur.last() == f(lines@[i as int]));
            if pred(lines@[i as int]@) {
                out@.lemma_push_map_commute(f, *line);
                assert(cur.filter(pred) == prev.filter(pred).push(f(lines@[i as int])));
            } else {
                assert(cur.filter(pred) == prev.filter(pred));
            }
        }
        if selected {
            out.push(line.clone());
        }
        i = i + 1;
    }
    proof {
        assert(lines@.take(lines@.len() as int) =~= lines@);
    }
    out
}

/// Filtering a sequence by a predicate and by its negation splits it exactly:
/// the parts are as long as the whole, and together they carry exactly its
/// elements.
proof fn lemma_filter_split<A>(s: Seq<A>, p: spec_fn(A) -> bool, q: spec_fn(A) -> bool)
    requires
        forall|x: A| #[trigger] q(x) == !p(x),
    ensures
        s.filter(p).len() + s.filter(q).len() == s.len(),
        s.filter(p).to_multiset().add(s.filter(q).to_multiset()) =~= s.to_multiset(),
    decreases s.len(),
{
    broadcast use vstd::multiset::group_multiset_axioms;
    broadcast use vstd::multiset::lemma_multiset_empty_len;
    broadcast use vstd::seq_lib::group_to_multiset_ensures;

    reveal_with_fuel(Seq::filter, 2);
    if s.len() == 0 {
        assert(s.to_multiset().len() == 0);
    } else {
        let s0 = s.drop_last();
        let x = s.last();
        lemma_filter_split(s0, p, q);
        assert(s0.push(x) =~= s);
        assert(s0.push(x).to_multiset() =~= s0.to_multiset().insert(x));
        if p(x) {
            assert(s.filter(p) == s0.filter(p).push(x));
            assert(s.filter(q) == s0.filter(q));
            assert(s0.filter(p).push(x).to_multiset() =~= s0.filter(p).to_multiset().insert(x));
        } else {
            assert(s.filter(q) == s0.filter(q).push(x));
            assert(s.filter(p) == s0.filter(p));
            assert(s0.filter(q).push(x).to_multiset() =~= s0.filter(q).to_multiset().insert(x));
        }
    }
}

/// Law: for one text and pattern, the lines selected plainly and the lines
/// selected with the match inverted are disjoint, and together they are
/// exactly the text's lines (as a multiset; each call keeps the text's
/// order on its own part).
pub proof fn lemma_match_partition(text: Seq<char>, pattern: Seq<char>, insensitive: bool)
    ensures
        spec_matching_lines(text, pattern, insensitive, false).len() + spec_matching_lines(
            text,
            pattern,
            insensitive,
            true,
        ).len() == spec_lines(text).len(),
        spec_matching_lines(text, pattern, insensitive, false).to_multiset().add(
            spec_matching_lines(text, pattern, insensitive, true).to_multiset(),
        ) == spec_lines(text).to_multiset(),
        forall|l: Seq<char>|
            !(#[trigger] spec_matching_lines(text, pattern, insensitive, false).contains(l)
                && #[trigger] spec_matching_lines(text, pattern, insensitive, true).contains(l)),
        forall|i: int|
            0 <= i < spec_lines(text).len() ==> spec_matching_lines(
                text,
                pattern,
                insensitive,
                false,
            ).contains(#[trigger] spec_lines(text)[i]) || spec_matching_lines(
                text,
                pattern,
                insensitive,
                true,
            ).contains(spec_lines(text)[i]),
{
    let s = spec_lines(text);
    let p = spec_selected(pattern, insensitive, false);
    let q = spec_selected(pattern, insensitive, true);
    let m0 = spec_matching_lines(text, pattern, insensitive, false);
    let m1 = spec_matching_lines(text, pattern, insensitive, true);
    lemma_filter_split(s, p, q);
    assert forall|l: Seq<char>| !(m0.contains(l) && m1.contains(l)) by {
        if m0.contains(l) && m1.contains(l) {
            let i = choose|i: int| 0 <= i < m0.len() && m0[i] == l;
            let j = choose|j: int| 0 <= j < m1.len() && m1[j] == l;
            s.lemma_filter_pred(p, i);
            s.lemma_filter_pred(q, j);
        }
    }
    assert forall|i: int| 0 <= i < s.len() implies m0.contains(s[i]) || m1.contains(s[i]) by {
        if p(s[i]) {
            s.lemma_filter_contains(p, i);
        } else {
            s.lemma_filter_contains(q, i);
        }
    }
}

} // verus!
