//! A stable sort of line segments by descending length, given both as a
//! spec-level insertion sort and as a verified executable sort that
//! produces exactly the spec-level result.

use vstd::prelude::*;
use vstd::multiset::Multiset;
use crate::geometry::Line;
use crate::geometry::length_fits;
use crate::geometry::length_spec;

verus! {

/// Segments in order of weakly descending length.
pub open spec fn sorted_desc(s: Seq<Line>) -> bool {
    forall|i: int, j: int|
        0 <= i < j < s.len() ==> length_spec(#[trigger] s[i]) >= length_spec(#[trigger] s[j])
}

/// Inserts x into s after every element of length at least x's length and
/// before the rest. Inserting after equal lengths makes the sort stable:
/// an element keeps its place before later elements of equal length.
pub open spec fn insert_desc(x: Line, s: Seq<Line>) -> Seq<Line>
    decreases s.len(),
{
    if s.len() == 0 {
        seq![x]
    } else if length_spec(s[0]) >= length_spec(x) {
        seq![s[0]] + insert_desc(x, s.drop_first())
    } else {
        seq![x] + s
    }
}

/// Stable insertion sort by descending length: each element in turn is
/// inserted into the sorted sequence of the elements before it.
pub open spec fn sort_desc_spec(s: Seq<Line>) -> Seq<Line>
    decreases s.len(),
{
    if s.len() == 0 {
        Seq::empty()
    } else {
        insert_desc(s.last(), sort_desc_spec(s.drop_last()))
    }
}

/// Inserting keeps a sorted sequence sorted; the new first element is
/// either x or the old first element.
pub proof fn lemma_insert_desc_sorted(x: Line, s: Seq<Line>)
    requires
        sorted_desc(s),
    ensures
        insert_desc(x, s).len() == s.len() + 1,
        sorted_desc(insert_desc(x, s)),
        insert_desc(x, s)[0] == x || (s.len() > 0 && insert_desc(x, s)[0] == s[0]),
    decreases s.len(),
{
    if s.len() == 0 {
    } else if length_spec(s[0]) >= length_spec(x) {
        lemma_insert_desc_sorted(x, s.drop_first());
        let ins = insert_desc(x, s.drop_first());
        let t = seq![s[0]] + ins;
        assert(length_spec(s[0]) >= length_spec(ins[0]));
        assert forall|i: int, j: int| 0 <= i < j < t.len() implies length_spec(
            #[trigger] t[i],
        ) >= length_spec(#[trigger] t[j]) by {
            if i == 0 {
                if j > 1 {
                    assert(length_spec(ins[0]) >= length_spec(ins[j - 1]));
                }
            } else {
                assert(t[i] == ins[i - 1] && t[j] == ins[j - 1]);
            }
        }
    } else {
        let t = seq![x] + s;
        assert forall|i: int, j: int| 0 <= i < j < t.len() implies length_spec(
            #[trigger] t[i],
        ) >= length_spec(#[trigger] t[j]) by {
            if i == 0 {
                assert(t[j] == s[j - 1]);
                if j > 1 {
                    assert(length_spec(s[0]) >= length_spec(s[j - 1]));
                }
            } else {
                assert(t[i] == s[i - 1] && t[j] == s[j - 1]);
            }
        }
    }
}

/// Inserting adds exactly one occurrence of x to the sequence's contents.
pub proof fn lemma_insert_desc_multiset(x: Line, s: Seq<Line>)
    ensures
        insert_desc(x, s).to_multiset() == s.to_multiset().insert(x),
    decreases s.len(),
{
    broadcast use vstd::seq_lib::group_to_multiset_ensures;

    if s.len() == 0 {
        assert(seq![x] =~= Seq::empty().push(x));
        assert(Seq::<Line>::empty().to_multiset() =~= Multiset::empty());
        assert(insert_desc(x, s).to_multiset() =~= s.to_multiset().insert(x));
    } else if length_spec(s[0]) >= length_spec(x) {
        lemma_insert_desc_multiset(x, s.drop_first());
        let ins = insert_desc(x, s.drop_first());
        assert(seq![s[0]] + ins =~= ins.insert(0, s[0]));
        lemma_multiset_insert_front(ins, s[0]);
        lemma_multiset_insert_front(s.drop_first(), s[0]);
        assert(s.drop_first().insert(0, s[0]) =~= s);
        assert(insert_desc(x, s).to_multiset() =~= s.to_multiset().insert(x));
    } else {
        assert(seq![x] + s =~= s.insert(0, x));
        lemma_multiset_insert_front(s, x);
    }
}

/// Prepending an element inserts it into the sequence's contents.
proof fn lemma_multiset_insert_front(s: Seq<Line>, x: Line)
    ensures
        s.insert(0, x).to_multiset() == s.to_multiset().insert(x),
    decreases s.len(),
{
    broadcast use vstd::seq_lib::group_to_multiset_ensures;

    if s.len() == 0 {
        assert(s.insert(0, x) =~= s.push(x));
    } else {
        lemma_multiset_insert_front(s.drop_last(), x);
        assert(s.insert(0, x) =~= s.drop_last().insert(0, x).push(s.last()));
        assert(s.drop_last().push(s.last()) =~= s);
        assert(s.insert(0, x).to_multiset() =~= s.to_multiset().insert(x));
    }
}

/// The sort returns a sorted sequence with the same length and contents.
pub proof fn lemma_sort_desc_spec(s: Seq<Line>)
    ensures
        sort_desc_spec(s).len() == s.len(),
        sorted_desc(sort_desc_spec(s)),
        sort_desc_spec(s).to_multiset() == s.to_multiset(),
    decreases s.len(),
{
    broadcast use vstd::seq_lib::group_to_multiset_ensures;

    if s.len() > 0 {
        lemma_sort_desc_spec(s.drop_last());
        lemma_insert_desc_sorted(s.last(), sort_desc_spec(s.drop_last()));
        lemma_insert_desc_multiset(s.last(), sort_desc_spec(s.drop_last()));
        assert(s.drop_last().push(s.last()) =~= s);
        assert(sort_desc_spec(s).to_multiset() =~= s.to_multiset());
    }
}

/// Every element of a sequence with the same contents as s is an element
/// of s.
pub proof fn lemma_same_contents_elements(s: Seq<Line>, t: Seq<Line>)
    requires
        s.to_multiset() == t.to_multiset(),
    ensures
        forall|k: int| 0 <= k < t.len() ==> s.contains(#[trigger] t[k]),
{
    broadcast use vstd::seq_lib::group_to_multiset_ensures;

    assert forall|k: int| 0 <= k < t.len() implies s.contains(#[trigger] t[k]) by {
        assert(t.contains(t[k]));
        assert(t.to_multiset().count(t[k]) > 0);
        assert(s.to_multiset().count(t[k]) > 0);
    }
}

/// When x's length is below every element's, inserting appends it.
pub proof fn lemma_insert_desc_append(x: Line, s: Seq<Line>)
    requires
        forall|k: int| 0 <= k < s.len() ==> length_spec(#[trigger] s[k]) >= length_spec(x),
    ensures
        insert_desc(x, s) == s.push(x),
    decreases s.len(),
{
    if s.len() == 0 {
        assert(insert_desc(x, s) =~= s.push(x));
    } else {
        lemma_insert_desc_append(x, s.drop_first());
        assert(insert_desc(x, s) =~= s.push(x));
    }
}

/// LAW: the stable sort leaves an already sorted sequence unchanged.
pub proof fn lemma_sort_of_sorted(s: Seq<Line>)
    requires
        sorted_desc(s),
    ensures
        sort_desc_spec(s) == s,
    decreases s.len(),
{
    if s.len() > 0 {
        assert forall|i: int, j: int| 0 <= i < j < s.drop_last().len() implies length_spec(
            #[trigger] s.drop_last()[i],
        ) >= length_spec(#[trigger] s.drop_last()[j]) by {
            assert(s.drop_last()[i] == s[i] && s.drop_last()[j] == s[j]);
        }
        lemma_sort_of_sorted(s.drop_last());
        assert forall|k: int| 0 <= k < s.drop_last().len() implies length_spec(
            #[trigger] s.drop_last()[k],
        ) >= length_spec(s.last()) by {
            assert(s.drop_last()[k] == s[k]);
            assert(length_spec(s[k]) >= length_spec(s[s.len() - 1]));
        }
        lemma_insert_desc_append(s.last(), s.drop_last());
        assert(s.drop_last().push(s.last()) =~= s);
    }
}

/// Inserting x at the first position whose element is shorter than x is
/// the same as the spec-level insertion.
pub proof fn lemma_insert_desc_at(x: Line, s: Seq<Line>, k: int)
    requires
        0 <= k <= s.len(),
        forall|t: int| 0 <= t < k ==> length_spec(#[trigger] s[t]) >= length_spec(x),
        k == s.len() || length_spec(s[k]) < length_spec(x),
    ensures
        insert_desc(x, s) == s.insert(k, x),
    decreases k,
{
    if k == 0 {
        if s.len() == 0 {
            assert(insert_desc(x, s) =~= s.insert(0, x));
        } else {
            assert(insert_desc(x, s) =~= s.insert(0, x));
        }
    } else {
        assert(length_spec(s[0]) >= length_spec(x));
        assert forall|t: int| 0 <= t < k - 1 implies length_spec(
            #[trigger] s.drop_first()[t],
        ) >= length_spec(x) by {
            assert(s.drop_first()[t] == s[t + 1]);
        }
        if k < s.len() {
            assert(s.drop_first()[k - 1] == s[k]);
        }
        lemma_insert_desc_at(x, s.drop_first(), k - 1);
        assert(insert_desc(x, s) =~= s.insert(k, x));
    }
}

/// Sorts the segments by weakly descending length; the sort is stable, so
/// segments of equal length keep their relative order.
pub fn sort_lines_desc(lines: &Vec<Line>) -> (sorted: Vec<Line>)
    requires
        forall|t: int| 0 <= t < lines@.len() ==> length_fits(#[trigger] lines@[t]),
    ensures
        sorted@ == sort_desc_spec(lines@),
{
    let mut out: Vec<Line> = Vec::new();
    let mut i: usize = 0;
    while i < lines.len()
        invariant
            i <= lines@.len(),
            forall|t: int| 0 <= t < lines@.len() ==> length_fits(#[trigger] lines@[t]),
            out@ == sort_desc_spec(lines@.take(i as int)),
            out@.len() == i,
            forall|t: int| 0 <= t < out@.len() ==> length_fits(#[trigger] out@[t]),
        decreases lines@.len() - i,
    {
        let x = lines[i];
        let xlen = x.length();
        let ghost prev = out@;
        let mut k: usize = 0;
        while k < out.len() && out[k].length() >= xlen
            invariant
                k <= out@.len(),
                out@ == prev,
                forall|t: int| 0 <= t < out@.len() ==> length_fits(#[trigger] out@[t]),
                forall|t: int| 0 <= t < k ==> length_spec(#[trigger] out@[t]) >= length_spec(x),
                xlen as int == length_spec(x),
            decreases out@.len() - k,
        {
            k += 1;
        }
        out.insert(k, x);
        proof {
            lemma_insert_desc_at(x, prev, k as int);
            assert(lines@.take(i as int + 1).drop_last() =~= lines@.take(i as int));
            assert(lines@.take(i as int + 1).last() == x);
            assert(out@ == sort_desc_spec(lines@.take(i as int + 1)));
            prev.insert_ensures(k as int, x);
        }
        i += 1;
    }
    proof {
        assert(lines@.take(lines@.len() as int) =~= lines@);
    }
    out
}

} // verus!
