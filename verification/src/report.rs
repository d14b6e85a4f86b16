use vstd::prelude::*;

use vstd::multiset::Multiset;
use vstd::seq_lib::group_to_multiset_ensures;
use vstd::seq_lib::lemma_multiset_commutative;

use crate::accum::StageDurations;
use crate::duration::{format_duration, spec_format_duration};

verus! {

/// Whether an entry with duration `m1` inserted at position `i1` comes
/// before entry `e` in the report: strictly longer duration first, and of
/// equal durations the later-inserted one first (the ascending sort is
/// stable, and the report reverses it).
pub open spec fn dur_precedes(m1: i64, i1: usize, e: (Seq<char>, i64, usize)) -> bool {
    m1 > e.1 || (m1 == e.1 && i1 > e.2)
}

/// Report order between two entries.
pub open spec fn precedes(a: (Seq<char>, i64, usize), b: (Seq<char>, i64, usize)) -> bool {
    dur_precedes(a.1, a.2, b)
}

/// The accumulator's entries, each paired with its insertion position.
pub open spec fn indexed(m: Seq<(Seq<char>, i64)>) -> Seq<(Seq<char>, i64, usize)> {
    Seq::new(m.len(), |i: int| (m[i].0, m[i].1, i as usize))
}

/// Insert `x` before the first entry it precedes.
pub open spec fn spec_insert(
    x: (Seq<char>, i64, usize),
    s: Seq<(Seq<char>, i64, usize)>,
) -> Seq<(Seq<char>, i64, usize)>
    decreases s.len(),
{
    if s.len() == 0 {
        seq![x]
    } else if precedes(x, s[0]) {
        seq![x] + s
    } else {
        seq![s[0]] + spec_insert(x, s.drop_first())
    }
}

/// Sort into report order by inserting the entries one after the other,
/// in insertion order.
pub open spec fn spec_sort(s: Seq<(Seq<char>, i64, usize)>) -> Seq<(Seq<char>, i64, usize)>
    decreases s.len(),
{
    if s.len() == 0 {
        Seq::empty()
    } else {
        spec_insert(s.last(), spec_sort(s.drop_last()))
    }
}

/// The report's rows: the accumulator's entries in report order, each
/// rendered as its name and its H:MM duration.
pub open spec fn spec_report(m: Seq<(Seq<char>, i64)>) -> Seq<(Seq<char>, Seq<char>)> {
    spec_sort(indexed(m)).map_values(
        |e: (Seq<char>, i64, usize)| (e.0, spec_format_duration(e.1 as int)),
    )
}

/// Entries stand pairwise in report order: durations never increase, and
/// equal durations stand in reverse insertion order.
pub open spec fn report_ordered(s: Seq<(Seq<char>, i64, usize)>) -> bool {
    forall|a: int, b: int| 0 <= a < b < s.len() ==> !precedes(#[trigger] s[b], #[trigger] s[a])
}

proof fn lemma_insert_at(x: (Seq<char>, i64, usize), s: Seq<(Seq<char>, i64, usize)>, j: int)
    requires
        0 <= j <= s.len(),
        forall|k: int| 0 <= k < j ==> !precedes(x, #[trigger] s[k]),
        j < s.len() ==> precedes(x, s[j]),
    ensures
        spec_insert(x, s) == s.take(j) + seq![x] + s.skip(j),
    decreases s.len(),
{
    if s.len() == 0 {
        assert(spec_insert(x, s) =~= s.take(j) + seq![x] + s.skip(j));
    } else if precedes(x, s[0]) {
        assert(j == 0);
        assert(spec_insert(x, s) =~= s.take(0) + seq![x] + s.skip(0));
    } else {
        assert(j >= 1);
        assert(forall|k: int|
            0 <= k < j - 1 ==> #[trigger] s.drop_first()[k] == s[k + 1]);
        lemma_insert_at(x, s.drop_first(), j - 1);
        assert(seq![s[0]] + (s.drop_first().take(j - 1) + seq![x] + s.drop_first().skip(j - 1))
            =~= s.take(j) + seq![x] + s.skip(j));
    }
}

proof fn lemma_insert_ordered(x: (Seq<char>, i64, usize), s: Seq<(Seq<char>, i64, usize)>, j: int)
    requires
        report_ordered(s),
        0 <= j <= s.len(),
        forall|k: int| 0 <= k < j ==> !precedes(x, #[trigger] s[k]),
        j < s.len() ==> precedes(x, s[j]),
    ensures
        report_ordered(s.take(j) + seq![x] + s.skip(j)),
{
    let r = s.take(j) + seq![x] + s.skip(j);
    assert forall|a: int, b: int| 0 <= a < b < r.len() implies !precedes(r[b], r[a]) by {
        if a < j {
            assert(r[a] == s[a]);
        } else if a == j {
            assert(r[a] == x);
        } else {
            assert(r[a] == s[a - 1]);
        }
        if b < j {
            assert(r[b] == s[b]);
        } else if b == j {
            assert(r[b] == x);
        } else {
            assert(r[b] == s[b - 1]);
        }
    }
}

proof fn lemma_insert_multiset(x: (Seq<char>, i64, usize), s: Seq<(Seq<char>, i64, usize)>, j: int)
    requires
        0 <= j <= s.len(),
    ensures
        (s.take(j) + seq![x] + s.skip(j)).to_multiset() == s.to_multiset().insert(x),
{
    broadcast use group_to_multiset_ensures;
    broadcast use vstd::multiset::group_multiset_axioms;

    lemma_multiset_commutative(s.take(j) + seq![x], s.skip(j));
    lemma_multiset_commutative(s.take(j), seq![x]);
    lemma_multiset_commutative(s.take(j), s.skip(j));
    assert(s.take(j) + s.skip(j) =~= s);
    assert(seq![x] =~= Seq::<(Seq<char>, i64, usize)>::empty().push(x));
    assert(seq![x].to_multiset() =~= Multiset::<(Seq<char>, i64, usize)>::empty().insert(x));
    assert((s.take(j) + seq![x] + s.skip(j)).to_multiset() =~= s.to_multiset().insert(x));
}

fn insert_pos(sorted: &Vec<(String, i64, usize)>, millis: i64, idx: usize) -> (j: usize)
    ensures
        0 <= j <= sorted@.len(),
        forall|k: int| 0 <= k < j ==> !dur_precedes(millis, idx, #[trigger] sorted.deep_view()[k]),
        j < sorted@.len() ==> dur_precedes(millis, idx, sorted.deep_view()[j as int]),
{
    let mut j: usize = 0;
    while j < sorted.len()
        invariant
            0 <= j <= sorted@.len(),
            sorted.deep_view().len() == sorted@.len(),
            forall|k: int|
                0 <= k < j ==> !dur_precedes(millis, idx, #[trigger] sorted.deep_view()[k]),
        decreases sorted@.len() - j,
    {
        let e = &sorted[j];
        if millis > e.1 || (millis == e.1 && idx > e.2) {
            return j;
        }
        j += 1;
    }
    j
}

/// The report: one row per accumulator entry, the stage's name beside its
/// total rendered as H:MM, in report order — longest first, ties in
/// reverse insertion order. The rows are exactly the accumulator's
/// entries rearranged: the same multiset, pairwise ordered.
pub fn report_rows(acc: &StageDurations) -> (rows: Vec<(String, String)>)
    ensures
        rows.deep_view() == spec_report(acc@),
        report_ordered(spec_sort(indexed(acc@))),
        spec_sort(indexed(acc@)).to_multiset() == indexed(acc@).to_multiset(),
{
    broadcast use group_to_multiset_ensures;

    let ghost ixd = indexed(acc@);
    let n = acc.len();
    let mut sorted: Vec<(String, i64, usize)> = Vec::new();
    let mut i: usize = 0;
    proof {
        assert(ixd.take(0) =~= Seq::<(Seq<char>, i64, usize)>::empty());
        assert(sorted.deep_view() =~= spec_sort(ixd.take(0)));
    }
    while i < n
        invariant
            0 <= i <= n,
            n == acc@.len(),
            ixd == indexed(acc@),
            sorted.deep_view() == spec_sort(ixd.take(i as int)),
            sorted@.len() == i,
            sorted.deep_view().len() == i,
            report_ordered(sorted.deep_view()),
            sorted.deep_view().to_multiset() == ixd.take(i as int).to_multiset(),
        decreases n - i,
    {
        let (name, millis) = acc.entry_at(i);
        let ghost x = ixd[i as int];
        let ghost sv = sorted.deep_view();
        let j = insert_pos(&sorted, millis, i);
        proof {
            broadcast use group_to_multiset_ensures;

            assert(x == (name@, millis, i as usize));
            lemma_insert_at(x, sv, j as int);
            lemma_insert_ordered(x, sv, j as int);
            lemma_insert_multiset(x, sv, j as int);
        }
        sorted.insert(j, (name, millis, i));
        proof {
            assert(sorted.deep_view() =~= sv.take(j as int) + seq![x] + sv.skip(j as int));
            assert(ixd.take(i as int + 1) =~= ixd.take(i as int).push(x));
            assert(ixd.take(i as int).push(x).to_multiset() =~= ixd.take(
                i as int,
            ).to_multiset().insert(x));
            assert(ixd.take(i as int + 1).drop_last() =~= ixd.take(i as int));
            assert(spec_sort(ixd.take(i as int + 1)) == spec_insert(x, spec_sort(ixd.take(i as int))));
        }
        i += 1;
    }
    proof {
        assert(ixd.take(n as int) =~= ixd);
    }
    let mut rows: Vec<(String, String)> = Vec::new();
    let mut k: usize = 0;
    proof {
        assert(rows.deep_view() =~= spec_report(acc@).take(0));
    }
    while k < n
        invariant
            0 <= k <= n,
            n == acc@.len(),
            ixd == indexed(acc@),
            sorted.deep_view() == spec_sort(ixd),
            sorted@.len() == n,
            sorted.deep_view().len() == n,
            spec_report(acc@).len() == n,
            rows@.len() == k,
            rows.deep_view() == spec_report(acc@).take(k as int),
        decreases n - k,
    {
        let e = &sorted[k];
        let text = format_duration(e.1);
        rows.push((e.0.clone(), text));
        proof {
            assert(sorted.deep_view()[k as int] == (e.0@, e.1, e.2));
            assert(spec_report(acc@)[k as int] == (e.0@, spec_format_duration(e.1 as int)));
            assert(rows.deep_view()[k as int] == (e.0@, spec_format_duration(e.1 as int)));
            assert(rows.deep_view() =~= spec_report(acc@).take(k as int + 1));
        }
        k += 1;
    }
    proof {
        assert(spec_report(acc@).take(n as int) =~= spec_report(acc@));
    }
    rows
}

} // verus!
