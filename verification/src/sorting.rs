//! Ordering samples by retention time.

use vstd::prelude::*;
use crate::extract::Sample;

verus! {

/// Whether the samples' retention times never decrease.
pub open spec fn ordered_by_time(rows: Seq<Sample>) -> bool {
    forall|i: int, j: int|
        0 <= i <= j < rows.len() ==> rows[i].retention_time <= rows[j].retention_time
}

/// Where a sample goes into samples ordered by time: behind the last one
/// that is not later than it.
pub open spec fn insertion_index(rows: Seq<Sample>, row: Sample) -> int
    decreases rows.len(),
{
    if rows.len() == 0 || rows.last().retention_time <= row.retention_time {
        rows.len() as int
    } else {
        insertion_index(rows.drop_last(), row)
    }
}

/// The samples ordered by retention time, samples of the same time in the
/// order in which they came.
pub open spec fn sorted_by_time(rows: Seq<Sample>) -> Seq<Sample>
    decreases rows.len(),
{
    if rows.len() == 0 {
        rows
    } else {
        let before = sorted_by_time(rows.drop_last());
        before.insert(insertion_index(before, rows.last()), rows.last())
    }
}

/// The place where a sample goes lies within the samples, after every
/// sample not later than it and before the later ones behind it.
pub proof fn lemma_insertion_index(rows: Seq<Sample>, row: Sample)
    ensures
        0 <= insertion_index(rows, row) <= rows.len(),
        insertion_index(rows, row) > 0 ==> rows[insertion_index(rows, row) - 1].retention_time
            <= row.retention_time,
        forall|k: int|
            insertion_index(rows, row) <= k < rows.len() ==> (#[trigger] rows[k]).retention_time
                > row.retention_time,
    decreases rows.len(),
{
    if !(rows.len() == 0 || rows.last().retention_time <= row.retention_time) {
        lemma_insertion_index(rows.drop_last(), row);
        let p = insertion_index(rows.drop_last(), row);
        assert forall|k: int| p <= k < rows.len() implies (#[trigger] rows[k]).retention_time
            > row.retention_time by {
            if k < rows.len() - 1 {
                assert(rows[k] == rows.drop_last()[k]);
            }
        }
        if p > 0 {
            assert(rows[p - 1] == rows.drop_last()[p - 1]);
        }
    }
}

/// Sorting keeps the number of samples.
pub proof fn lemma_sorted_len(rows: Seq<Sample>)
    ensures
        sorted_by_time(rows).len() == rows.len(),
    decreases rows.len(),
{
    if rows.len() > 0 {
        lemma_sorted_len(rows.drop_last());
        lemma_insertion_index(sorted_by_time(rows.drop_last()), rows.last());
    }
}

/// Sorted samples are ordered by retention time.
pub proof fn lemma_sorted_is_ordered(rows: Seq<Sample>)
    ensures
        ordered_by_time(sorted_by_time(rows)),
    decreases rows.len(),
{
    if rows.len() > 0 {
        let before = sorted_by_time(rows.drop_last());
        let row = rows.last();
        let p = insertion_index(before, row);
        lemma_sorted_is_ordered(rows.drop_last());
        lemma_insertion_index(before, row);
        let after = before.insert(p, row);
        assert forall|i: int, j: int| 0 <= i <= j < after.len() implies after[i].retention_time
            <= after[j].retention_time by {
            if i < p && j > p {
                assert(after[i] == before[i]);
                assert(after[j] == before[j - 1]);
            } else if i < p && j == p {
                assert(after[i] == before[i]);
                assert(before[i].retention_time <= before[p - 1].retention_time);
            } else if i < p && j < p {
                assert(after[i] == before[i]);
                assert(after[j] == before[j]);
            } else if i == p && j > p {
                assert(after[j] == before[j - 1]);
            } else if i > p {
                assert(after[i] == before[i - 1]);
                assert(after[j] == before[j - 1]);
            }
        }
    }
}

/// Sorting rearranges the samples: none is lost, none is made up.
pub proof fn lemma_sorted_is_permutation(rows: Seq<Sample>)
    ensures
        sorted_by_time(rows).to_multiset() == rows.to_multiset(),
    decreases rows.len(),
{
    broadcast use vstd::seq_lib::group_to_multiset_ensures;

    if rows.len() > 0 {
        let before = sorted_by_time(rows.drop_last());
        let row = rows.last();
        let p = insertion_index(before, row);
        lemma_sorted_is_permutation(rows.drop_last());
        lemma_insertion_index(before, row);
        let after = before.insert(p, row);
        assert(after.remove(p) =~= before);
        assert(after.remove(p).to_multiset() =~= after.to_multiset().remove(after[p]));
        assert(after.to_multiset().count(row) > 0) by {
            assert(after[p] == row);
            assert(after.contains(row));
        }
        assert(after.to_multiset() =~= before.to_multiset().insert(row));
        assert(rows =~= rows.drop_last().push(row));
        assert(rows.to_multiset() =~= rows.drop_last().to_multiset().insert(row));
    } else {
        assert(sorted_by_time(rows) =~= rows);
    }
}

/// Samples that are already ordered by retention time stay as they are.
pub proof fn lemma_sorted_of_ordered(rows: Seq<Sample>)
    requires
        ordered_by_time(rows),
    ensures
        sorted_by_time(rows) == rows,
    decreases rows.len(),
{
    if rows.len() > 0 {
        let shorter = rows.drop_last();
        assert(ordered_by_time(shorter)) by {
            assert forall|i: int, j: int| 0 <= i <= j < shorter.len() implies shorter[i].retention_time
                <= shorter[j].retention_time by {
                assert(shorter[i] == rows[i]);
                assert(shorter[j] == rows[j]);
            }
        }
        lemma_sorted_of_ordered(shorter);
        if shorter.len() > 0 {
            assert(shorter.last() == rows[rows.len() - 2]);
        }
        assert(insertion_index(shorter, rows.last()) == shorter.len());
        assert(shorter.insert(shorter.len() as int, rows.last()) =~= rows);
    }
}

/// The samples that have the retention time `time`, in their order.
pub open spec fn at_time(rows: Seq<Sample>, time: u64) -> Seq<Sample>
    decreases rows.len(),
{
    if rows.len() == 0 {
        rows
    } else if rows.last().retention_time == time {
        at_time(rows.drop_last(), time).push(rows.last())
    } else {
        at_time(rows.drop_last(), time)
    }
}

/// The samples of one time in two stretches are those of the first, then
/// those of the second.
proof fn lemma_at_time_concat(a: Seq<Sample>, b: Seq<Sample>, time: u64)
    ensures
        at_time(a + b, time) == at_time(a, time) + at_time(b, time),
    decreases b.len(),
{
    if b.len() == 0 {
        assert(a + b =~= a);
        assert(at_time(a, time) + at_time(b, time) =~= at_time(a, time));
    } else {
        lemma_at_time_concat(a, b.drop_last(), time);
        assert((a + b).drop_last() =~= a + b.drop_last());
        assert((a + b).last() == b.last());
        assert(at_time(a + b, time) =~= at_time(a, time) + at_time(b, time));
    }
}

/// Where no sample has the time, there are no samples of that time.
proof fn lemma_at_time_none(rows: Seq<Sample>, time: u64)
    requires
        forall|k: int| 0 <= k < rows.len() ==> (#[trigger] rows[k]).retention_time != time,
    ensures
        at_time(rows, time).len() == 0,
    decreases rows.len(),
{
    if rows.len() > 0 {
        assert forall|k: int| 0 <= k < rows.drop_last().len() implies (#[trigger] rows.drop_last()[k]).retention_time
            != time by {
            assert(rows.drop_last()[k] == rows[k]);
        }
        lemma_at_time_none(rows.drop_last(), time);
    }
}

/// Sorting is stable: the samples of each retention time keep the order in
/// which they came. Together with the order by time this fixes the result.
pub proof fn lemma_sorted_is_stable(rows: Seq<Sample>, time: u64)
    ensures
        at_time(sorted_by_time(rows), time) == at_time(rows, time),
    decreases rows.len(),
{
    if rows.len() > 0 {
        let before = sorted_by_time(rows.drop_last());
        let row = rows.last();
        let p = insertion_index(before, row);
        lemma_sorted_is_stable(rows.drop_last(), time);
        lemma_insertion_index(before, row);
        let head = before.take(p);
        let tail = before.skip(p);
        assert(before.insert(p, row) =~= head.push(row) + tail);
        assert(before =~= head + tail);
        lemma_at_time_concat(head.push(row), tail, time);
        lemma_at_time_concat(head, tail, time);
        assert(head.push(row).drop_last() =~= head);
        if row.retention_time == time {
            assert forall|k: int| 0 <= k < tail.len() implies (#[trigger] tail[k]).retention_time
                != time by {
                assert(tail[k] == before[p + k]);
            }
            lemma_at_time_none(tail, time);
            assert(at_time(head.push(row), time) + at_time(tail, time) =~= (at_time(head, time)
                + at_time(tail, time)).push(row));
        }
    }
}

/// Orders samples by retention time. Samples of the same retention time
/// keep the order in which they came.
pub fn sort_by_time(rows: &Vec<Sample>) -> (sorted: Vec<Sample>)
    ensures
        sorted@ == sorted_by_time(rows@),
        sorted@.len() == rows@.len(),
        ordered_by_time(sorted@),
        sorted@.to_multiset() == rows@.to_multiset(),
{
    let mut sorted: Vec<Sample> = Vec::new();
    let mut i: usize = 0;
    assert(rows@.take(0) =~= Seq::<Sample>::empty());
    while i < rows.len()
        invariant
            0 <= i <= rows@.len(),
            sorted@ == sorted_by_time(rows@.take(i as int)),
            sorted@.len() == i,
        decreases rows@.len() - i,
    {
        let row: Sample = rows[i];
        let mut place: usize = sorted.len();
        assert(sorted@.take(place as int) =~= sorted@);
        while place > 0 && sorted[place - 1].retention_time > row.retention_time
            invariant
                0 <= place <= sorted@.len(),
                insertion_index(sorted@, row) == insertion_index(sorted@.take(place as int), row),
            decreases place,
        {
            assert(sorted@.take(place as int).drop_last() =~= sorted@.take(place - 1));
            place = place - 1;
        }
        proof {
            assert(sorted@.take(sorted@.len() as int) =~= sorted@);
            assert(insertion_index(sorted@, row) == place);
            assert(rows@.take(i + 1).drop_last() =~= rows@.take(i as int));
            assert(rows@.take(i + 1).last() == row);
            lemma_sorted_len(rows@.take(i + 1));
        }
        sorted.insert(place, row);
        i = i + 1;
    }
    proof {
        assert(rows@.take(i as int) =~= rows@);
        lemma_sorted_is_ordered(rows@);
        lemma_sorted_is_permutation(rows@);
    }
    sorted
}

} // verus!
