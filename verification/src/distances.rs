//! Rows of distances: the stars around one star, each with its distance,
//! and their order nearest first.

use vstd::prelude::*;

verus! {

/// Whether `row` lists its stars nearest first.
pub open spec fn nearest_first(row: Seq<(usize, u32)>) -> bool {
    forall|i: int, j: int| 0 <= i < j < row.len() ==> row[i].1 <= row[j].1
}

/// The row `row` with `entry` behind the last entry that is not farther
/// than it.
pub open spec fn inserted(row: Seq<(usize, u32)>, entry: (usize, u32)) -> Seq<(usize, u32)>
    decreases row.len(),
{
    if row.len() == 0 || row.last().1 <= entry.1 {
        row.push(entry)
    } else {
        inserted(row.drop_last(), entry).push(row.last())
    }
}

/// The entries of `row` nearest first, entries of one distance in the order
/// that they have in `row`.
pub open spec fn sorted(row: Seq<(usize, u32)>) -> Seq<(usize, u32)>
    decreases row.len(),
{
    if row.len() == 0 {
        row
    } else {
        inserted(sorted(row.drop_last()), row.last())
    }
}

/// Inserting into a row that is nearest first gives such a row, with the
/// same entries and the new one.
pub proof fn lemma_inserted(row: Seq<(usize, u32)>, entry: (usize, u32))
    requires
        nearest_first(row),
    ensures
        nearest_first(inserted(row, entry)),
        inserted(row, entry).to_multiset() == row.to_multiset().insert(entry),
        inserted(row, entry).len() == row.len() + 1,
    decreases row.len(),
{
    broadcast use vstd::seq_lib::group_to_multiset_ensures;

    if row.len() == 0 || row.last().1 <= entry.1 {
        let now = row.push(entry);
        assert forall|i: int, j: int| 0 <= i < j < now.len() implies now[i].1 <= now[j].1 by {
            if j == row.len() {
                assert(row[i].1 <= row.last().1);
            }
        }
    } else {
        let front = row.drop_last();
        lemma_inserted(front, entry);
        let mid = inserted(front, entry);
        let now = mid.push(row.last());
        assert(row =~= front.push(row.last()));
        assert forall|i: int, j: int| 0 <= i < j < now.len() implies now[i].1 <= now[j].1 by {
            if j == mid.len() {
                // every entry of `mid` is an entry of `front` or the new one
                assert(mid.to_multiset().count(mid[i]) > 0);
                if mid[i] != entry {
                    assert(front.to_multiset().count(mid[i]) > 0);
                    let at = choose|at: int| 0 <= at < front.len() && front[at] == mid[i];
                    assert(row[at].1 <= row.last().1);
                }
            }
        }
        assert(now.to_multiset() =~= row.to_multiset().insert(entry));
    }
}

/// Sorting gives a row that is nearest first and has the same entries.
pub proof fn lemma_sorted(row: Seq<(usize, u32)>)
    ensures
        nearest_first(sorted(row)),
        sorted(row).to_multiset() == row.to_multiset(),
        sorted(row).len() == row.len(),
    decreases row.len(),
{
    broadcast use vstd::seq_lib::group_to_multiset_ensures;

    if row.len() > 0 {
        lemma_sorted(row.drop_last());
        lemma_inserted(sorted(row.drop_last()), row.last());
        assert(row =~= row.drop_last().push(row.last()));
    }
}

/// Where `inserted` puts an entry: behind position `at - 1` when the entry
/// there is not farther than it and all entries from `at` on are.
pub proof fn lemma_inserted_at(row: Seq<(usize, u32)>, entry: (usize, u32), at: int)
    requires
        0 <= at <= row.len(),
        at > 0 ==> row[at - 1].1 <= entry.1,
        forall|i: int| at <= i < row.len() ==> row[i].1 > entry.1,
    ensures
        inserted(row, entry) == row.insert(at, entry),
    decreases row.len(),
{
    if at == row.len() {
        assert(row.insert(at, entry) =~= row.push(entry));
    } else {
        lemma_inserted_at(row.drop_last(), entry, at);
        assert(row.insert(at, entry) =~= row.drop_last().insert(at, entry).push(row.last()));
    }
}

/// Sorts `row` nearest first; entries of one distance keep their order.
pub fn sort_by_distance(row: &Vec<(usize, u32)>) -> (ordered: Vec<(usize, u32)>)
    ensures
        ordered@ == sorted(row@),
{
    let mut ordered: Vec<(usize, u32)> = Vec::new();
    let mut i: usize = 0;
    assert(row@.take(0) =~= Seq::<(usize, u32)>::empty());
    while i < row.len()
        invariant
            i <= row@.len(),
            ordered@ == sorted(row@.take(i as int)),
        decreases row@.len() - i,
    {
        let entry = row[i];
        let mut at: usize = ordered.len();
        while at > 0 && ordered[at - 1].1 > entry.1
            invariant
                at <= ordered@.len(),
                forall|j: int| at <= j < ordered@.len() ==> ordered@[j].1 > entry.1,
            decreases at,
        {
            at -= 1;
        }
        proof {
            lemma_inserted_at(ordered@, entry, at as int);
            assert(row@.take(i + 1).drop_last() =~= row@.take(i as int));
            assert(row@.take(i + 1).last() == entry);
        }
        ordered.insert(at, entry);
        i += 1;
    }
    assert(row@.take(i as int) =~= row@);
    ordered
}

} // verus!
