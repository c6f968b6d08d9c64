//! Chronological ordering of decoded records.
//!
//! Records are ordered by timestamp alone, and the sort is stable: records
//! with equal timestamps keep their stream order.  The specification is a
//! stable insertion sort, which pins the output down to one sequence; the
//! executable sort is proved equal to it.

use crate::record::Record;
use crate::record::RecordModel;
use vstd::prelude::*;

verus! {

broadcast use vstd::seq_lib::group_to_multiset_ensures;

/// A record sequence that is non-decreasing in timestamp.
pub open spec fn sorted_by_tsc(s: Seq<RecordModel>) -> bool {
    forall|i: int, j: int|
        #![trigger s[i], s[j]]
        0 <= i <= j < s.len() ==> s[i].event.tsc <= s[j].event.tsc
}

/// Inserts a record behind every record whose timestamp is not greater,
/// so that earlier arrivals with the same timestamp stay in front.
pub open spec fn insert_by_tsc(s: Seq<RecordModel>, r: RecordModel) -> Seq<RecordModel>
    decreases s.len(),
{
    if s.len() == 0 {
        seq![r]
    } else if s.last().event.tsc <= r.event.tsc {
        s.push(r)
    } else {
        insert_by_tsc(s.drop_last(), r).push(s.last())
    }
}

/// The stable sort of a record sequence by timestamp: records are inserted
/// in stream order, each behind its equal-timestamp predecessors.
pub open spec fn sort_by_tsc(s: Seq<RecordModel>) -> Seq<RecordModel>
    decreases s.len(),
{
    if s.len() == 0 {
        Seq::empty()
    } else {
        insert_by_tsc(sort_by_tsc(s.drop_last()), s.last())
    }
}

/// Inserting a record adds it and keeps every record already there.
pub proof fn lemma_insert_by_tsc_multiset(s: Seq<RecordModel>, r: RecordModel)
    ensures
        insert_by_tsc(s, r).len() == s.len() + 1,
        insert_by_tsc(s, r).to_multiset() == s.to_multiset().insert(r),
    decreases s.len(),
{
    if s.len() == 0 {
        assert(insert_by_tsc(s, r) =~= Seq::<RecordModel>::empty().push(r));
        assert(s =~= Seq::<RecordModel>::empty());
        assert(insert_by_tsc(s, r).to_multiset() =~= s.to_multiset().insert(r));
    } else if s.last().event.tsc <= r.event.tsc {
    } else {
        let prefix = s.drop_last();
        lemma_insert_by_tsc_multiset(prefix, r);
        let inner = insert_by_tsc(prefix, r);
        assert(s =~= prefix.push(s.last()));
        assert(s.to_multiset() == prefix.to_multiset().insert(s.last()));
        assert(inner.push(s.last()).to_multiset() == inner.to_multiset().insert(s.last()));
        assert(inner.push(s.last()).to_multiset() =~= s.to_multiset().insert(r));
    }
}

/// Inserting into a sorted sequence keeps it sorted.
pub proof fn lemma_insert_by_tsc_sorted(s: Seq<RecordModel>, r: RecordModel)
    requires
        sorted_by_tsc(s),
    ensures
        sorted_by_tsc(insert_by_tsc(s, r)),
    decreases s.len(),
{
    if s.len() == 0 {
    } else if s.last().event.tsc <= r.event.tsc {
    } else {
        let prefix = s.drop_last();
        assert(sorted_by_tsc(prefix)) by {
            assert forall|i: int, j: int|
                0 <= i <= j < prefix.len() implies (#[trigger] prefix[i]).event.tsc
                <= (#[trigger] prefix[j]).event.tsc by {
                assert(s[i].event.tsc <= s[j].event.tsc);
            }
        }
        lemma_insert_by_tsc_sorted(prefix, r);
        lemma_insert_by_tsc_multiset(prefix, r);
        let inner = insert_by_tsc(prefix, r);
        let result = inner.push(s.last());
        assert forall|i: int, j: int|
            0 <= i <= j < result.len() implies (#[trigger] result[i]).event.tsc
            <= (#[trigger] result[j]).event.tsc by {
            if j < inner.len() {
                assert(inner[i].event.tsc <= inner[j].event.tsc);
            } else if i < inner.len() {
                let x = inner[i];
                assert(inner.contains(x));
                assert(inner.to_multiset().count(x) > 0);
                assert(prefix.to_multiset().insert(r).count(x) > 0);
                if x == r {
                    assert(x.event.tsc <= s.last().event.tsc);
                } else {
                    assert(prefix.to_multiset().count(x) > 0);
                    assert(prefix.contains(x));
                    let k = choose|k: int| 0 <= k < prefix.len() && prefix[k] == x;
                    assert(s[k].event.tsc <= s[s.len() - 1].event.tsc);
                }
            }
        }
    }
}

/// Sorting orders the records by timestamp and keeps exactly the same
/// records.
pub proof fn lemma_sort_by_tsc_ensures(s: Seq<RecordModel>)
    ensures
        sorted_by_tsc(sort_by_tsc(s)),
        sort_by_tsc(s).len() == s.len(),
        sort_by_tsc(s).to_multiset() == s.to_multiset(),
    decreases s.len(),
{
    if s.len() == 0 {
        assert(s =~= Seq::<RecordModel>::empty());
        assert(sort_by_tsc(s).to_multiset() =~= s.to_multiset());
    } else {
        let prefix = s.drop_last();
        lemma_sort_by_tsc_ensures(prefix);
        lemma_insert_by_tsc_sorted(sort_by_tsc(prefix), s.last());
        lemma_insert_by_tsc_multiset(sort_by_tsc(prefix), s.last());
        assert(s =~= prefix.push(s.last()));
        assert(sort_by_tsc(s).to_multiset() == prefix.to_multiset().insert(s.last()));
        assert(s.to_multiset() == prefix.to_multiset().insert(s.last()));
    }
}

/// The view of a record vector: its records' models, in order.
pub open spec fn records_view(v: Seq<Record>) -> Seq<RecordModel> {
    v.map_values(|r: Record| r@)
}

/// Inserts one record into a vector sorted by timestamp, behind every
/// record whose timestamp is not greater.
fn insert_record(v: &mut Vec<Record>, r: Record)
    requires
        sorted_by_tsc(records_view(old(v)@)),
    ensures
        records_view(final(v)@) == insert_by_tsc(records_view(old(v)@), r@),
{
    let tsc = r.event.tsc;
    let mut j: usize = v.len();
    proof {
        assert(v@.take(v@.len() as int) =~= v@);
        assert(records_view(v@.skip(v@.len() as int)) =~= Seq::<RecordModel>::empty());
        assert(insert_by_tsc(records_view(v@), r@) + records_view(v@.skip(v@.len() as int))
            =~= insert_by_tsc(records_view(v@), r@));
    }
    while j > 0 && v[j - 1].event.tsc > tsc
        invariant
            j <= v@.len(),
            r@.event.tsc == tsc,
            insert_by_tsc(records_view(v@), r@) == insert_by_tsc(
                records_view(v@.take(j as int)),
                r@,
            ) + records_view(v@.skip(j as int)),
        decreases j,
    {
        proof {
            let taken = records_view(v@.take(j as int));
            assert(taken.len() == j);
            assert(taken.last() == v@[j - 1]@);
            assert(taken.drop_last() =~= records_view(v@.take(j - 1)));
            assert(insert_by_tsc(taken, r@) == insert_by_tsc(
                records_view(v@.take(j - 1)),
                r@,
            ).push(v@[j - 1]@));
            assert(insert_by_tsc(records_view(v@.take(j - 1)), r@).push(v@[j - 1]@)
                + records_view(v@.skip(j as int)) =~= insert_by_tsc(
                records_view(v@.take(j - 1)),
                r@,
            ) + records_view(v@.skip(j - 1)));
        }
        j = j - 1;
    }
    proof {
        let taken = records_view(v@.take(j as int));
        if j > 0 {
            assert(taken.last() == v@[j - 1]@);
            assert(taken.last().event.tsc <= r@.event.tsc);
            assert(insert_by_tsc(taken, r@) == taken.push(r@));
        } else {
            assert(taken =~= Seq::<RecordModel>::empty());
            assert(insert_by_tsc(taken, r@) =~= taken.push(r@));
        }
    }
    let ghost old_view = v@;
    v.insert(j, r);
    proof {
        assert(records_view(v@) =~= records_view(old_view.take(j as int)).push(r@) + records_view(
            old_view.skip(j as int),
        ));
    }
}

/// Sorts the records by timestamp; the stable specification pins the
/// result down exactly, so equal timestamps keep their stream order.
pub fn sort_records(v: Vec<Record>) -> (out: Vec<Record>)
    ensures
        records_view(out@) == sort_by_tsc(records_view(v@)),
        sorted_by_tsc(records_view(out@)),
{
    let ghost orig = v@;
    let mut input = v;
    let mut out: Vec<Record> = Vec::new();
    while input.len() > 0
        invariant
            input@.len() <= orig.len(),
            input@ == orig.skip(orig.len() - input@.len()),
            records_view(out@) == sort_by_tsc(
                records_view(orig.take(orig.len() - input@.len())),
            ),
            sorted_by_tsc(records_view(out@)),
        decreases input@.len(),
    {
        let ghost i = orig.len() - input@.len();
        let r = input.remove(0);
        proof {
            assert(r == orig[i]);
            assert(input@ =~= orig.skip(i + 1));
            assert(records_view(orig.take(i + 1)).drop_last() =~= records_view(orig.take(i)));
            assert(records_view(orig.take(i + 1)).last() == orig[i]@);
        }
        insert_record(&mut out, r);
        proof {
            lemma_insert_by_tsc_sorted(sort_by_tsc(records_view(orig.take(i))), orig[i]@);
        }
    }
    proof {
        assert(orig.take(orig.len() as int) =~= orig);
        assert(orig == v@);
    }
    out
}

} // verus!
