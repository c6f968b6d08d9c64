//! The per-CPU domain table: which domain was last bound to each host CPU.
//!
//! A small association list with distinct keys, viewed as a map from CPU id
//! to domain.  The number of entries is the number of CPUs that ever
//! received a binding, which is what the trace's CPU count reports.

use crate::domain::Domain;
use vstd::prelude::*;
use vstd::set_lib::lemma_int_range;
use vstd::set_lib::lemma_len_subset;
use vstd::set_lib::set_int_range;

verus! {

/// The map described by an association list, later entries overriding
/// earlier ones.
pub open spec fn map_of(entries: Seq<(u16, Domain)>) -> Map<u16, Domain>
    decreases entries.len(),
{
    if entries.len() == 0 {
        Map::empty()
    } else {
        map_of(entries.drop_last()).insert(entries.last().0, entries.last().1)
    }
}

/// No CPU id appears in two entries.
pub open spec fn distinct_keys(entries: Seq<(u16, Domain)>) -> bool {
    forall|i: int, j: int|
        #![trigger entries[i], entries[j]]
        0 <= i < j < entries.len() ==> entries[i].0 != entries[j].0
}

/// A key is in the map exactly when some entry carries it.
pub proof fn lemma_map_of_contains(entries: Seq<(u16, Domain)>, cpu: u16)
    ensures
        map_of(entries).dom().contains(cpu) <==> (exists|i: int|
            0 <= i < entries.len() && (#[trigger] entries[i]).0 == cpu),
    decreases entries.len(),
{
    if entries.len() > 0 {
        let prefix = entries.drop_last();
        lemma_map_of_contains(prefix, cpu);
        if map_of(entries).dom().contains(cpu) {
            if cpu == entries.last().0 {
                assert(entries[entries.len() - 1].0 == cpu);
            } else {
                let i = choose|i: int| 0 <= i < prefix.len() && (#[trigger] prefix[i]).0 == cpu;
                assert(entries[i].0 == cpu);
            }
        }
        if exists|i: int| 0 <= i < entries.len() && (#[trigger] entries[i]).0 == cpu {
            let i = choose|i: int| 0 <= i < entries.len() && (#[trigger] entries[i]).0 == cpu;
            if i < entries.len() - 1 {
                assert(prefix[i].0 == cpu);
            }
        }
    }
}

/// The map of a finite association list has a finite domain.
pub proof fn lemma_map_of_finite(entries: Seq<(u16, Domain)>)
    ensures
        map_of(entries).dom().finite(),
    decreases entries.len(),
{
    if entries.len() > 0 {
        lemma_map_of_finite(entries.drop_last());
    }
}

/// With distinct keys, the map has exactly one member per entry.
pub proof fn lemma_map_of_len(entries: Seq<(u16, Domain)>)
    requires
        distinct_keys(entries),
    ensures
        map_of(entries).dom().finite(),
        map_of(entries).dom().len() == entries.len(),
    decreases entries.len(),
{
    lemma_map_of_finite(entries);
    if entries.len() > 0 {
        let prefix = entries.drop_last();
        lemma_map_of_len(prefix);
        let last_key = entries.last().0;
        assert(!map_of(prefix).dom().contains(last_key)) by {
            lemma_map_of_contains(prefix, last_key);
            if exists|i: int| 0 <= i < prefix.len() && (#[trigger] prefix[i]).0 == last_key {
                let i = choose|i: int| 0 <= i < prefix.len() && (#[trigger] prefix[i]).0 == last_key;
                assert(entries[i].0 == last_key);
                assert(entries[entries.len() - 1].0 == last_key);
            }
        }
    }
}

/// An entry with a key that is distinct from all others gives the map's
/// value at that key.
pub proof fn lemma_map_of_index(entries: Seq<(u16, Domain)>, i: int)
    requires
        distinct_keys(entries),
        0 <= i < entries.len(),
    ensures
        map_of(entries).dom().contains(entries[i].0),
        map_of(entries)[entries[i].0] == entries[i].1,
    decreases entries.len(),
{
    if i < entries.len() - 1 {
        let prefix = entries.drop_last();
        assert(prefix[i] == entries[i]);
        lemma_map_of_index(prefix, i);
        assert(entries[entries.len() - 1].0 != entries[i].0);
    }
}

/// Overwriting the entry that carries a key updates the map at that key
/// alone.
proof fn lemma_map_of_update(entries: Seq<(u16, Domain)>, i: int, cpu: u16, domain: Domain)
    requires
        distinct_keys(entries),
        0 <= i < entries.len(),
        entries[i].0 == cpu,
    ensures
        map_of(entries.update(i, (cpu, domain))) == map_of(entries).insert(cpu, domain),
    decreases entries.len(),
{
    let updated = entries.update(i, (cpu, domain));
    if i == entries.len() - 1 {
        assert(updated.drop_last() =~= entries.drop_last());
        assert(map_of(updated) =~= map_of(entries).insert(cpu, domain));
    } else {
        let prefix = entries.drop_last();
        assert(prefix[i] == entries[i]);
        lemma_map_of_update(prefix, i, cpu, domain);
        assert(updated.drop_last() =~= prefix.update(i, (cpu, domain)));
        assert(updated.last() == entries.last());
        assert(entries.last().0 != cpu) by {
            assert(entries[entries.len() - 1].0 != entries[i].0);
        }
        assert(map_of(updated) =~= map_of(entries).insert(cpu, domain));
    }
}

/// There are at most 65536 distinct 16-bit keys.
pub proof fn lemma_distinct_key_bound(entries: Seq<(u16, Domain)>)
    requires
        distinct_keys(entries),
    ensures
        entries.len() <= 65536,
{
    let ints = Seq::new(entries.len(), |i: int| entries[i].0 as int);
    assert(ints.no_duplicates()) by {
        assert forall|i: int, j: int|
            0 <= i < ints.len() && 0 <= j < ints.len() && i != j implies ints[i] != ints[j] by {
            assert(entries[i].0 != entries[j].0);
        }
    }
    ints.unique_seq_to_set();
    let range = set_int_range(0, 65536);
    lemma_int_range(0, 65536);
    assert(ints.to_set().subset_of(range)) by {
        assert forall|x: int| ints.to_set().contains(x) implies range.contains(x) by {
            let i = choose|i: int| 0 <= i < ints.len() && ints[i] == x;
            assert(0 <= entries[i].0 < 65536);
        }
    }
    lemma_len_subset(ints.to_set(), range);
}

/// Maps each host CPU to the domain last bound to it.
pub struct DomainTable {
    /// The bindings, one entry per CPU, keys distinct.
    pub entries: Vec<(u16, Domain)>,
}

impl View for DomainTable {
    type V = Map<u16, Domain>;

    open spec fn view(&self) -> Map<u16, Domain> {
        map_of(self.entries@)
    }
}

impl DomainTable {
    /// Well-formedness: no CPU appears in two entries.
    pub open spec fn wf(self) -> bool {
        distinct_keys(self.entries@)
    }

    /// Builds an empty table: no CPU has a binding yet.
    pub fn new() -> (t: DomainTable)
        ensures
            t.wf(),
            t@ == Map::<u16, Domain>::empty(),
            t.entries@.len() == 0,
    {
        DomainTable { entries: Vec::new() }
    }

    /// Returns the domain bound to `cpu`, if any.
    pub fn get(&self, cpu: u16) -> (r: Option<Domain>)
        requires
            self.wf(),
        ensures
            r == (if self@.dom().contains(cpu) {
                Some(self@[cpu])
            } else {
                None::<Domain>
            }),
    {
        let n = self.entries.len();
        let mut i: usize = 0;
        while i < n
            invariant
                n == self.entries@.len(),
                i <= n,
                self.wf(),
                forall|k: int| 0 <= k < i ==> (#[trigger] self.entries@[k]).0 != cpu,
            decreases n - i,
        {
            if self.entries[i].0 == cpu {
                proof {
                    lemma_map_of_index(self.entries@, i as int);
                }
                return Some(self.entries[i].1);
            }
            i = i + 1;
        }
        proof {
            lemma_map_of_contains(self.entries@, cpu);
        }
        None
    }

    /// Binds `domain` to `cpu`, replacing any earlier binding.
    pub fn insert(&mut self, cpu: u16, domain: Domain)
        requires
            old(self).wf(),
        ensures
            final(self).wf(),
            final(self)@ == old(self)@.insert(cpu, domain),
            final(self).entries@.len() == final(self)@.dom().len(),
    {
        let n = self.entries.len();
        let mut i: usize = 0;
        while i < n
            invariant
                n == self.entries@.len(),
                i <= n,
                self == old(self),
                self.wf(),
                forall|k: int| 0 <= k < i ==> (#[trigger] self.entries@[k]).0 != cpu,
            decreases n - i,
        {
            if self.entries[i].0 == cpu {
                let ghost before = self.entries@;
                self.entries.set(i, (cpu, domain));
                proof {
                    lemma_map_of_update(before, i as int, cpu, domain);
                    assert(distinct_keys(self.entries@)) by {
                        assert forall|a: int, b: int|
                            0 <= a < b < self.entries@.len() implies (#[trigger] self.entries@[a]).0
                            != (#[trigger] self.entries@[b]).0 by {
                            assert(before[a].0 != before[b].0);
                        }
                    }
                    lemma_map_of_len(self.entries@);
                }
                return ;
            }
            i = i + 1;
        }
        let ghost before = self.entries@;
        self.entries.push((cpu, domain));
        proof {
            assert(self.entries@.drop_last() =~= before);
            assert(distinct_keys(self.entries@)) by {
                assert forall|a: int, b: int|
                    0 <= a < b < self.entries@.len() implies (#[trigger] self.entries@[a]).0
                    != (#[trigger] self.entries@[b]).0 by {
                    if b < before.len() {
                        assert(before[a].0 != before[b].0);
                    } else {
                        assert(before[a].0 != cpu);
                    }
                }
            }
            lemma_map_of_len(self.entries@);
        }
    }

    /// Returns the number of CPUs that have a binding.
    pub fn len(&self) -> (r: usize)
        requires
            self.wf(),
        ensures
            r == self@.dom().len(),
            r <= 65536,
    {
        proof {
            lemma_map_of_len(self.entries@);
            lemma_distinct_key_bound(self.entries@);
        }
        self.entries.len()
    }
}

} // verus!
