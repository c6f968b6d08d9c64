//! The finished artifact: a decoded trace.
//!
//! A trace owns the decoded records, sorted by timestamp with stream order
//! kept among equal timestamps, and the count of host CPUs that received a
//! domain binding while decoding.

use crate::event::extra_slots_wf;
use crate::order::lemma_sort_by_tsc_ensures;
use crate::order::records_view;
use crate::order::sort_by_tsc;
use crate::order::sort_records;
use crate::order::sorted_by_tsc;
use crate::record::Record;
use crate::record::RecordModel;
use crate::stream::decode_records;
use crate::stream::is_cpu_change;
use crate::stream::lemma_no_cpu_change_records;
use crate::stream::spec_decode;
use vstd::prelude::*;

verus! {

broadcast use vstd::seq_lib::group_to_multiset_ensures;

/// A decoded trace: the records in chronological order, and the number of
/// host CPUs that were bound to a domain during decoding.
pub struct Trace {
    /// The records, sorted by timestamp, stream order kept on ties.
    pub records: Vec<Record>,
    /// The number of distinct CPUs that received a domain binding.
    pub cpu_count: u32,
}

impl View for Trace {
    type V = Seq<RecordModel>;

    open spec fn view(&self) -> Seq<RecordModel> {
        records_view(self.records@)
    }
}

impl Trace {
    /// Decodes a trace from its raw bytes.  Decoding cannot fail: a stream
    /// that ends mid-frame is silently truncated to the frames before it.
    ///
    /// The records are exactly those the decode state machine emits, in
    /// timestamp order with stream order kept on ties, and the CPU count is
    /// the number of CPUs the stream ever bound a domain to.
    pub fn from_bytes(bytes: &Vec<u8>) -> (t: Trace)
        ensures
            t@ == sort_by_tsc(spec_decode(bytes@).records),
            t.cpu_count == spec_decode(bytes@).domains.dom().len(),
            sorted_by_tsc(t@),
            t@.to_multiset() == spec_decode(bytes@).records.to_multiset(),
            t@.len() == spec_decode(bytes@).records.len(),
            forall|k: int| 0 <= k < t@.len() ==> !is_cpu_change((#[trigger] t@[k]).event.code),
            forall|k: int| 0 <= k < t@.len() ==> extra_slots_wf((#[trigger] t@[k]).event.extra),
    {
        let (records, table) = decode_records(bytes);
        let ghost decoded = records@;
        let sorted = sort_records(records);
        let count = table.len();
        proof {
            lemma_sort_by_tsc_ensures(spec_decode(bytes@).records);
            let emitted = spec_decode(bytes@).records;
            let out = records_view(sorted@);
            lemma_no_cpu_change_records(
                bytes@,
                0,
                0,
                0,
                Map::empty(),
                Seq::<RecordModel>::empty(),
            );
            assert forall|k: int|
                0 <= k < out.len() implies !is_cpu_change((#[trigger] out[k]).event.code)
                && extra_slots_wf(out[k].event.extra) by {
                assert(out.contains(out[k]));
                assert(out.to_multiset().count(out[k]) > 0);
                assert(emitted.to_multiset().count(out[k]) > 0);
                assert(emitted.contains(out[k]));
                let j = choose|j: int| 0 <= j < emitted.len() && emitted[j] == out[k];
                assert(!is_cpu_change(emitted[j].event.code));
                assert(decoded[j].wf());
                assert(emitted[j] == decoded[j]@);
            }
        }
        Trace { records: sorted, cpu_count: count as u32 }
    }

    /// Returns the number of records decoded from the trace.
    pub fn record_count(&self) -> (r: usize)
        ensures
            r == self@.len(),
    {
        self.records.len()
    }

    /// Returns the count of CPUs used in the trace: those that received at
    /// least one domain binding during decoding.
    pub fn cpu_count(&self) -> (r: u32)
        ensures
            r == self.cpu_count,
    {
        self.cpu_count
    }

    /// Returns the records, in chronological order.
    pub fn records(&self) -> (r: &Vec<Record>)
        ensures
            r == self.records,
            records_view(r@) == self@,
    {
        &self.records
    }

    /// Returns the record at `index`.
    pub fn get(&self, index: usize) -> (r: &Record)
        requires
            index < self@.len(),
        ensures
            r@ == self@[index as int],
    {
        &self.records[index]
    }
}

} // verus!
