//! The byte-level frame format and the decode state machine's model.
//!
//! Words are read in the byte order of the producing host; the format is
//! defined here for the little-endian hosts the tracing subsystem runs on.
//! Each frame is a 32-bit header, an optional 64-bit timestamp (present iff
//! header bit 31 is set), and 0 to 7 trailing 32-bit extra words (count in
//! header bits 28-30).  Bits 0-27 of the header are the event code.
//!
//! Two reserved codes are control signals rather than visible events: the
//! CPU-change code switches the current host CPU and emits no record, and
//! the scheduler-switch-in family (a masked-equality test) binds a decoded
//! domain to the current CPU.

use crate::cpumap::DomainTable;
use crate::domain::Domain;
use crate::domain::DomainType;
use crate::event::padded_extra;
use crate::event::Event;
use crate::event::EventModel;
use crate::order::records_view;
use crate::record::Record;
use crate::record::RecordModel;
use vstd::prelude::*;

verus! {

/// The reserved CPU-change event code: a control signal naming the host CPU
/// of all frames that follow, never emitted as a record.
pub const TRC_TRACE_CPU_CHANGE: u32 = 0x0001F003;

/// The mask of the reserved scheduler-switch-in family: a code in the family
/// binds a domain to the current host CPU.
pub const TRC_SCHED_TO_RUN: u32 = 0x00021F0F;

/// The 32-bit word at `pos`, read least-significant byte first.
pub open spec fn word_at(b: Seq<u8>, pos: int) -> u32 {
    (b[pos] as u32) | ((b[pos + 1] as u32) << 8) | ((b[pos + 2] as u32) << 16) | ((b[pos
        + 3] as u32) << 24)
}

/// The 64-bit word at `pos`, read least-significant byte first.
pub open spec fn qword_at(b: Seq<u8>, pos: int) -> u64 {
    (word_at(b, pos) as u64) | ((word_at(b, pos + 4) as u64) << 32)
}

/// The event code packed in a header: its 28 low bits.
pub open spec fn header_code(h: u32) -> u32 {
    h & 0x0FFFFFFF
}

/// Whether a header announces an explicit timestamp (bit 31).
pub open spec fn header_has_tsc(h: u32) -> bool {
    h & 0x80000000 != 0
}

/// The number of trailing extra words a header announces (bits 28-30).
pub open spec fn header_extra_count(h: u32) -> u32 {
    (h >> 28) & 0x7
}

/// The total number of bytes of the frame a header opens.
pub open spec fn frame_len(h: u32) -> int {
    4 + (if header_has_tsc(h) {
        8int
    } else {
        0int
    }) + 4 * header_extra_count(h)
}

/// Whether a code is the reserved CPU-change control code.
pub open spec fn is_cpu_change(code: u32) -> bool {
    code == TRC_TRACE_CPU_CHANGE
}

/// Whether a code belongs to the reserved scheduler-switch-in family: a
/// masked-equality test, the code must be a subset of the family mask's
/// bits.
pub open spec fn is_sched_switch_in(code: u32) -> bool {
    code == (code & TRC_SCHED_TO_RUN)
}

/// The extra words of the frame at `pos`, in stream order.
pub open spec fn extra_words(b: Seq<u8>, pos: int, h: u32) -> Seq<u32> {
    let base = pos + 4 + (if header_has_tsc(h) {
        8int
    } else {
        0int
    });
    Seq::new(header_extra_count(h) as nat, |i: int| word_at(b, base + 4 * i))
}

/// The first extra word, or 0 when the frame carries none.
pub open spec fn first_extra(ws: Seq<u32>) -> u32 {
    if ws.len() > 0 {
        ws[0]
    } else {
        0
    }
}

/// The event model of the frame at `pos`, given the timestamp that governs
/// it.
pub open spec fn frame_event(b: Seq<u8>, pos: int, h: u32, tsc: u64) -> EventModel {
    EventModel { code: header_code(h), tsc, extra: padded_extra(extra_words(b, pos, h)) }
}

/// Everything the decode pass produces: the records in stream order, the
/// domain bound to each host CPU, and the final timestamp and CPU state.
#[verifier::ext_equal]
pub ghost struct DecodeEnd {
    /// The emitted records, in stream order, CPU-change frames excluded.
    pub records: Seq<RecordModel>,
    /// The domain last bound to each host CPU by a scheduler-switch-in.
    pub domains: Map<u16, Domain>,
    /// The timestamp carried by the last frame read, explicit or inherited.
    pub last_tsc: u64,
    /// The host CPU current after the last frame read.
    pub cpu: u16,
}

/// The decode state machine, one frame per step, starting at `pos` with the
/// given running state.  A frame whose bytes are incomplete ends decoding
/// silently; so does the end of the stream.
pub open spec fn decode_from(
    b: Seq<u8>,
    pos: int,
    tsc: u64,
    cpu: u16,
    doms: Map<u16, Domain>,
    acc: Seq<RecordModel>,
) -> DecodeEnd
    decreases b.len() - pos,
{
    if pos < 0 || pos + 4 > b.len() {
        DecodeEnd { records: acc, domains: doms, last_tsc: tsc, cpu }
    } else {
        let h = word_at(b, pos);
        if pos + frame_len(h) > b.len() {
            DecodeEnd { records: acc, domains: doms, last_tsc: tsc, cpu }
        } else {
            let tsc2 = if header_has_tsc(h) {
                qword_at(b, pos + 4)
            } else {
                tsc
            };
            let ws = extra_words(b, pos, h);
            let code = header_code(h);
            let pos2 = pos + frame_len(h);
            if is_cpu_change(code) {
                decode_from(b, pos2, tsc2, first_extra(ws) as u16, doms, acc)
            } else if is_sched_switch_in(code) {
                let d = Domain::spec_from_u32(first_extra(ws));
                decode_from(
                    b,
                    pos2,
                    tsc2,
                    cpu,
                    doms.insert(cpu, d),
                    acc.push(RecordModel { cpu, domain: d, event: frame_event(b, pos, h, tsc2) }),
                )
            } else {
                let d = if doms.dom().contains(cpu) {
                    doms[cpu]
                } else {
                    Domain::spec_default()
                };
                decode_from(
                    b,
                    pos2,
                    tsc2,
                    cpu,
                    doms,
                    acc.push(RecordModel { cpu, domain: d, event: frame_event(b, pos, h, tsc2) }),
                )
            }
        }
    }
}

/// The whole decode pass over a byte stream, from its start with fresh
/// state: timestamp 0, CPU 0, no domain bound anywhere.
pub open spec fn spec_decode(b: Seq<u8>) -> DecodeEnd {
    decode_from(b, 0, 0, 0, Map::empty(), Seq::empty())
}

/// Decoding keeps every record already gathered, in place: the output's
/// records extend the accumulator.
pub proof fn lemma_decode_keeps_acc(
    b: Seq<u8>,
    pos: int,
    tsc: u64,
    cpu: u16,
    doms: Map<u16, Domain>,
    acc: Seq<RecordModel>,
)
    ensures
        decode_from(b, pos, tsc, cpu, doms, acc).records.len() >= acc.len(),
        forall|k: int|
            0 <= k < acc.len() ==> decode_from(b, pos, tsc, cpu, doms, acc).records[k] == acc[k],
    decreases b.len() - pos,
{
    if pos < 0 || pos + 4 > b.len() {
    } else {
        let h = word_at(b, pos);
        if pos + frame_len(h) <= b.len() {
            let tsc2 = if header_has_tsc(h) {
                qword_at(b, pos + 4)
            } else {
                tsc
            };
            let ws = extra_words(b, pos, h);
            let code = header_code(h);
            let pos2 = pos + frame_len(h);
            if is_cpu_change(code) {
                let cpu2 = first_extra(ws) as u16;
                assert(decode_from(b, pos, tsc, cpu, doms, acc) == decode_from(
                    b,
                    pos2,
                    tsc2,
                    cpu2,
                    doms,
                    acc,
                ));
                lemma_decode_keeps_acc(b, pos2, tsc2, cpu2, doms, acc);
            } else if is_sched_switch_in(code) {
                let d = Domain::spec_from_u32(first_extra(ws));
                let acc2 = acc.push(
                    RecordModel { cpu, domain: d, event: frame_event(b, pos, h, tsc2) },
                );
                assert(decode_from(b, pos, tsc, cpu, doms, acc) == decode_from(
                    b,
                    pos2,
                    tsc2,
                    cpu,
                    doms.insert(cpu, d),
                    acc2,
                ));
                lemma_decode_keeps_acc(b, pos2, tsc2, cpu, doms.insert(cpu, d), acc2);
                assert forall|k: int|
                    0 <= k < acc.len() implies decode_from(b, pos, tsc, cpu, doms, acc).records[k]
                    == acc[k] by {
                    assert(decode_from(b, pos2, tsc2, cpu, doms.insert(cpu, d), acc2).records[k]
                        == acc2[k]);
                }
            } else {
                let d = if doms.dom().contains(cpu) {
                    doms[cpu]
                } else {
                    Domain::spec_default()
                };
                let acc2 = acc.push(
                    RecordModel { cpu, domain: d, event: frame_event(b, pos, h, tsc2) },
                );
                assert(decode_from(b, pos, tsc, cpu, doms, acc) == decode_from(
                    b,
                    pos2,
                    tsc2,
                    cpu,
                    doms,
                    acc2,
                ));
                lemma_decode_keeps_acc(b, pos2, tsc2, cpu, doms, acc2);
                assert forall|k: int|
                    0 <= k < acc.len() implies decode_from(b, pos, tsc, cpu, doms, acc).records[k]
                    == acc[k] by {
                    assert(decode_from(b, pos2, tsc2, cpu, doms, acc2).records[k] == acc2[k]);
                }
            }
        }
    }
}

/// CPU-change frames are control signals: no record the decoder emits ever
/// carries the CPU-change code.
pub proof fn lemma_no_cpu_change_records(
    b: Seq<u8>,
    pos: int,
    tsc: u64,
    cpu: u16,
    doms: Map<u16, Domain>,
    acc: Seq<RecordModel>,
)
    requires
        forall|k: int| 0 <= k < acc.len() ==> !is_cpu_change((#[trigger] acc[k]).event.code),
    ensures
        forall|k: int|
            0 <= k < decode_from(b, pos, tsc, cpu, doms, acc).records.len() ==> !is_cpu_change(
                (#[trigger] decode_from(b, pos, tsc, cpu, doms, acc).records[k]).event.code,
            ),
    decreases b.len() - pos,
{
    if pos < 0 || pos + 4 > b.len() {
    } else {
        let h = word_at(b, pos);
        if pos + frame_len(h) <= b.len() {
            let tsc2 = if header_has_tsc(h) {
                qword_at(b, pos + 4)
            } else {
                tsc
            };
            let ws = extra_words(b, pos, h);
            let code = header_code(h);
            let pos2 = pos + frame_len(h);
            if is_cpu_change(code) {
                lemma_no_cpu_change_records(b, pos2, tsc2, first_extra(ws) as u16, doms, acc);
            } else if is_sched_switch_in(code) {
                let d = Domain::spec_from_u32(first_extra(ws));
                let acc2 = acc.push(
                    RecordModel { cpu, domain: d, event: frame_event(b, pos, h, tsc2) },
                );
                assert(forall|k: int|
                    0 <= k < acc2.len() ==> !is_cpu_change((#[trigger] acc2[k]).event.code));
                lemma_no_cpu_change_records(b, pos2, tsc2, cpu, doms.insert(cpu, d), acc2);
            } else {
                let d = if doms.dom().contains(cpu) {
                    doms[cpu]
                } else {
                    Domain::spec_default()
                };
                let acc2 = acc.push(
                    RecordModel { cpu, domain: d, event: frame_event(b, pos, h, tsc2) },
                );
                assert(forall|k: int|
                    0 <= k < acc2.len() ==> !is_cpu_change((#[trigger] acc2[k]).event.code));
                lemma_no_cpu_change_records(b, pos2, tsc2, cpu, doms, acc2);
            }
        }
    }
}

/// A CPU-change frame emits no record: it only switches the current host
/// CPU to its first extra word (0 when it carries none), and decoding goes
/// on with the records gathered so far.  Together with
/// [`lemma_emitted_record_cpu`], which gives each emitted record the
/// current CPU, this pins the CPU id of every record that follows a change.
pub proof fn lemma_cpu_change_step(
    b: Seq<u8>,
    pos: int,
    tsc: u64,
    cpu: u16,
    doms: Map<u16, Domain>,
    acc: Seq<RecordModel>,
)
    requires
        0 <= pos,
        pos + 4 <= b.len(),
        pos + frame_len(word_at(b, pos)) <= b.len(),
        is_cpu_change(header_code(word_at(b, pos))),
    ensures
        decode_from(b, pos, tsc, cpu, doms, acc) == decode_from(
            b,
            pos + frame_len(word_at(b, pos)),
            if header_has_tsc(word_at(b, pos)) {
                qword_at(b, pos + 4)
            } else {
                tsc
            },
            first_extra(extra_words(b, pos, word_at(b, pos))) as u16,
            doms,
            acc,
        ),
{
}

/// Every frame that is not a CPU change emits exactly one record, and that
/// record carries the host CPU current when the frame was decoded.
pub proof fn lemma_emitted_record_cpu(
    b: Seq<u8>,
    pos: int,
    tsc: u64,
    cpu: u16,
    doms: Map<u16, Domain>,
    acc: Seq<RecordModel>,
)
    requires
        0 <= pos,
        pos + 4 <= b.len(),
        pos + frame_len(word_at(b, pos)) <= b.len(),
        !is_cpu_change(header_code(word_at(b, pos))),
    ensures
        decode_from(b, pos, tsc, cpu, doms, acc).records.len() > acc.len(),
        decode_from(b, pos, tsc, cpu, doms, acc).records[acc.len() as int].cpu == cpu,
{
    let h = word_at(b, pos);
    let tsc2 = if header_has_tsc(h) {
        qword_at(b, pos + 4)
    } else {
        tsc
    };
    let ws = extra_words(b, pos, h);
    let pos2 = pos + frame_len(h);
    if is_sched_switch_in(header_code(h)) {
        let d = Domain::spec_from_u32(first_extra(ws));
        let acc2 = acc.push(RecordModel { cpu, domain: d, event: frame_event(b, pos, h, tsc2) });
        assert(decode_from(b, pos, tsc, cpu, doms, acc) == decode_from(
            b,
            pos2,
            tsc2,
            cpu,
            doms.insert(cpu, d),
            acc2,
        ));
        lemma_decode_keeps_acc(b, pos2, tsc2, cpu, doms.insert(cpu, d), acc2);
        assert(decode_from(b, pos2, tsc2, cpu, doms.insert(cpu, d), acc2).records[acc.len() as int]
            == acc2[acc.len() as int]);
    } else {
        let d = if doms.dom().contains(cpu) {
            doms[cpu]
        } else {
            Domain::spec_default()
        };
        let acc2 = acc.push(RecordModel { cpu, domain: d, event: frame_event(b, pos, h, tsc2) });
        assert(decode_from(b, pos, tsc, cpu, doms, acc) == decode_from(
            b,
            pos2,
            tsc2,
            cpu,
            doms,
            acc2,
        ));
        lemma_decode_keeps_acc(b, pos2, tsc2, cpu, doms, acc2);
        assert(decode_from(b, pos2, tsc2, cpu, doms, acc2).records[acc.len() as int]
            == acc2[acc.len() as int]);
    }
}

/// Timestamp inheritance: the record emitted by a frame whose header has
/// the TSC flag clear carries the running timestamp unchanged — the value
/// set by the nearest preceding frame, emitted or dropped, that carried or
/// inherited one.
pub proof fn lemma_tsc_inheritance(
    b: Seq<u8>,
    pos: int,
    tsc: u64,
    cpu: u16,
    doms: Map<u16, Domain>,
    acc: Seq<RecordModel>,
)
    requires
        0 <= pos,
        pos + 4 <= b.len(),
        pos + frame_len(word_at(b, pos)) <= b.len(),
        !header_has_tsc(word_at(b, pos)),
        !is_cpu_change(header_code(word_at(b, pos))),
    ensures
        decode_from(b, pos, tsc, cpu, doms, acc).records.len() > acc.len(),
        decode_from(b, pos, tsc, cpu, doms, acc).records[acc.len() as int].event.tsc == tsc,
{
    let h = word_at(b, pos);
    let ws = extra_words(b, pos, h);
    let pos2 = pos + frame_len(h);
    if is_sched_switch_in(header_code(h)) {
        let d = Domain::spec_from_u32(first_extra(ws));
        let acc2 = acc.push(RecordModel { cpu, domain: d, event: frame_event(b, pos, h, tsc) });
        assert(decode_from(b, pos, tsc, cpu, doms, acc) == decode_from(
            b,
            pos2,
            tsc,
            cpu,
            doms.insert(cpu, d),
            acc2,
        ));
        lemma_decode_keeps_acc(b, pos2, tsc, cpu, doms.insert(cpu, d), acc2);
        assert(decode_from(b, pos2, tsc, cpu, doms.insert(cpu, d), acc2).records[acc.len() as int]
            == acc2[acc.len() as int]);
    } else {
        let d = if doms.dom().contains(cpu) {
            doms[cpu]
        } else {
            Domain::spec_default()
        };
        let acc2 = acc.push(RecordModel { cpu, domain: d, event: frame_event(b, pos, h, tsc) });
        assert(decode_from(b, pos, tsc, cpu, doms, acc) == decode_from(
            b,
            pos2,
            tsc,
            cpu,
            doms,
            acc2,
        ));
        lemma_decode_keeps_acc(b, pos2, tsc, cpu, doms, acc2);
        assert(decode_from(b, pos2, tsc, cpu, doms, acc2).records[acc.len() as int]
            == acc2[acc.len() as int]);
    }
}

/// Truncation: when the stream ends at a frame boundary, or before the
/// frame opened at `pos` is complete, decoding ends silently with exactly
/// the records gathered so far — never with an error.
pub proof fn lemma_truncation(
    b: Seq<u8>,
    pos: int,
    tsc: u64,
    cpu: u16,
    doms: Map<u16, Domain>,
    acc: Seq<RecordModel>,
)
    requires
        0 <= pos,
        pos + 4 > b.len() || pos + frame_len(word_at(b, pos)) > b.len(),
    ensures
        decode_from(b, pos, tsc, cpu, doms, acc) == (DecodeEnd {
            records: acc,
            domains: doms,
            last_tsc: tsc,
            cpu,
        }),
{
}

/// Reads the 32-bit word at `pos`, least-significant byte first.
fn read_word(b: &Vec<u8>, pos: usize) -> (r: u32)
    requires
        pos + 4 <= b@.len(),
    ensures
        r == word_at(b@, pos as int),
{
    let n = b.len();
    assert(pos + 4 <= n);
    (b[pos] as u32) | ((b[pos + 1] as u32) << 8u32) | ((b[pos + 2] as u32) << 16u32) | ((b[pos
        + 3] as u32) << 24u32)
}

/// Reads the 64-bit word at `pos`, least-significant byte first.
fn read_qword(b: &Vec<u8>, pos: usize) -> (r: u64)
    requires
        pos + 8 <= b@.len(),
    ensures
        r == qword_at(b@, pos as int),
{
    let n = b.len();
    assert(pos + 8 <= n);
    (read_word(b, pos) as u64) | ((read_word(b, pos + 4) as u64) << 32u64)
}

/// Decodes a byte stream frame by frame: the records in stream order
/// (CPU-change frames omitted) and the final per-CPU domain table, exactly
/// as the decode state machine describes them.
pub fn decode_records(b: &Vec<u8>) -> (out: (Vec<Record>, DomainTable))
    ensures
        records_view(out.0@) == spec_decode(b@).records,
        out.1@ == spec_decode(b@).domains,
        out.1.wf(),
        forall|k: int| 0 <= k < out.0@.len() ==> (#[trigger] out.0@[k]).wf(),
{
    let blen = b.len();
    let mut pos: usize = 0;
    let mut last_tsc: u64 = 0;
    let mut cpu: u16 = 0;
    let mut table = DomainTable::new();
    let mut records: Vec<Record> = Vec::new();
    proof {
        assert(records_view(records@) =~= Seq::<RecordModel>::empty());
    }
    loop
        invariant
            blen == b@.len(),
            pos <= b@.len(),
            table.wf(),
            forall|k: int| 0 <= k < records@.len() ==> (#[trigger] records@[k]).wf(),
            spec_decode(b@) == decode_from(
                b@,
                pos as int,
                last_tsc,
                cpu,
                table@,
                records_view(records@),
            ),
        ensures
            table.wf(),
            forall|k: int| 0 <= k < records@.len() ==> (#[trigger] records@[k]).wf(),
            spec_decode(b@).records == records_view(records@),
            spec_decode(b@).domains == table@,
        decreases b@.len() - pos,
    {
        let ghost pos0 = pos as int;
        let ghost tsc0 = last_tsc;
        let ghost cpu0 = cpu;
        let ghost doms0 = table@;
        let ghost recs0 = records_view(records@);
        if b.len() - pos < 4 {
            proof {
                assert(pos0 + 4 > b@.len());
            }
            break ;
        }
        let h = read_word(b, pos);
        let has_tsc = h & 0x80000000 != 0;
        let cnt_word = (h >> 28u32) & 0x7;
        proof {
            assert(((h >> 28u32) & 0x7) <= 7) by (bit_vector);
        }
        let cnt = cnt_word as usize;
        let flen: usize = 4 + (if has_tsc {
            8
        } else {
            0
        }) + 4 * cnt;
        proof {
            assert(flen as int == frame_len(h));
        }
        if b.len() - pos < flen {
            proof {
                assert(pos0 + frame_len(h) > b@.len());
            }
            break ;
        }
        if has_tsc {
            last_tsc = read_qword(b, pos + 4);
        }
        let ghost tsc2 = last_tsc;
        proof {
            assert(tsc2 == (if header_has_tsc(h) {
                qword_at(b@, pos0 + 4)
            } else {
                tsc0
            }));
        }
        let ebase: usize = pos + 4 + (if has_tsc {
            8
        } else {
            0
        });
        let mut ws: Vec<u32> = Vec::new();
        let mut i: usize = 0;
        while i < cnt
            invariant
                i <= cnt,
                cnt <= 7,
                ws@.len() == i,
                ebase + 4 * cnt <= b@.len(),
                b@.len() <= usize::MAX,
                forall|k: int| 0 <= k < i ==> ws@[k] == word_at(b@, ebase as int + 4 * k),
            decreases cnt - i,
        {
            let w = read_word(b, ebase + 4 * i);
            ws.push(w);
            i = i + 1;
        }
        proof {
            assert(ws@ =~= extra_words(b@, pos0, h));
        }
        let code = h & 0x0FFFFFFF;
        let x0: u32 = if ws.len() > 0 {
            ws[0]
        } else {
            0
        };
        proof {
            assert(x0 == first_extra(extra_words(b@, pos0, h)));
        }
        if code == TRC_TRACE_CPU_CHANGE {
            cpu = #[verifier::truncate] (x0 as u16);
        } else if code == (code & TRC_SCHED_TO_RUN) {
            let d = Domain::from_u32(x0);
            table.insert(cpu, d);
            let ev = Event::new(code, last_tsc, ws);
            proof {
                assert(ev@ =~= frame_event(b@, pos0, h, tsc2));
            }
            records.push(Record { cpu, domain: d, event: ev });
            proof {
                assert(records_view(records@) =~= recs0.push(
                    RecordModel { cpu: cpu0, domain: d, event: frame_event(b@, pos0, h, tsc2) },
                ));
            }
        } else {
            let d = match table.get(cpu) {
                Some(d) => d,
                None => Domain::new(DomainType::Default, 0),
            };
            let ev = Event::new(code, last_tsc, ws);
            proof {
                assert(ev@ =~= frame_event(b@, pos0, h, tsc2));
            }
            records.push(Record { cpu, domain: d, event: ev });
            proof {
                assert(records_view(records@) =~= recs0.push(
                    RecordModel { cpu: cpu0, domain: d, event: frame_event(b@, pos0, h, tsc2) },
                ));
            }
        }
        pos = pos + flen;
        proof {
            assert(decode_from(b@, pos0, tsc0, cpu0, doms0, recs0) == decode_from(
                b@,
                pos as int,
                last_tsc,
                cpu,
                table@,
                records_view(records@),
            ));
        }
    }
    (records, table)
}

} // verus!
