use xentrace_parser::DomainType;
use xentrace_parser::Trace;
use xentrace_parser::TRC_SCHED_TO_RUN;
use xentrace_parser::TRC_TRACE_CPU_CHANGE;

fn push32(bytes: &mut Vec<u8>, value: u32) {
    bytes.extend_from_slice(&value.to_le_bytes());
}

fn push64(bytes: &mut Vec<u8>, value: u64) {
    bytes.extend_from_slice(&value.to_le_bytes());
}

fn header(code: u32, has_tsc: bool, n_extra: u32) -> u32 {
    code | (n_extra << 28) | (if has_tsc { 0x8000_0000 } else { 0 })
}

// An event code outside both reserved families.
const ORDINARY: u32 = 0x0001_0000;

#[test]
fn empty_stream_decodes_to_nothing() {
    let bytes: Vec<u8> = Vec::new();
    let trace = Trace::from_bytes(&bytes);
    assert_eq!(trace.record_count(), 0);
    assert_eq!(trace.cpu_count(), 0);
}

#[test]
fn zero_header_emits_one_record() {
    // Code 0 is a subset of the scheduler-switch-in mask, so the frame
    // binds the domain packed in its (absent, hence 0) first extra word:
    // kind id 0, the zero domain.
    let bytes = vec![0u8, 0, 0, 0];
    let trace = Trace::from_bytes(&bytes);
    assert_eq!(trace.record_count(), 1);
    let r = trace.get(0);
    assert_eq!(r.cpu(), 0);
    assert_eq!(r.event().get_tsc(), 0);
    assert_eq!(r.event().code().value(), 0);
    assert_eq!(r.domain().get_type(), DomainType::Zero);
    assert_eq!(r.domain().get_vcpu(), 0);
    assert_eq!(trace.cpu_count(), 1);
}

#[test]
fn ordinary_frame_gets_inherited_defaults() {
    // An ordinary frame with no timestamp and no extras, before any
    // sentinel: timestamp 0, CPU 0, the default domain.
    let mut bytes = Vec::new();
    push32(&mut bytes, header(ORDINARY, false, 0));
    let trace = Trace::from_bytes(&bytes);
    assert_eq!(trace.record_count(), 1);
    let r = trace.get(0);
    assert_eq!(r.cpu(), 0);
    assert_eq!(r.event().get_tsc(), 0);
    assert_eq!(r.domain().get_type(), DomainType::Default);
    assert_eq!(r.domain().get_vcpu(), 0);
    assert_eq!(trace.cpu_count(), 0);
}

#[test]
fn cpu_change_sets_cpu_and_emits_no_record() {
    let mut bytes = Vec::new();
    push32(&mut bytes, header(TRC_TRACE_CPU_CHANGE, false, 1));
    push32(&mut bytes, 5);
    push32(&mut bytes, header(ORDINARY, false, 0));
    let trace = Trace::from_bytes(&bytes);
    assert_eq!(trace.record_count(), 1);
    let r = trace.get(0);
    assert_eq!(r.cpu(), 5);
    assert_eq!(r.event().code().value(), ORDINARY);
    assert_eq!(trace.cpu_count(), 0);
}

#[test]
fn cpu_change_without_extra_defaults_to_zero() {
    let mut bytes = Vec::new();
    push32(&mut bytes, header(TRC_TRACE_CPU_CHANGE, false, 1));
    push32(&mut bytes, 9);
    push32(&mut bytes, header(TRC_TRACE_CPU_CHANGE, false, 0));
    push32(&mut bytes, header(ORDINARY, false, 0));
    let trace = Trace::from_bytes(&bytes);
    assert_eq!(trace.record_count(), 1);
    assert_eq!(trace.get(0).cpu(), 0);
}

#[test]
fn switch_in_binds_domain_to_cpu() {
    // A scheduler-switch-in carrying kind id 32768 (Default) and vcpu 2,
    // followed by an ordinary frame on the same CPU: both records report
    // that domain.
    let mut bytes = Vec::new();
    push32(&mut bytes, header(TRC_SCHED_TO_RUN, false, 1));
    push32(&mut bytes, 0x8000_0002);
    push32(&mut bytes, header(ORDINARY, false, 0));
    let trace = Trace::from_bytes(&bytes);
    assert_eq!(trace.record_count(), 2);
    for r in trace.records().iter() {
        assert_eq!(r.domain().get_type(), DomainType::Default);
        assert_eq!(r.domain().get_vcpu(), 2);
    }
    assert_eq!(trace.cpu_count(), 1);
}

#[test]
fn explicit_tsc_is_read_and_inherited() {
    let mut bytes = Vec::new();
    push32(&mut bytes, header(ORDINARY, true, 0));
    push64(&mut bytes, 0x1122_3344_5566_7788);
    push32(&mut bytes, header(ORDINARY + 1, false, 0));
    let trace = Trace::from_bytes(&bytes);
    assert_eq!(trace.record_count(), 2);
    assert_eq!(trace.get(0).event().get_tsc(), 0x1122_3344_5566_7788);
    assert_eq!(trace.get(1).event().get_tsc(), 0x1122_3344_5566_7788);
    // Equal timestamps keep stream order.
    assert_eq!(trace.get(0).event().code().value(), ORDINARY);
    assert_eq!(trace.get(1).event().code().value(), ORDINARY + 1);
}

#[test]
fn dropped_frame_still_updates_timestamp() {
    // A CPU-change frame with an explicit timestamp emits no record, but
    // the next record inherits the timestamp it carried.
    let mut bytes = Vec::new();
    push32(&mut bytes, header(TRC_TRACE_CPU_CHANGE, true, 1));
    push64(&mut bytes, 777);
    push32(&mut bytes, 3);
    push32(&mut bytes, header(ORDINARY, false, 0));
    let trace = Trace::from_bytes(&bytes);
    assert_eq!(trace.record_count(), 1);
    assert_eq!(trace.get(0).event().get_tsc(), 777);
    assert_eq!(trace.get(0).cpu(), 3);
}

#[test]
fn records_sorted_by_tsc() {
    let mut bytes = Vec::new();
    push32(&mut bytes, header(ORDINARY, true, 0));
    push64(&mut bytes, 200);
    push32(&mut bytes, header(ORDINARY + 1, true, 0));
    push64(&mut bytes, 100);
    push32(&mut bytes, header(ORDINARY + 2, true, 0));
    push64(&mut bytes, 150);
    let trace = Trace::from_bytes(&bytes);
    assert_eq!(trace.record_count(), 3);
    assert_eq!(trace.get(0).event().get_tsc(), 100);
    assert_eq!(trace.get(1).event().get_tsc(), 150);
    assert_eq!(trace.get(2).event().get_tsc(), 200);
    let mut last: u64 = 0;
    for r in trace.records().iter() {
        assert!(last <= r.event().get_tsc());
        last = r.event().get_tsc();
    }
}

#[test]
fn equal_tsc_keeps_stream_order() {
    let mut bytes = Vec::new();
    push32(&mut bytes, header(ORDINARY + 2, false, 0));
    push32(&mut bytes, header(ORDINARY + 1, false, 0));
    push32(&mut bytes, header(ORDINARY + 3, false, 0));
    let trace = Trace::from_bytes(&bytes);
    assert_eq!(trace.record_count(), 3);
    assert_eq!(trace.get(0).event().code().value(), ORDINARY + 2);
    assert_eq!(trace.get(1).event().code().value(), ORDINARY + 1);
    assert_eq!(trace.get(2).event().code().value(), ORDINARY + 3);
}

#[test]
fn truncated_header_is_dropped() {
    let mut bytes = Vec::new();
    push32(&mut bytes, header(ORDINARY, false, 0));
    bytes.push(0xAB);
    bytes.push(0xCD);
    let trace = Trace::from_bytes(&bytes);
    assert_eq!(trace.record_count(), 1);
    assert_eq!(trace.get(0).event().code().value(), ORDINARY);
}

#[test]
fn truncated_tsc_is_dropped() {
    // The trailing frame announces a timestamp but the stream ends before
    // it: the frame is dropped silently, prior records stay.
    let mut bytes = Vec::new();
    push32(&mut bytes, header(ORDINARY, false, 0));
    push32(&mut bytes, header(ORDINARY + 1, true, 0));
    push32(&mut bytes, 0x1234);
    let trace = Trace::from_bytes(&bytes);
    assert_eq!(trace.record_count(), 1);
    assert_eq!(trace.get(0).event().code().value(), ORDINARY);
}

#[test]
fn truncated_extras_are_dropped() {
    let mut bytes = Vec::new();
    push32(&mut bytes, header(ORDINARY, false, 0));
    push32(&mut bytes, header(ORDINARY + 1, false, 3));
    push32(&mut bytes, 11);
    let trace = Trace::from_bytes(&bytes);
    assert_eq!(trace.record_count(), 1);
    assert_eq!(trace.get(0).event().code().value(), ORDINARY);
}

#[test]
fn extras_are_decoded_in_order() {
    let mut bytes = Vec::new();
    push32(&mut bytes, header(ORDINARY, false, 7));
    for w in 1u32..=7 {
        push32(&mut bytes, w);
    }
    let trace = Trace::from_bytes(&bytes);
    assert_eq!(trace.record_count(), 1);
    let event = trace.get(0).event();
    assert_eq!(event.get_extra_size(), 7);
    assert_eq!(event.get_extra(), vec![1, 2, 3, 4, 5, 6, 7]);
}

#[test]
fn cpu_count_counts_bound_cpus() {
    let mut bytes = Vec::new();
    push32(&mut bytes, header(TRC_SCHED_TO_RUN, false, 1));
    push32(&mut bytes, 0x0001_0000);
    push32(&mut bytes, header(TRC_TRACE_CPU_CHANGE, false, 1));
    push32(&mut bytes, 1);
    push32(&mut bytes, header(TRC_SCHED_TO_RUN, false, 1));
    push32(&mut bytes, 0x0002_0000);
    push32(&mut bytes, header(TRC_TRACE_CPU_CHANGE, false, 1));
    push32(&mut bytes, 2);
    push32(&mut bytes, header(ORDINARY, false, 0));
    let trace = Trace::from_bytes(&bytes);
    // CPUs 0 and 1 received a binding; CPU 2 only carried a plain record.
    assert_eq!(trace.cpu_count(), 2);
    assert_eq!(trace.record_count(), 3);
    assert_eq!(trace.get(2).cpu(), 2);
    assert_eq!(trace.get(2).domain().get_type(), DomainType::Default);
}

#[test]
fn rebinding_replaces_domain() {
    let mut bytes = Vec::new();
    push32(&mut bytes, header(TRC_SCHED_TO_RUN, false, 1));
    push32(&mut bytes, 0x0003_0000);
    push32(&mut bytes, header(TRC_SCHED_TO_RUN, false, 1));
    push32(&mut bytes, 0x0004_0001);
    push32(&mut bytes, header(ORDINARY, false, 0));
    let trace = Trace::from_bytes(&bytes);
    assert_eq!(trace.cpu_count(), 1);
    assert_eq!(trace.record_count(), 3);
    let last = trace.get(2);
    assert_eq!(last.domain().get_type(), DomainType::Guest(4));
    assert_eq!(last.domain().get_vcpu(), 1);
}

#[test]
fn no_cpu_change_record_is_emitted() {
    let mut bytes = Vec::new();
    for cpu in 0u32..4 {
        push32(&mut bytes, header(TRC_TRACE_CPU_CHANGE, false, 1));
        push32(&mut bytes, cpu);
        push32(&mut bytes, header(ORDINARY, false, 0));
    }
    let trace = Trace::from_bytes(&bytes);
    assert_eq!(trace.record_count(), 4);
    for r in trace.records().iter() {
        assert_ne!(r.event().code().value(), TRC_TRACE_CPU_CHANGE);
    }
}
