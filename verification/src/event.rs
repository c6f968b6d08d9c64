//! Events: one decoded frame of the trace stream.
//!
//! An event carries its 28-bit code, a cycle-counter timestamp (explicit in
//! the frame or inherited from the most recent timestamped frame), and up to
//! seven optional 32-bit extra words.  Unused extra slots are absent, not
//! zero.

use vstd::prelude::*;

verus! {

/// Number of extra-word slots in an event; a frame carries 0 to 7 of them.
pub const EVENT_EXTRA_MAXLEN: usize = 7;

/// Alternate name for [`EVENT_EXTRA_MAXLEN`], kept for callers that use it.
pub const EVENT_EXTRA_CAPACITY: usize = 7;

/// An event code: an opaque 32-bit value with three derived read-only
/// views, `main` (bits 16-27), `sub` (bits 12-15) and `minor` (bits 0-11).
#[derive(Clone, Copy, Debug, PartialEq, Eq, Structural)]
pub struct EventCode {
    /// The raw 32-bit code.
    pub raw: u32,
}

impl EventCode {
    /// The event class (bits 16-27 of the raw code).
    pub open spec fn spec_main(self) -> u32 {
        (self.raw >> 16) & 0x0FFF
    }

    /// The event subclass (bits 12-15 of the raw code).
    pub open spec fn spec_sub(self) -> u32 {
        (self.raw >> 12) & 0x000F
    }

    /// The event minor number (bits 0-11 of the raw code).
    pub open spec fn spec_minor(self) -> u32 {
        self.raw & 0x0FFF
    }

    /// Wraps a raw 32-bit code.
    pub fn from_u32(code: u32) -> (r: EventCode)
        ensures
            r.raw == code,
    {
        EventCode { raw: code }
    }

    /// Returns the raw 32-bit code.
    pub fn into_u32(&self) -> (r: u32)
        ensures
            r == self.raw,
    {
        self.raw
    }

    /// Returns the raw 32-bit code.
    pub fn value(&self) -> (r: u32)
        ensures
            r == self.raw,
    {
        self.raw
    }

    /// Returns the event class; can be used to filter events.
    pub fn main(&self) -> (r: u32)
        ensures
            r == self.spec_main(),
    {
        (self.raw >> 16) & 0x0FFF
    }

    /// Returns the event subclass; can also be used to filter events.
    pub fn sub(&self) -> (r: u32)
        ensures
            r == self.spec_sub(),
    {
        (self.raw >> 12) & 0x000F
    }

    /// Returns the event minor number, identifying the event within its
    /// class and subclass.
    pub fn minor(&self) -> (r: u32)
        ensures
            r == self.spec_minor(),
    {
        self.raw & 0x0FFF
    }

    /// Returns the event class as a 16-bit value.
    pub fn get_main(&self) -> (r: u16)
        ensures
            r == self.spec_main() as u16,
    {
        ((self.raw >> 16) & 0x0FFF) as u16
    }

    /// Returns the event subclass as an 8-bit value.
    pub fn get_sub(&self) -> (r: u8)
        ensures
            r == self.spec_sub() as u8,
    {
        ((self.raw >> 12) & 0x000F) as u8
    }

    /// Returns the event minor number as a 16-bit value.
    pub fn get_minor(&self) -> (r: u16)
        ensures
            r == self.spec_minor() as u16,
    {
        (self.raw & 0x0FFF) as u16
    }
}

impl From<u32> for EventCode {
    /// Wraps a raw 32-bit code, as [`EventCode::from_u32`].
    fn from(code: u32) -> (r: EventCode) {
        EventCode { raw: code }
    }
}

impl vstd::std_specs::convert::FromSpecImpl<u32> for EventCode {
    open spec fn obeys_from_spec() -> bool {
        true
    }

    open spec fn from_spec(code: u32) -> EventCode {
        EventCode { raw: code }
    }
}

impl From<EventCode> for u32 {
    /// The raw 32-bit code, as [`EventCode::into_u32`].
    fn from(code: EventCode) -> (r: u32) {
        code.raw
    }
}

impl vstd::std_specs::convert::FromSpecImpl<EventCode> for u32 {
    open spec fn obeys_from_spec() -> bool {
        true
    }

    open spec fn from_spec(code: EventCode) -> u32 {
        code.raw
    }
}

/// The derived views are consequences of the raw value, never independent
/// state: reassembling class, subclass and minor gives back bits 0-27 of the
/// raw code, and wrapping a raw value is the identity on it.
pub proof fn lemma_event_code_round_trip(code: u32)
    ensures
        (EventCode { raw: code }).raw == code,
        ((EventCode { raw: code }).spec_main() << 16) | ((EventCode {
            raw: code,
        }).spec_sub() << 12) | (EventCode { raw: code }).spec_minor() == code & 0x0FFFFFFF,
{
    assert((((code >> 16) & 0x0FFF) << 16) | (((code >> 12) & 0x000F) << 12) | (code & 0x0FFF)
        == code & 0x0FFFFFFF) by (bit_vector);
}

/// The mathematical model of an event: raw code, timestamp, and the seven
/// optional extra slots.
#[verifier::ext_equal]
pub ghost struct EventModel {
    /// The raw 32-bit event code.
    pub code: u32,
    /// The cycle-counter timestamp, explicit or inherited.
    pub tsc: u64,
    /// The seven extra slots; unused slots are `None`.
    pub extra: Seq<Option<u32>>,
}

/// The seven extra slots holding the words of `ws` in order, the remaining
/// slots absent.
pub open spec fn padded_extra(ws: Seq<u32>) -> Seq<Option<u32>> {
    Seq::new(
        EVENT_EXTRA_MAXLEN as nat,
        |i: int| if i < ws.len() { Some(ws[i]) } else { None },
    )
}

/// Well-formed extra slots: exactly seven of them, the present ones forming
/// a prefix — unused slots are absent, not zero.
pub open spec fn extra_slots_wf(slots: Seq<Option<u32>>) -> bool {
    &&& slots.len() == EVENT_EXTRA_MAXLEN
    &&& forall|i: int, j: int|
        #![trigger slots[i], slots[j]]
        0 <= i <= j < slots.len() && slots[j] is Some ==> slots[i] is Some
}

/// The present extra words, in slot order.
pub open spec fn present_extra(slots: Seq<Option<u32>>) -> Seq<u32>
    decreases slots.len(),
{
    if slots.len() == 0 {
        Seq::empty()
    } else {
        let rest = present_extra(slots.drop_last());
        match slots.last() {
            Some(w) => rest.push(w),
            None => rest,
        }
    }
}

/// One decoded frame: code, timestamp, and up to seven optional extra words.
#[derive(Clone, Debug)]
pub struct Event {
    /// The code of the event.
    pub code: EventCode,
    /// The timestamp of the event (the value of the CPU cycle counter).
    pub tsc: u64,
    /// The extra slots; exactly [`EVENT_EXTRA_MAXLEN`] of them, filled from
    /// the front, unused slots `None`.
    pub extra: Vec<Option<u32>>,
}

impl View for Event {
    type V = EventModel;

    open spec fn view(&self) -> EventModel {
        EventModel { code: self.code.raw, tsc: self.tsc, extra: self.extra@ }
    }
}

impl Event {
    /// Well-formedness: exactly seven slots, present ones forming a prefix.
    pub open spec fn wf(self) -> bool {
        extra_slots_wf(self.extra@)
    }

    /// Builds an event from a raw code, a timestamp, and the list of its
    /// present extra words.
    pub fn new(code: u32, tsc: u64, extra: Vec<u32>) -> (e: Event)
        requires
            extra@.len() <= EVENT_EXTRA_MAXLEN,
        ensures
            e@.code == code,
            e@.tsc == tsc,
            e@.extra == padded_extra(extra@),
            e.wf(),
    {
        let mut slots: Vec<Option<u32>> = Vec::new();
        let mut i: usize = 0;
        while i < EVENT_EXTRA_MAXLEN
            invariant
                i <= EVENT_EXTRA_MAXLEN,
                extra@.len() <= EVENT_EXTRA_MAXLEN,
                slots@.len() == i,
                forall|k: int|
                    0 <= k < i ==> slots@[k] == (if k < extra@.len() {
                        Some(extra@[k])
                    } else {
                        None::<u32>
                    }),
            decreases EVENT_EXTRA_MAXLEN - i,
        {
            if i < extra.len() {
                slots.push(Some(extra[i]));
            } else {
                slots.push(None);
            }
            i = i + 1;
        }
        assert(slots@ =~= padded_extra(extra@));
        Event { code: EventCode { raw: code }, tsc, extra: slots }
    }

    /// Returns the code of the event.
    pub fn code(&self) -> (r: EventCode)
        ensures
            r == self.code,
    {
        self.code
    }

    /// Returns the code of the event.
    pub fn get_code(&self) -> (r: EventCode)
        ensures
            r == self.code,
    {
        self.code
    }

    /// Returns the timestamp of the event.
    pub fn tsc(&self) -> (r: u64)
        ensures
            r == self.tsc,
    {
        self.tsc
    }

    /// Returns the timestamp of the event.
    pub fn get_tsc(&self) -> (r: u64)
        ensures
            r == self.tsc,
    {
        self.tsc
    }

    /// Returns the extra slots, absent ones included.
    pub fn extra(&self) -> (r: &Vec<Option<u32>>)
        ensures
            r@ == self@.extra,
    {
        &self.extra
    }

    /// Returns the present extra words, in order.
    pub fn get_extra(&self) -> (r: Vec<u32>)
        ensures
            r@ == present_extra(self@.extra),
    {
        let mut out: Vec<u32> = Vec::new();
        let mut i: usize = 0;
        while i < self.extra.len()
            invariant
                i <= self.extra@.len(),
                out@ == present_extra(self.extra@.take(i as int)),
            decreases self.extra@.len() - i,
        {
            proof {
                assert(self.extra@.take(i + 1).drop_last() =~= self.extra@.take(i as int));
                assert(self.extra@.take(i + 1).last() == self.extra@[i as int]);
            }
            match self.extra[i] {
                Some(w) => out.push(w),
                None => (),
            }
            i = i + 1;
        }
        proof {
            assert(self.extra@.take(self.extra@.len() as int) =~= self.extra@);
        }
        out
    }

    /// Returns the number of present extra words.
    pub fn get_extra_size(&self) -> (r: u8)
        requires
            self@.extra.len() <= EVENT_EXTRA_MAXLEN,
        ensures
            r == present_extra(self@.extra).len(),
    {
        let mut count: u8 = 0;
        let mut i: usize = 0;
        while i < self.extra.len()
            invariant
                i <= self.extra@.len(),
                self.extra@.len() <= EVENT_EXTRA_MAXLEN,
                count == present_extra(self.extra@.take(i as int)).len(),
            decreases self.extra@.len() - i,
        {
            proof {
                assert(self.extra@.take(i + 1).drop_last() =~= self.extra@.take(i as int));
                assert(self.extra@.take(i + 1).last() == self.extra@[i as int]);
                lemma_present_extra_len(self.extra@.take(i + 1));
            }
            match self.extra[i] {
                Some(_) => count = count + 1,
                None => (),
            }
            i = i + 1;
        }
        proof {
            assert(self.extra@.take(self.extra@.len() as int) =~= self.extra@);
        }
        count
    }
}

/// There are never more present extra words than slots.
pub proof fn lemma_present_extra_len(slots: Seq<Option<u32>>)
    ensures
        present_extra(slots).len() <= slots.len(),
    decreases slots.len(),
{
    if slots.len() > 0 {
        lemma_present_extra_len(slots.drop_last());
    }
}

impl PartialEq for Event {
    /// Events are equal when code, timestamp and every extra slot agree.
    fn eq(&self, other: &Event) -> (r: bool) {
        if self.code.raw != other.code.raw || self.tsc != other.tsc {
            return false;
        }
        if self.extra.len() != other.extra.len() {
            return false;
        }
        let mut i: usize = 0;
        while i < self.extra.len()
            invariant
                i <= self.extra@.len(),
                self.extra@.len() == other.extra@.len(),
                forall|k: int| 0 <= k < i ==> self.extra@[k] == other.extra@[k],
            decreases self.extra@.len() - i,
        {
            if self.extra[i] != other.extra[i] {
                return false;
            }
            i = i + 1;
        }
        proof {
            assert(self.extra@ =~= other.extra@);
        }
        true
    }
}

impl Eq for Event {

}

impl vstd::std_specs::cmp::PartialEqSpecImpl for Event {
    open spec fn obeys_eq_spec() -> bool {
        true
    }

    open spec fn eq_spec(&self, other: &Event) -> bool {
        self@ =~= other@
    }
}

} // verus!
