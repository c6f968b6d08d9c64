//! Records: the decoder's externally visible unit.
//!
//! A record joins one decoded event with the host CPU and the domain that
//! were current when the event was decoded.

use crate::domain::Domain;
use crate::event::Event;
use crate::event::EventModel;
use vstd::prelude::*;

verus! {

/// The mathematical model of a record.
#[verifier::ext_equal]
pub ghost struct RecordModel {
    /// The host CPU the event was attributed to.
    pub cpu: u16,
    /// The domain bound to that CPU when the event was decoded.
    pub domain: Domain,
    /// The event itself.
    pub event: EventModel,
}

/// One visible unit of a decoded trace: an event together with the host CPU
/// and domain it was attributed to.
#[derive(Clone, Debug)]
pub struct Record {
    /// The host CPU on which the event occurred.
    pub cpu: u16,
    /// The domain that was bound to that CPU.
    pub domain: Domain,
    /// The decoded event.
    pub event: Event,
}

impl View for Record {
    type V = RecordModel;

    open spec fn view(&self) -> RecordModel {
        RecordModel { cpu: self.cpu, domain: self.domain, event: self.event@ }
    }
}

impl Record {
    /// Well-formedness: the event's extra slots are well formed.
    pub open spec fn wf(self) -> bool {
        self.event.wf()
    }

    /// Returns the host CPU on which the event occurred.
    pub fn cpu(&self) -> (r: u16)
        ensures
            r == self.cpu,
    {
        self.cpu
    }

    /// Returns the domain on which the event occurred.
    pub fn domain(&self) -> (r: &Domain)
        ensures
            r == self.domain,
    {
        &self.domain
    }

    /// Returns the event of this record.
    pub fn event(&self) -> (r: &Event)
        ensures
            r@ == self@.event,
    {
        &self.event
    }
}

} // verus!
