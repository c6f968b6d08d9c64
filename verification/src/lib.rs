//! Decoder for XenTrace binary trace streams.
//!
//! A trace is a flat sequence of variable-length frames.  Each frame starts
//! with a 32-bit header word: bit 31 flags an explicit 64-bit timestamp,
//! bits 28-30 give the number of trailing 32-bit extra words, and bits 0-27
//! hold the event code.  The decoder walks the frames, tracks the current
//! host CPU and the domain bound to each CPU (both driven by reserved
//! sentinel codes embedded in the stream), and produces a chronologically
//! ordered list of records.

pub mod cpumap;
pub mod domain;
pub mod event;
pub mod order;
pub mod record;
pub mod stream;
pub mod trace;

pub use domain::Domain;
pub use domain::DomainKind;
pub use domain::DomainType;
pub use event::Event;
pub use event::EventCode;
pub use event::EVENT_EXTRA_CAPACITY;
pub use event::EVENT_EXTRA_MAXLEN;
pub use record::Record;
pub use stream::TRC_SCHED_TO_RUN;
pub use stream::TRC_TRACE_CPU_CHANGE;
pub use trace::Trace;
