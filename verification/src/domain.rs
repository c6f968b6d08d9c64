//! Domains: the virtual-machine context a decoded record is attributed to.
//!
//! A domain is packed into a 32-bit payload word: the high 16 bits carry the
//! domain-kind id, the low 16 bits the virtual-CPU index.  Three kind ids are
//! reserved sentinels; every other id names a guest domain.

use vstd::prelude::*;

verus! {

/// Kind id reserved for the zero (privileged host) domain.
pub const DOMAIN_ID_ZERO: u16 = 0;

/// Kind id reserved for the idle domain.
pub const DOMAIN_ID_IDLE: u16 = 32767;

/// Kind id reserved for the default domain (no information available).
pub const DOMAIN_ID_DEFAULT: u16 = 32768;

/// The kind of virtual machine a record is attributed to.
#[derive(Clone, Copy, Debug, PartialEq, Eq, Structural)]
pub enum DomainType {
    /// The zero/host domain (the privileged VM).
    Zero,
    /// The idle domain (the CPU is not in use).
    Idle,
    /// The default domain (no information available).
    Default,
    /// An unprivileged guest domain, with its id.
    Guest(u16),
}

/// Alternate name for [`DomainType`], kept for callers that use it.
pub type DomainKind = DomainType;

impl DomainType {
    /// The kind named by a 16-bit id: the three reserved sentinels map to
    /// their variants, every other id to `Guest`.
    pub open spec fn spec_from_id(id: u16) -> DomainType {
        if id == DOMAIN_ID_ZERO {
            DomainType::Zero
        } else if id == DOMAIN_ID_IDLE {
            DomainType::Idle
        } else if id == DOMAIN_ID_DEFAULT {
            DomainType::Default
        } else {
            DomainType::Guest(id)
        }
    }

    /// Well-formedness: a guest never carries one of the reserved sentinel
    /// ids.  Decoding only builds well-formed kinds.
    pub open spec fn wf(self) -> bool {
        match self {
            DomainType::Guest(id) => id != DOMAIN_ID_ZERO && id != DOMAIN_ID_IDLE && id
                != DOMAIN_ID_DEFAULT,
            _ => true,
        }
    }

    /// The 16-bit id of a kind: the inverse of [`DomainType::spec_from_id`].
    pub open spec fn spec_to_id(self) -> u16 {
        match self {
            DomainType::Zero => DOMAIN_ID_ZERO,
            DomainType::Idle => DOMAIN_ID_IDLE,
            DomainType::Default => DOMAIN_ID_DEFAULT,
            DomainType::Guest(id) => id,
        }
    }

    /// Builds the kind named by a 16-bit id.
    pub fn from_id(id: u16) -> (r: DomainType)
        ensures
            r == DomainType::spec_from_id(id),
            r.wf(),
    {
        if id == DOMAIN_ID_ZERO {
            DomainType::Zero
        } else if id == DOMAIN_ID_IDLE {
            DomainType::Idle
        } else if id == DOMAIN_ID_DEFAULT {
            DomainType::Default
        } else {
            DomainType::Guest(id)
        }
    }

    /// Returns the 16-bit id of this kind.
    pub fn to_id(&self) -> (r: u16)
        ensures
            r == self.spec_to_id(),
    {
        match self {
            DomainType::Zero => DOMAIN_ID_ZERO,
            DomainType::Idle => DOMAIN_ID_IDLE,
            DomainType::Default => DOMAIN_ID_DEFAULT,
            DomainType::Guest(id) => *id,
        }
    }

    /// Returns the 16-bit id of this kind.
    pub fn into_id(&self) -> (r: u16)
        ensures
            r == self.spec_to_id(),
    {
        self.to_id()
    }
}

impl Default for DomainType {
    /// The default kind, used before any information is available.
    fn default() -> (r: DomainType)
        ensures
            r == DomainType::Default,
    {
        DomainType::Default
    }
}

impl From<u16> for DomainType {
    /// The kind named by a 16-bit id, as [`DomainType::from_id`].
    fn from(id: u16) -> (r: DomainType) {
        DomainType::from_id(id)
    }
}

impl vstd::std_specs::convert::FromSpecImpl<u16> for DomainType {
    open spec fn obeys_from_spec() -> bool {
        true
    }

    open spec fn from_spec(id: u16) -> DomainType {
        DomainType::spec_from_id(id)
    }
}

impl From<DomainType> for u16 {
    /// The 16-bit id of a kind, as [`DomainType::to_id`].
    fn from(kind: DomainType) -> (r: u16) {
        kind.to_id()
    }
}

impl vstd::std_specs::convert::FromSpecImpl<DomainType> for u16 {
    open spec fn obeys_from_spec() -> bool {
        true
    }

    open spec fn from_spec(kind: DomainType) -> u16 {
        kind.spec_to_id()
    }
}

/// Sentinel mapping: the reserved ids name their sentinels, every other id a
/// guest, and each kind maps back to the id it was built from.
pub proof fn lemma_kind_id_mapping()
    ensures
        DomainType::spec_from_id(DOMAIN_ID_ZERO) == DomainType::Zero,
        DomainType::spec_from_id(DOMAIN_ID_IDLE) == DomainType::Idle,
        DomainType::spec_from_id(DOMAIN_ID_DEFAULT) == DomainType::Default,
        forall|id: u16|
            id != DOMAIN_ID_ZERO && id != DOMAIN_ID_IDLE && id != DOMAIN_ID_DEFAULT
                ==> #[trigger] DomainType::spec_from_id(id) == DomainType::Guest(id),
        forall|id: u16| #[trigger] DomainType::spec_from_id(id).spec_to_id() == id,
{
}

/// The virtual-machine context attributed to a record: a domain kind and a
/// virtual-CPU index.
#[derive(Clone, Copy, Debug, PartialEq, Eq, Structural)]
pub struct Domain {
    /// The kind of virtual machine.
    pub kind: DomainType,
    /// The virtual-processor index within the domain.
    pub vcpu: u16,
}

impl Domain {
    /// The domain packed in a 32-bit payload word: kind id in the high
    /// 16 bits, virtual CPU in the low 16 bits.
    pub open spec fn spec_from_u32(value: u32) -> Domain {
        Domain {
            kind: DomainType::spec_from_id((value >> 16) as u16),
            vcpu: (value & 0xFFFF) as u16,
        }
    }

    /// The 32-bit packed form of a domain: the inverse of
    /// [`Domain::spec_from_u32`].
    pub open spec fn spec_to_u32(self) -> u32 {
        ((self.kind.spec_to_id() as u32) << 16) | (self.vcpu as u32)
    }

    /// The domain assumed for a CPU before any binding is observed.
    pub open spec fn spec_default() -> Domain {
        Domain { kind: DomainType::Default, vcpu: 0 }
    }

    /// Well-formedness: the kind is well formed.
    pub open spec fn wf(self) -> bool {
        self.kind.wf()
    }

    /// Builds a domain from a kind and a virtual-CPU index.
    pub fn new(kind: DomainType, vcpu: u16) -> (d: Domain)
        ensures
            d == (Domain { kind, vcpu }),
    {
        Domain { kind, vcpu }
    }

    /// Unpacks a domain from a 32-bit payload word.
    pub fn from_u32(value: u32) -> (d: Domain)
        ensures
            d == Domain::spec_from_u32(value),
    {
        let id: u16 = (value >> 16) as u16;
        let vcpu: u16 = (value & 0xFFFF) as u16;
        Domain { kind: DomainType::from_id(id), vcpu }
    }

    /// Packs this domain into its 32-bit payload word.
    pub fn as_u32(&self) -> (r: u32)
        ensures
            r == self.spec_to_u32(),
    {
        ((self.kind.to_id() as u32) << 16) | (self.vcpu as u32)
    }

    /// Packs this domain into its 32-bit payload word.
    pub fn into_u32(&self) -> (r: u32)
        ensures
            r == self.spec_to_u32(),
    {
        self.as_u32()
    }

    /// Returns the kind of virtual machine.
    pub fn get_type(&self) -> (r: DomainType)
        ensures
            r == self.kind,
    {
        self.kind
    }

    /// Returns the kind of virtual machine.
    pub fn kind(&self) -> (r: DomainType)
        ensures
            r == self.kind,
    {
        self.kind
    }

    /// Returns the virtual-processor index.
    pub fn get_vcpu(&self) -> (r: u16)
        ensures
            r == self.vcpu,
    {
        self.vcpu
    }

    /// Returns the virtual-processor index.
    pub fn virtual_cpu(&self) -> (r: u16)
        ensures
            r == self.vcpu,
    {
        self.vcpu
    }
}

impl From<u32> for Domain {
    /// The domain packed in a 32-bit payload word, as [`Domain::from_u32`].
    fn from(value: u32) -> (d: Domain) {
        Domain::from_u32(value)
    }
}

impl vstd::std_specs::convert::FromSpecImpl<u32> for Domain {
    open spec fn obeys_from_spec() -> bool {
        true
    }

    open spec fn from_spec(value: u32) -> Domain {
        Domain::spec_from_u32(value)
    }
}

impl From<Domain> for u32 {
    /// The 32-bit packed form of a domain, as [`Domain::as_u32`].
    fn from(d: Domain) -> (r: u32) {
        d.as_u32()
    }
}

impl vstd::std_specs::convert::FromSpecImpl<Domain> for u32 {
    open spec fn obeys_from_spec() -> bool {
        true
    }

    open spec fn from_spec(d: Domain) -> u32 {
        d.spec_to_u32()
    }
}

impl Default for Domain {
    /// The domain assumed for a CPU before any binding is observed.
    fn default() -> (d: Domain)
        ensures
            d == Domain::spec_default(),
    {
        Domain { kind: DomainType::Default, vcpu: 0 }
    }
}

/// Round trip: unpacking any 32-bit word and packing the result gives the
/// word back.
pub proof fn lemma_domain_round_trip(value: u32)
    ensures
        Domain::spec_from_u32(value).spec_to_u32() == value,
        Domain::spec_from_u32(value).wf(),
{
    let id = (value >> 16) as u16;
    let vcpu = (value & 0xFFFF) as u16;
    assert(DomainType::spec_from_id(id).spec_to_id() == id);
    assert(((id as u32) << 16) | (vcpu as u32) == value) by (bit_vector)
        requires
            id == (value >> 16) as u16,
            vcpu == (value & 0xFFFF) as u16,
    ;
}

/// The converse round trip: packing a well-formed domain and unpacking the
/// word gives the domain back.  (Without well-formedness a guest carrying a
/// sentinel id would unpack to the sentinel.)
pub proof fn lemma_domain_pack_unpack(d: Domain)
    requires
        d.wf(),
    ensures
        Domain::spec_from_u32(d.spec_to_u32()) == d,
{
    let id = d.kind.spec_to_id();
    let vcpu = d.vcpu;
    let packed = d.spec_to_u32();
    assert((packed >> 16) as u16 == id && (packed & 0xFFFF) as u16 == vcpu) by (bit_vector)
        requires
            packed == ((id as u32) << 16) | (vcpu as u32),
    ;
}

} // verus!
