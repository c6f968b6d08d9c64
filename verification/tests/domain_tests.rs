use xentrace_parser::Domain;
use xentrace_parser::DomainKind;
use xentrace_parser::DomainType;

#[test]
fn dom_from_u32() {
    let dom1 = Domain::new(DomainType::Guest(1), 2);
    let dom2 = Domain::from_u32(0x00010002);

    assert_eq!(dom1, dom2);
}

#[test]
fn dom_getters() {
    let dom = Domain::new(DomainType::Default, 1);

    assert_eq!(dom.as_u32(), 0x80000001);
    assert_eq!(dom.get_type(), DomainType::Default);
    assert_eq!(dom.get_vcpu(), 1);
}

#[test]
fn domtype_default() {
    let domtype = DomainType::Default; // Zero or Idle

    assert_eq!(domtype, DomainType::Default);
    assert_eq!(domtype, DomainType::from_id(32768));
    assert_eq!(domtype.into_id(), 32768)
}

#[test]
fn domtype_guest() {
    let domtype = DomainType::Guest(5);

    assert_eq!(domtype, DomainType::Guest(5));
    assert_eq!(domtype, DomainType::from_id(5));
    assert_eq!(domtype.into_id(), 5)
}

#[test]
fn into_u16_test() {
    let type_ = DomainKind::Guest(12345);

    assert_eq!(u16::from(type_), 12345);
}

#[test]
fn dtype_equality_test() {
    let type1 = DomainKind::from(55u16);
    let type2 = DomainKind::from(55);

    assert_eq!(type1, type2);
}

#[test]
fn mod_full_equality_test() {
    let dom1 = Domain::from(0x00015003);
    let dom2 = Domain::from(0x00015003);

    assert_eq!(dom1, dom2);
    assert_eq!(dom1.kind, dom2.kind);
    assert_eq!(dom1.vcpu, dom2.vcpu);
}

#[test]
fn mod_equality_test() {
    let dom1 = Domain::from(0x00015003);
    let dom2 = Domain::from(0x00015103);

    assert_ne!(dom1, dom2);
    assert_ne!(dom1.vcpu, dom2.vcpu);

    assert_eq!(dom1.kind, dom2.kind);
}

#[test]
fn sentinel_ids_map_to_their_kinds() {
    assert_eq!(DomainType::from_id(0), DomainType::Zero);
    assert_eq!(DomainType::from_id(32767), DomainType::Idle);
    assert_eq!(DomainType::from_id(32768), DomainType::Default);
    assert_eq!(DomainType::from_id(1), DomainType::Guest(1));
    assert_eq!(DomainType::from_id(65535), DomainType::Guest(65535));
}

#[test]
fn kind_ids_map_back() {
    assert_eq!(DomainType::Zero.to_id(), 0);
    assert_eq!(DomainType::Idle.to_id(), 32767);
    assert_eq!(DomainType::Default.to_id(), 32768);
    assert_eq!(DomainType::Guest(9).to_id(), 9);
    for id in [0u16, 7, 32766, 32767, 32768, 32769, 65535] {
        assert_eq!(DomainType::from_id(id).to_id(), id);
    }
}

#[test]
fn domain_pack_round_trip() {
    for value in [0u32, 1, 0x00010002, 0x7FFF0003, 0x80000002, 0xDEADBEEF, 0xFFFFFFFF] {
        assert_eq!(Domain::from_u32(value).as_u32(), value);
        assert_eq!(Domain::from_u32(value).into_u32(), value);
    }
}

#[test]
fn domain_accessor_aliases() {
    let dom = Domain::from_u32(0x00050006);
    assert_eq!(dom.kind(), DomainType::Guest(5));
    assert_eq!(dom.virtual_cpu(), 6);
    assert_eq!(dom.get_type(), dom.kind());
    assert_eq!(dom.get_vcpu(), dom.virtual_cpu());
}

#[test]
fn domain_default_is_default_kind() {
    let dom = Domain::default();
    assert_eq!(dom.kind, DomainType::Default);
    assert_eq!(dom.vcpu, 0);
    assert_eq!(DomainType::default(), DomainType::Default);
}
