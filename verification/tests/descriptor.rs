use dma_chain::decode_tag_descriptor;
use dma_chain::encode_tag_descriptor;
use dma_chain::DecodeError;
use dma_chain::DmaTagId;
use dma_chain::PriorityControl;

#[test]
fn descriptor_fields_decode() {
    // qword_count = 0x1234, padding = 0x2AB, priority = Disabled (2),
    // id = Ref (3), irq = 1, address = 0xDEADBEEF
    let w: u64 = 0x1234
        | (0x2AB << 16)
        | (2 << 26)
        | (3 << 28)
        | (1 << 31)
        | (0xDEADBEEFu64 << 32);
    let src = w.to_le_bytes();
    let (t, p) = decode_tag_descriptor(&src, 0).unwrap();
    assert_eq!(p, 8);
    assert_eq!(t.qword_count, 0x1234);
    assert_eq!(t.padding, 0x2AB);
    assert_eq!(t.priority_control, PriorityControl::Disabled);
    assert_eq!(t.id, DmaTagId::Ref);
    assert!(t.irq);
    assert_eq!(t.address, 0xDEADBEEF);
}

#[test]
fn descriptor_round_trip_bytes() {
    let src: [u8; 8] = [0x34, 0x12, 0xAB, 0xBA, 0xEF, 0xBE, 0xAD, 0xDE];
    let (t, _) = decode_tag_descriptor(&src, 0).unwrap();
    let back = encode_tag_descriptor(&t);
    assert_eq!(back.as_slice(), &src);
}

#[test]
fn descriptor_round_trip_all_bits_set() {
    let src: [u8; 8] = [0xFF; 8];
    let (t, _) = decode_tag_descriptor(&src, 0).unwrap();
    let back = encode_tag_descriptor(&t);
    assert_eq!(back.as_slice(), &src);
}

#[test]
fn descriptor_round_trip_zero() {
    let src: [u8; 8] = [0; 8];
    let (t, _) = decode_tag_descriptor(&src, 0).unwrap();
    assert_eq!(t.qword_count, 0);
    assert_eq!(t.priority_control, PriorityControl::NoEffect);
    assert_eq!(t.id, DmaTagId::Refe);
    assert!(!t.irq);
    let back = encode_tag_descriptor(&t);
    assert_eq!(back.as_slice(), &src);
}

#[test]
fn descriptor_encode_then_decode_preserves_fields() {
    let t = dma_chain::EffectiveDmaTag {
        qword_count: 7,
        padding: 0x3FF,
        priority_control: PriorityControl::Enabled,
        id: DmaTagId::Call,
        irq: false,
        address: 0x01020304,
    };
    let bytes = encode_tag_descriptor(&t);
    let (back, p) = decode_tag_descriptor(&bytes, 0).unwrap();
    assert_eq!(p, 8);
    assert_eq!(back, t);
}

#[test]
fn descriptor_reserved_priority_is_legal() {
    // priority bits = 1 (Reserved) must decode, not error
    let w: u64 = 1 << 26;
    let src = w.to_le_bytes();
    let (t, _) = decode_tag_descriptor(&src, 0).unwrap();
    assert_eq!(t.priority_control, PriorityControl::Reserved);
}

#[test]
fn descriptor_every_id_pattern_decodes() {
    let ids = [
        DmaTagId::Refe,
        DmaTagId::Cnt,
        DmaTagId::Next,
        DmaTagId::Ref,
        DmaTagId::Refs,
        DmaTagId::Call,
        DmaTagId::Ret,
        DmaTagId::End,
    ];
    for (bits, expected) in ids.iter().enumerate() {
        let w: u64 = (bits as u64) << 28;
        let src = w.to_le_bytes();
        let (t, _) = decode_tag_descriptor(&src, 0).unwrap();
        assert_eq!(t.id, *expected);
    }
}

#[test]
fn descriptor_truncated_fails() {
    let src: [u8; 7] = [0; 7];
    assert_eq!(
        decode_tag_descriptor(&src, 0),
        Err(DecodeError::UnexpectedEnd)
    );
}

#[test]
fn descriptor_truncated_at_offset_fails() {
    let src: [u8; 10] = [0; 10];
    assert_eq!(
        decode_tag_descriptor(&src, 3),
        Err(DecodeError::UnexpectedEnd)
    );
}
