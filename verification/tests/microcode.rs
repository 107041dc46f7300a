use dma_chain::decode_microcode_command;
use dma_chain::DecodeError;
use dma_chain::VifCode;

fn header(immediate: u16, num: u8, cmd: u8) -> Vec<u8> {
    let mut v = immediate.to_le_bytes().to_vec();
    v.push(num);
    v.push(cmd);
    v
}

#[test]
fn nop_consumes_exactly_four_bytes() {
    let src = [0x00, 0x00, 0x00, 0x00];
    let (c, p) = decode_microcode_command(&src, 0).unwrap();
    assert!(matches!(c, VifCode::Nop));
    assert_eq!(p, 4);
}

#[test]
fn unknown_opcode_fails() {
    let src = [0x00, 0x00, 0x00, 0xFF];
    assert_eq!(
        decode_microcode_command(&src, 0),
        Err(DecodeError::UnknownOpcode(0xFF))
    );
}

#[test]
fn truncated_header_fails() {
    let src = [0x00, 0x00, 0x00];
    assert_eq!(
        decode_microcode_command(&src, 0),
        Err(DecodeError::UnexpectedEnd)
    );
}

#[test]
fn stcycl_splits_immediate() {
    let src = header(0xABCD, 0, 0x01);
    let (c, p) = decode_microcode_command(&src, 0).unwrap();
    assert_eq!(p, 4);
    match c {
        VifCode::Stcycl { cl, wl } => {
            assert_eq!(cl, 0xCD);
            assert_eq!(wl, 0xAB);
        }
        other => panic!("expected Stcycl, got {:?}", other),
    }
}

#[test]
fn stmod_masks_two_bits() {
    let src = header(0x0007, 0, 0x05);
    let (c, _) = decode_microcode_command(&src, 0).unwrap();
    match c {
        VifCode::Stmod { mode } => assert_eq!(mode, 3),
        other => panic!("expected Stmod, got {:?}", other),
    }
}

#[test]
fn flush_and_mscnt_have_no_payload() {
    let (c, p) = decode_microcode_command(&header(0, 0, 0x11), 0).unwrap();
    assert!(matches!(c, VifCode::Flush));
    assert_eq!(p, 4);
    let (c, p) = decode_microcode_command(&header(0, 0, 0x17), 0).unwrap();
    assert!(matches!(c, VifCode::Mscnt));
    assert_eq!(p, 4);
}

#[test]
fn strow_reads_four_words() {
    let mut src = header(0, 0, 0x30);
    src.extend_from_slice(&0x11111111u32.to_le_bytes());
    src.extend_from_slice(&0x22222222u32.to_le_bytes());
    src.extend_from_slice(&0x33333333u32.to_le_bytes());
    src.extend_from_slice(&0x44444444u32.to_le_bytes());
    let (c, p) = decode_microcode_command(&src, 0).unwrap();
    assert_eq!(p, 20);
    match c {
        VifCode::Strow { r0, r1, r2, r3 } => {
            assert_eq!(r0, 0x11111111);
            assert_eq!(r1, 0x22222222);
            assert_eq!(r2, 0x33333333);
            assert_eq!(r3, 0x44444444);
        }
        other => panic!("expected Strow, got {:?}", other),
    }
}

#[test]
fn strow_truncated_payload_fails() {
    let mut src = header(0, 0, 0x30);
    src.extend_from_slice(&[0u8; 15]);
    assert_eq!(
        decode_microcode_command(&src, 0),
        Err(DecodeError::UnexpectedEnd)
    );
}

#[test]
fn mpg_scales_num_and_address() {
    let mut src = header(0x0010, 2, 0x4A);
    src.extend_from_slice(&[0xAB; 16]);
    let (c, p) = decode_microcode_command(&src, 0).unwrap();
    assert_eq!(p, 20);
    match c {
        VifCode::Mpg { address, num, data } => {
            assert_eq!(address, 0x80);
            assert_eq!(num, 16);
            assert_eq!(data, vec![0xAB; 16]);
        }
        other => panic!("expected Mpg, got {:?}", other),
    }
}

#[test]
fn mpg_zero_num_means_2048_bytes() {
    let mut src = header(0, 0, 0x4A);
    src.extend_from_slice(&[0x5A; 2048]);
    let (c, p) = decode_microcode_command(&src, 0).unwrap();
    assert_eq!(p, 4 + 2048);
    match c {
        VifCode::Mpg { num, data, .. } => {
            assert_eq!(num, 2048);
            assert_eq!(data.len(), 2048);
        }
        other => panic!("expected Mpg, got {:?}", other),
    }
}

#[test]
fn mpg_truncated_payload_fails() {
    let mut src = header(0, 1, 0x4A);
    src.extend_from_slice(&[0u8; 7]);
    assert_eq!(
        decode_microcode_command(&src, 0),
        Err(DecodeError::UnexpectedEnd)
    );
}

#[test]
fn unpack_s_32_extracts_immediate_bits() {
    // address = 0x123, zero_extension (bit 14) set, add_tops (bit 15) clear
    let mut src = header(0x4000 | 0x123, 1, 0x60);
    src.extend_from_slice(&0xCAFEBABEu32.to_le_bytes());
    let (c, p) = decode_microcode_command(&src, 0).unwrap();
    assert_eq!(p, 8);
    match c {
        VifCode::Unpack_S_32 { address, zero_extension, add_tops, num, data } => {
            assert_eq!(address, 0x123);
            assert!(zero_extension);
            assert!(!add_tops);
            assert_eq!(num, 1);
            assert_eq!(data, vec![0xCAFEBABE]);
        }
        other => panic!("expected Unpack_S_32, got {:?}", other),
    }
}

#[test]
fn unpack_v2_16_reads_twice_num_halfwords() {
    let mut src = header(0, 3, 0x65);
    for k in 0..6u16 {
        src.extend_from_slice(&(0x0100 + k).to_le_bytes());
    }
    let (c, p) = decode_microcode_command(&src, 0).unwrap();
    assert_eq!(p, 4 + 12);
    match c {
        VifCode::Unpack_V2_16 { num, data, .. } => {
            assert_eq!(num, 3);
            assert_eq!(data, vec![0x0100, 0x0101, 0x0102, 0x0103, 0x0104, 0x0105]);
        }
        other => panic!("expected Unpack_V2_16, got {:?}", other),
    }
}

#[test]
fn unpack_v4_32_zero_num_consumes_4100_bytes() {
    let mut src = header(0, 0, 0x6C);
    src.extend_from_slice(&[0x77; 4096]);
    let (c, p) = decode_microcode_command(&src, 0).unwrap();
    assert_eq!(p, 4100);
    match c {
        VifCode::Unpack_V4_32 { num, data, .. } => {
            assert_eq!(num, 256);
            assert_eq!(data.len(), 1024);
            assert_eq!(data[0], 0x77777777);
        }
        other => panic!("expected Unpack_V4_32, got {:?}", other),
    }
}

#[test]
fn unpack_v4_16_reads_four_times_num_halfwords() {
    let mut src = header(0, 2, 0x6D);
    src.extend_from_slice(&[0x10; 16]);
    let (c, p) = decode_microcode_command(&src, 0).unwrap();
    assert_eq!(p, 20);
    match c {
        VifCode::Unpack_V4_16 { num, data, .. } => {
            assert_eq!(num, 2);
            assert_eq!(data, vec![0x1010; 8]);
        }
        other => panic!("expected Unpack_V4_16, got {:?}", other),
    }
}

#[test]
fn unpack_v4_8_reads_four_times_num_bytes() {
    let mut src = header(0, 2, 0x6E);
    src.extend_from_slice(&[1, 2, 3, 4, 5, 6, 7, 8]);
    let (c, p) = decode_microcode_command(&src, 0).unwrap();
    assert_eq!(p, 12);
    match c {
        VifCode::Unpack_V4_8 { num, data, .. } => {
            assert_eq!(num, 2);
            assert_eq!(data, vec![1, 2, 3, 4, 5, 6, 7, 8]);
        }
        other => panic!("expected Unpack_V4_8, got {:?}", other),
    }
}

#[test]
fn unpack_truncated_payload_fails() {
    // num = 0 means 256 words; only 3 bytes of payload follow
    let mut src = header(0, 0, 0x60);
    src.extend_from_slice(&[0u8; 3]);
    assert_eq!(
        decode_microcode_command(&src, 0),
        Err(DecodeError::UnexpectedEnd)
    );
}

#[test]
fn decode_at_offset_owns_its_bytes() {
    // a Stcycl placed after 4 unrelated bytes
    let mut src = vec![0xEE, 0xEE, 0xEE, 0xEE];
    src.extend_from_slice(&header(0x0201, 0, 0x01));
    let (c, p) = decode_microcode_command(&src, 4).unwrap();
    assert_eq!(p, 8);
    match c {
        VifCode::Stcycl { cl, wl } => {
            assert_eq!(cl, 0x01);
            assert_eq!(wl, 0x02);
        }
        other => panic!("expected Stcycl, got {:?}", other),
    }
}
