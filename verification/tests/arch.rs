use bpf_rsp::bpf::{from_raw_id, Bpf, Bpf64, BpfBreakpointKind, BpfRegId, BpfRegs,
    SingleStepBehavior};

#[test]
fn breakpoint_kind_zero_is_brkpt() {
    assert!(matches!(
        BpfBreakpointKind::from_usize(0),
        Some(BpfBreakpointKind::BpfBpKindBrkpt)
    ));
}

#[test]
fn breakpoint_kind_other_values_rejected() {
    assert!(BpfBreakpointKind::from_usize(1).is_none());
    assert!(BpfBreakpointKind::from_usize(17).is_none());
    assert!(BpfBreakpointKind::from_usize(usize::MAX).is_none());
}

#[test]
fn arch_flags() {
    assert!(Bpf::target_description_xml().is_none());
    assert!(Bpf64::target_description_xml().is_none());
    assert_eq!(Bpf::single_step_gdb_behavior(), SingleStepBehavior::Required);
    assert_eq!(Bpf64::single_step_gdb_behavior(), SingleStepBehavior::Required);
}

#[test]
fn reg_id_gprs_are_eight_bytes() {
    for id in 0..10usize {
        match BpfRegId::<u64>::from_raw_id(id) {
            Some((BpfRegId::Gpr(n), w)) => {
                assert_eq!(n as usize, id);
                assert_eq!(w, 8);
            }
            other => panic!("unexpected mapping for {}: {:?}", id, other),
        }
    }
}

#[test]
fn reg_id_special_registers_take_pointer_width() {
    assert!(matches!(BpfRegId::<u32>::from_raw_id(10), Some((BpfRegId::Sp, 4))));
    assert!(matches!(BpfRegId::<u32>::from_raw_id(11), Some((BpfRegId::Pc, 4))));
    assert!(matches!(BpfRegId::<u64>::from_raw_id(10), Some((BpfRegId::Sp, 8))));
    assert!(matches!(BpfRegId::<u64>::from_raw_id(11), Some((BpfRegId::Pc, 8))));
}

#[test]
fn reg_id_out_of_range_rejected() {
    assert!(BpfRegId::<u32>::from_raw_id(12).is_none());
    assert!(BpfRegId::<u64>::from_raw_id(12).is_none());
    assert!(from_raw_id::<u64>(usize::MAX).is_none());
}

#[test]
fn serialize_layout_64() {
    let mut regs: BpfRegs<u64> = BpfRegs::default();
    regs.r[0] = 0x0102030405060708;
    regs.sp = 0x1000;
    regs.pc = 0x2000;
    let bytes = regs.gdb_serialize();
    assert_eq!(bytes.len(), 96);
    // general-purpose registers are written little-endian
    assert_eq!(&bytes[0..8], &[0x08, 0x07, 0x06, 0x05, 0x04, 0x03, 0x02, 0x01]);
    assert_eq!(&bytes[8..16], &[0; 8]);
    // special registers are written little-endian at pointer width
    assert_eq!(&bytes[80..88], &[0x00, 0x10, 0, 0, 0, 0, 0, 0]);
    assert_eq!(&bytes[88..96], &[0x00, 0x20, 0, 0, 0, 0, 0, 0]);
}

#[test]
fn serialize_layout_32() {
    let mut regs: BpfRegs<u32> = BpfRegs::default();
    regs.sp = 0x11223344;
    regs.pc = 0x55667788;
    let bytes = regs.gdb_serialize();
    assert_eq!(bytes.len(), 88);
    assert_eq!(&bytes[0..80], &[0u8; 80][..]);
    assert_eq!(&bytes[80..84], &[0x44, 0x33, 0x22, 0x11]);
    assert_eq!(&bytes[84..88], &[0x88, 0x77, 0x66, 0x55]);
}

#[test]
fn roundtrip_64_bit_register_file() {
    // ten zero general-purpose registers survive the bank's byte-order
    // asymmetry; sp and pc are little-endian in both directions
    let mut regs: BpfRegs<u64> = BpfRegs::default();
    regs.sp = 0x1000;
    regs.pc = 0x2000;
    let bytes = regs.gdb_serialize();
    let mut back: BpfRegs<u64> = BpfRegs::default();
    back.gdb_deserialize(&bytes).unwrap();
    assert_eq!(back, regs);
    assert_eq!(back.pc(), 0x2000);
}

#[test]
fn deserialize_reads_gprs_big_endian() {
    // the byte-order asymmetry, pinned by an explicit vector: a serialized
    // r0 == 1 (little-endian on the wire) deserializes as 1 << 56
    let mut regs: BpfRegs<u64> = BpfRegs::default();
    regs.r[0] = 1;
    let bytes = regs.gdb_serialize();
    assert_eq!(&bytes[0..8], &[1, 0, 0, 0, 0, 0, 0, 0]);
    let mut back: BpfRegs<u64> = BpfRegs::default();
    back.gdb_deserialize(&bytes).unwrap();
    assert_eq!(back.r[0], 0x0100000000000000);
}

#[test]
fn roundtrip_symmetric_gpr_values() {
    // byte-swap-invariant register values round-trip even through the
    // asymmetric bank encoding
    let mut regs: BpfRegs<u64> = BpfRegs::default();
    regs.r[3] = 0x1111111111111111;
    regs.r[7] = u64::MAX;
    regs.sp = 0xdead_beef_dead_beef;
    regs.pc = 4;
    let bytes = regs.gdb_serialize();
    let mut back: BpfRegs<u64> = BpfRegs::default();
    back.gdb_deserialize(&bytes).unwrap();
    assert_eq!(back, regs);
}

#[test]
fn deserialize_rejects_short_buffer() {
    let mut regs: BpfRegs<u64> = BpfRegs::default();
    regs.sp = 7;
    let short = [0u8; 95];
    let before = regs.clone();
    assert_eq!(regs.gdb_deserialize(&short), Err(()));
    assert_eq!(regs, before);

    let mut regs32: BpfRegs<u32> = BpfRegs::default();
    assert_eq!(regs32.gdb_deserialize(&[0u8; 87]), Err(()));
    assert!(regs32.gdb_deserialize(&[0u8; 88]).is_ok());
}

#[test]
fn deserialize_ignores_trailing_bytes() {
    let mut buf = vec![0u8; 100];
    buf[0x50] = 0x34;
    buf[0x51] = 0x12;
    let mut regs: BpfRegs<u64> = BpfRegs::default();
    regs.gdb_deserialize(&buf).unwrap();
    assert_eq!(regs.sp, 0x1234);
}
