use imxrt_dcd::bytes::{append, u16_to_be, u32_to_be};
use imxrt_dcd::group::group_key;
use imxrt_dcd::record::{dcd_header, MAX_BYTE_LEN, MAX_GROUP_SIZE, NOP_HEADER};
use imxrt_dcd::{Check, CheckCond, Command, Width, Write, WriteOp};

#[test]
fn width_tags() {
    assert_eq!(Width::B1.tag(), 0b001);
    assert_eq!(Width::B2.tag(), 0b010);
    assert_eq!(Width::B4.tag(), 0b100);
}

#[test]
fn width_from_byte_count() {
    assert_eq!(Width::from_byte_count(1), Some(Width::B1));
    assert_eq!(Width::from_byte_count(2), Some(Width::B2));
    assert_eq!(Width::from_byte_count(4), Some(Width::B4));
    assert_eq!(Width::from_byte_count(0), None);
    assert_eq!(Width::from_byte_count(3), None);
    assert_eq!(Width::from_byte_count(8), None);
    assert_eq!(Width::from_byte_count(usize::MAX), None);
}

#[test]
fn write_op_tags() {
    assert_eq!(WriteOp::Write.tag(), 0b00_000);
    assert_eq!(WriteOp::Clear.tag(), 0b01_000);
    assert_eq!(WriteOp::SetBits.tag(), 0b11_000);
}

#[test]
fn check_cond_tags() {
    assert_eq!(CheckCond::AllClear.tag(), 0b00_000);
    assert_eq!(CheckCond::AnyClear.tag(), 0b01_000);
    assert_eq!(CheckCond::AllSet.tag(), 0b10_000);
    assert_eq!(CheckCond::AnySet.tag(), 0b11_000);
}

#[test]
fn defaults() {
    assert_eq!(Width::default(), Width::B4);
    assert_eq!(WriteOp::default(), WriteOp::Write);
    assert_eq!(CheckCond::default(), CheckCond::AllClear);
    assert_eq!(Command::default(), Command::Nop);
    assert_eq!(
        Write::default(),
        Write { width: Width::B4, op: WriteOp::Write, address: 0, value: 0 }
    );
    assert_eq!(
        Check::default(),
        Check { width: Width::B4, cond: CheckCond::AllClear, address: 0, mask: 0, count: None }
    );
}

#[test]
fn flags_keep_both_tags() {
    for width in [Width::B1, Width::B2, Width::B4] {
        for op in [WriteOp::Write, WriteOp::Clear, WriteOp::SetBits] {
            let flags = Write { width, op, address: 0, value: 0 }.flags();
            assert_eq!(flags, width.tag() + op.tag());
            assert_eq!(flags & 0b00_111, width.tag());
            assert_eq!(flags & 0b11_000, op.tag());
        }
        for cond in
            [CheckCond::AllClear, CheckCond::AnyClear, CheckCond::AllSet, CheckCond::AnySet]
        {
            let flags = Check { width, cond, address: 0, mask: 0, count: None }.flags();
            assert_eq!(flags, width.tag() + cond.tag());
            assert_eq!(flags & 0b00_111, width.tag());
            assert_eq!(flags & 0b11_000, cond.tag());
        }
    }
}

#[test]
fn big_endian_bytes() {
    assert_eq!(u16_to_be(0x1234), [0x12, 0x34]);
    assert_eq!(u16_to_be(0), [0, 0]);
    assert_eq!(u16_to_be(0xFFFF), [0xFF, 0xFF]);
    assert_eq!(u16_to_be(0x00FF), [0x00, 0xFF]);
    assert_eq!(u32_to_be(0x01234567), [0x01, 0x23, 0x45, 0x67]);
    assert_eq!(u32_to_be(0xdeadbeef), [0xde, 0xad, 0xbe, 0xef]);
    assert_eq!(u32_to_be(0), [0, 0, 0, 0]);
    assert_eq!(u32_to_be(u32::MAX), [0xFF, 0xFF, 0xFF, 0xFF]);
}

#[test]
fn big_endian_bytes_agree_with_std() {
    for n in [0u16, 1, 0x00FF, 0x0100, 0x1234, 0xFF00, 0xFFFF] {
        assert_eq!(u16_to_be(n), n.to_be_bytes());
    }
    for n in [0u32, 1, 0xFF, 0x100, 0x0001_0000, 0x0100_0000, 0x89abcdef, u32::MAX] {
        assert_eq!(u32_to_be(n), n.to_be_bytes());
    }
}

#[test]
fn append_adds_behind() {
    let mut sink = vec![1u8, 2];
    append(&mut sink, &[3, 4, 5]);
    append(&mut sink, &[]);
    assert_eq!(sink, vec![1, 2, 3, 4, 5]);
}

#[test]
fn limits() {
    assert_eq!(MAX_BYTE_LEN, 65535);
    assert_eq!(MAX_GROUP_SIZE, 8191);
    assert_eq!(4 + MAX_GROUP_SIZE * 8, 65532);
}

#[test]
fn block_header() {
    assert_eq!(dcd_header(48), [0xD2, 0, 48, 0x41]);
    assert_eq!(dcd_header(0x1234), [0xD2, 0x12, 0x34, 0x41]);
    assert_eq!(dcd_header(0xFFFF), [0xD2, 0xFF, 0xFF, 0x41]);
}

#[test]
fn nop_header() {
    assert_eq!(NOP_HEADER, [0xC0, 0x00, 0x04, 0x00]);
}

#[test]
fn write_record_parts() {
    let write = Write {
        width: Width::B2,
        op: WriteOp::Clear,
        address: 0x01234567,
        value: 0xdeadbeef,
    };
    assert_eq!(Write::byte_len(1), 12);
    assert_eq!(Write::byte_len(2), 20);
    assert_eq!(Write::byte_len(3), 28);
    assert_eq!(Write::byte_len(0), 4);
    assert_eq!(Write::byte_len(8191), 65532);
    assert_eq!(write.flags(), 0x0A);
    assert_eq!(write.header(1), [0xCC, 0, 12, 0x0A]);
    assert_eq!(write.header(3), [0xCC, 0, 28, 0x0A]);
    assert_eq!(write.header(8191), [0xCC, 0xFF, 0xFC, 0x0A]);
    assert_eq!(write.payload(), [0x01, 0x23, 0x45, 0x67, 0xde, 0xad, 0xbe, 0xef]);
}

#[test]
fn check_record_parts() {
    let with_count = Check {
        width: Width::B2,
        cond: CheckCond::AnySet,
        address: 0x89abcdef,
        mask: 0x55aa55aa,
        count: Some(0x01020304),
    };
    assert_eq!(with_count.byte_len(), 16);
    assert_eq!(with_count.flags(), 0x1A);
    assert_eq!(with_count.header(), [0xCF, 0, 16, 0x1A]);
    assert_eq!(with_count.payload(), [0x89, 0xab, 0xcd, 0xef, 0x55, 0xaa, 0x55, 0xaa]);
    assert_eq!(
        with_count.payload_with_count(),
        [0x89, 0xab, 0xcd, 0xef, 0x55, 0xaa, 0x55, 0xaa, 1, 2, 3, 4]
    );
    let without = Check { count: None, cond: CheckCond::AllSet, ..with_count };
    assert_eq!(without.byte_len(), 12);
    assert_eq!(without.flags(), 0x12);
    assert_eq!(without.header(), [0xCF, 0, 12, 0x12]);
    assert_eq!(without.payload(), [0x89, 0xab, 0xcd, 0xef, 0x55, 0xaa, 0x55, 0xaa]);
}

#[test]
fn group_key_of_a_write_is_its_width_and_op() {
    let write = Command::Write(Write {
        width: Width::B1,
        op: WriteOp::SetBits,
        address: 1,
        value: 2,
    });
    assert_eq!(group_key(0, &write), (usize::MAX, Width::B1, WriteOp::SetBits));
    assert_eq!(group_key(5, &write), (usize::MAX, Width::B1, WriteOp::SetBits));
}

#[test]
fn group_key_of_another_command_is_its_index() {
    let check = Command::Check(Check {
        width: Width::B1,
        cond: CheckCond::AnySet,
        address: 1,
        mask: 2,
        count: None,
    });
    assert_eq!(group_key(0, &Command::Nop), (0, Width::B4, WriteOp::Write));
    assert_eq!(group_key(7, &Command::Nop), (7, Width::B4, WriteOp::Write));
    assert_eq!(group_key(3, &check), (3, Width::B4, WriteOp::Write));
    assert_ne!(group_key(3, &check), group_key(4, &check));
}
