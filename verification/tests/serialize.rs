use imxrt_dcd::{serialize, Check, CheckCond, Command, Width, Write, WriteOp};

#[test]
fn serialize_simple() {
    let mut buf: Vec<u8> = vec![];
    let byte_len = serialize(
        &mut buf,
        &[
            Command::Nop,
            Command::Write(Write {
                width: Width::B4,
                op: WriteOp::Write,
                address: 0x01234567,
                value: 0xdeadbeef,
            }),
            Command::Check(Check {
                width: Width::B2,
                cond: CheckCond::AnySet,
                address: 0x89abcdef,
                mask: 0x55aa55aa,
                count: Some(16),
            }),
            Command::Check(Check {
                width: Width::B1,
                cond: CheckCond::AnyClear,
                address: 0x89abcdef,
                mask: 0x55aa55aa,
                count: None,
            }),
        ],
    )
    .expect("IO failure");
    assert_eq!(byte_len, 48);
    assert_eq!(
        &buf[0..48],
        &[
            // DCD header
            0xD2, 0, 48, 0x41,
            // nop
            0xC0, 0x00, 0x04, 0x00,
            // write
            0xCC, 0, 12, 0x04, 0x01, 0x23, 0x45, 0x67, 0xde, 0xad, 0xbe, 0xef,
            // check with count
            0xCF, 0, 16, 0x1a, 0x89, 0xab, 0xcd, 0xef, 0x55, 0xaa, 0x55, 0xaa, 0, 0, 0, 16,
            // check without
            0xCF, 0, 12, 0x09, 0x89, 0xab, 0xcd, 0xef, 0x55, 0xaa, 0x55, 0xaa,
        ]
    );
}

#[test]
fn serialize_merge() {
    let mut buf: Vec<u8> = Vec::with_capacity(1024);
    let byte_len = serialize(
        &mut buf,
        &[
            // the following 3 writes should be merged
            Command::Write(Write {
                width: Width::B4,
                op: WriteOp::Write,
                address: 0x01234567,
                value: 0xdeadbeef,
            }),
            Command::Write(Write {
                width: Width::B4,
                op: WriteOp::Write,
                address: 0x89abcdef,
                value: 0x13370000,
            }),
            Command::Write(Write {
                width: Width::B4,
                op: WriteOp::Write,
                address: 0x55aa55aa,
                value: 0xaa55aa55,
            }),
            Command::Nop,
            // this is not merged because of the NOP in the middle
            Command::Write(Write {
                width: Width::B4,
                op: WriteOp::Write,
                address: 0x89abcdef,
                value: 0x13370000,
            }),
            // this is not merged with the previous because they differ in width
            Command::Write(Write {
                width: Width::B2,
                op: WriteOp::Write,
                address: 0x89abcdef,
                value: 0x13370000,
            }),
            // this is not merged (ditto)
            Command::Write(Write {
                width: Width::B4,
                op: WriteOp::Write,
                address: 0x55aa55aa,
                value: 0xaa55aa55,
            }),
        ],
    )
    .expect("IO failure");
    assert_eq!(byte_len, 72);
    assert_eq!(
        &buf[0..72],
        &[
            // DCD header
            0xD2, 0, 72, 0x41,
            // write header
            0xCC, 0, 28, 0x04,
            // write
            0x01, 0x23, 0x45, 0x67, 0xde, 0xad, 0xbe, 0xef,
            // write
            0x89, 0xab, 0xcd, 0xef, 0x13, 0x37, 0x00, 0x00,
            // write
            0x55, 0xaa, 0x55, 0xaa, 0xaa, 0x55, 0xaa, 0x55,
            // nop
            0xC0, 0x00, 0x04, 0x00,
            // write header
            0xCC, 0, 12, 0x04,
            // write
            0x89, 0xab, 0xcd, 0xef, 0x13, 0x37, 0x00, 0x00,
            // write header
            0xCC, 0, 12, 0x02,
            // write
            0x89, 0xab, 0xcd, 0xef, 0x13, 0x37, 0x00, 0x00,
            // write header
            0xCC, 0, 12, 0x04,
            // write
            0x55, 0xaa, 0x55, 0xaa, 0xaa, 0x55, 0xaa, 0x55,
        ]
    );
}
