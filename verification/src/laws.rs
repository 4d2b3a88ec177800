//! What holds of every block, stated over the model of the encoding.

use crate::bytes::{be16, be16_value};
use crate::command::{Check, Command, Write};
use crate::record::{dcd_header_bytes, nop_record};
use crate::run::{
    block_bytes, block_len, lemma_run_end_bounds, merges, payloads, records_from, run_end,
    run_record,
};
use vstd::prelude::*;

verus! {

/// Two tags in disjoint bits, OR-ed, are their sum, and each can be read back.
proof fn lemma_disjoint_or(width_tag: u8, kind_tag: u8)
    by (bit_vector)
    requires
        width_tag == 1 || width_tag == 2 || width_tag == 4,
        kind_tag == 0 || kind_tag == 8 || kind_tag == 16 || kind_tag == 24,
    ensures
        width_tag | kind_tag == width_tag + kind_tag,
        (width_tag | kind_tag) & 0b00_111 == width_tag,
        (width_tag | kind_tag) & 0b11_000 == kind_tag,
{
}

/// The flag byte of a write loses nothing: it is the sum of the two tags, its bits
/// [2:0] are the width's tag and its bits [4:3] the operation's.
pub proof fn lemma_write_flags(write: Write)
    ensures
        write.spec_flags() == write.width.tag() + write.op.tag(),
        write.spec_flags() & 0b00_111 == write.width.tag(),
        write.spec_flags() & 0b11_000 == write.op.tag(),
{
    lemma_disjoint_or(write.width.tag(), write.op.tag());
}

/// The flag byte of a check loses nothing: it is the sum of the two tags, its bits
/// [2:0] are the width's tag and its bits [4:3] the condition's.
pub proof fn lemma_check_flags(check: Check)
    ensures
        check.spec_flags() == check.width.tag() + check.cond.tag(),
        check.spec_flags() & 0b00_111 == check.width.tag(),
        check.spec_flags() & 0b11_000 == check.cond.tag(),
{
    lemma_disjoint_or(check.width.tag(), check.cond.tag());
}

/// Commands make no bytes exactly if there are none: no commands give nothing, not even
/// a header, and any command gives at least a header and a record.
pub proof fn lemma_no_bytes_iff_no_commands(commands: Seq<Command>)
    ensures
        commands.len() == 0 ==> block_len(commands) == 0 && block_bytes(commands) == Seq::<
            u8,
        >::empty(),
        commands.len() > 0 ==> block_len(commands) >= 8,
{
    if commands.len() > 0 {
        lemma_run_end_bounds(commands, 0);
        lemma_record_is_not_empty(commands.subrange(0, run_end(commands, 0)));
    }
}

/// A block that fits starts with its header, and the length that the header says is
/// the length of the block.
pub proof fn lemma_header_says_block_len(commands: Seq<Command>)
    requires
        commands.len() > 0,
        block_len(commands) <= u16::MAX,
    ensures
        block_bytes(commands).len() == block_len(commands),
        block_bytes(commands).len() >= 8,
        block_bytes(commands)[0] == 0xD2,
        be16_value(block_bytes(commands).subrange(1, 3)) == block_len(commands),
        block_bytes(commands)[3] == 0x41,
{
    let n = block_len(commands) as u16;
    lemma_run_end_bounds(commands, 0);
    lemma_record_is_not_empty(commands.subrange(0, run_end(commands, 0)));
}

/// Every record is at least its four bytes of header.
pub proof fn lemma_record_is_not_empty(run: Seq<Command>)
    ensures
        run_record(run).len() >= 4,
{
}

/// The record of a check is sixteen bytes with a poll count, four of header and twelve
/// of payload, and twelve bytes without, four and eight; its header says so.
pub proof fn lemma_check_record_len(check: Check)
    ensures
        check.header_bytes().len() == 4,
        check.count is Some ==> check.record_bytes().len() == 16,
        check.count is None ==> check.record_bytes().len() == 12,
        be16_value(check.header_bytes().subrange(1, 3)) == check.record_bytes().len(),
{
}

/// In the back part of a list a run ends where it ends in that part alone.
proof fn lemma_run_end_in_back(front: Seq<Command>, back: Seq<Command>, j: int)
    requires
        0 <= j < back.len(),
    ensures
        run_end(front + back, front.len() + j) == front.len() + run_end(back, j),
    decreases back.len() - j,
{
    let all = front + back;
    if j + 1 < back.len() {
        if merges(back[j], back[j + 1]) {
            lemma_run_end_in_back(front, back, j + 1);
        }
    }
}

/// The records of the back part of a list are those of that part alone.
proof fn lemma_records_in_back(front: Seq<Command>, back: Seq<Command>, j: int)
    requires
        0 <= j <= back.len(),
    ensures
        records_from(front + back, front.len() + j) == records_from(back, j),
    decreases back.len() - j,
{
    let all = front + back;
    if j < back.len() {
        lemma_run_end_bounds(back, j);
        lemma_run_end_in_back(front, back, j);
        let end = run_end(back, j);
        assert(all.subrange(front.len() + j, front.len() + end) =~= back.subrange(j, end));
        lemma_records_in_back(front, back, end);
    }
}

/// Where the back part does not merge with the front part, a run in the front part
/// ends where it ends in that part alone.
proof fn lemma_run_end_in_front(front: Seq<Command>, back: Seq<Command>, i: int)
    requires
        0 <= i < front.len(),
        back.len() > 0 ==> !merges(front.last(), back[0]),
    ensures
        run_end(front + back, i) == run_end(front, i),
    decreases front.len() - i,
{
    let all = front + back;
    if i + 1 < front.len() {
        if merges(front[i], front[i + 1]) {
            lemma_run_end_in_front(front, back, i + 1);
        }
    } else if back.len() > 0 {
    }
}

/// Where the back part does not merge with the front part, the records from the start
/// of a run in the front part on are those of the front part, then those of the back.
proof fn lemma_records_in_front(front: Seq<Command>, back: Seq<Command>, i: int)
    requires
        0 <= i <= front.len(),
        back.len() > 0 ==> !merges(front.last(), back[0]),
    ensures
        records_from(front + back, i) == records_from(front, i) + records_from(back, 0),
    decreases front.len() - i,
{
    let all = front + back;
    if i < front.len() {
        lemma_run_end_bounds(front, i);
        lemma_run_end_in_front(front, back, i);
        let end = run_end(front, i);
        assert(all.subrange(i, end) =~= front.subrange(i, end));
        lemma_records_in_front(front, back, end);
    } else {
        lemma_records_in_back(front, back, 0);
    }
}

/// A list can be cut wherever a command does not merge with the one before it: the
/// records of the whole are the records of the front part, then those of the back part.
/// So whatever stands between two writes and merges with neither keeps them in
/// separate records.
pub proof fn lemma_records_of_parts(front: Seq<Command>, back: Seq<Command>)
    requires
        front.len() > 0 && back.len() > 0 ==> !merges(front.last(), back[0]),
    ensures
        records_from(front + back, 0) == records_from(front, 0) + records_from(back, 0),
{
    if front.len() > 0 {
        lemma_records_in_front(front, back, 0);
    }
}

/// A write alone has its own payload for payloads.
proof fn lemma_payloads_of_one(write: Write)
    ensures
        payloads(seq![Command::Write(write)]) == write.payload_bytes(),
{
    let one = seq![Command::Write(write)];
    assert(payloads(one.drop_last()) =~= Seq::<u8>::empty());
}

/// One command alone is one run, and its record is all the records there are.
pub proof fn lemma_single_command(command: Command)
    ensures
        run_end(seq![command], 0) == 1,
        records_from(seq![command], 0) == run_record(seq![command]),
        run_record(seq![command]) == match command {
            Command::Nop => nop_record(),
            Command::Check(check) => check.record_bytes(),
            Command::Write(write) => write.header_bytes(1) + write.payload_bytes(),
        },
{
    let one = seq![command];
    assert(one.subrange(0, 1) =~= one);
    assert(records_from(one, 1) =~= Seq::<u8>::empty());
    if let Command::Write(write) = command {
        lemma_payloads_of_one(write);
    }
}

/// Two adjacent writes of one width and one operation share a single record: one
/// header, which says the length twenty and holds the flags of both, then the address
/// and value of the first and the address and value of the second.
pub proof fn lemma_like_writes_share_a_record(a: Write, b: Write)
    requires
        a.width == b.width,
        a.op == b.op,
    ensures
        run_end(seq![Command::Write(a), Command::Write(b)], 0) == 2,
        records_from(seq![Command::Write(a), Command::Write(b)], 0) == a.header_bytes(2)
            + a.payload_bytes() + b.payload_bytes(),
        records_from(seq![Command::Write(a), Command::Write(b)], 0).len() == 20,
        a.header_bytes(2) == seq![0xCCu8, 0u8, 20u8, a.spec_flags()],
        a.spec_flags() == b.spec_flags(),
{
    let pair = seq![Command::Write(a), Command::Write(b)];
    assert(run_end(pair, 1) == 2);
    assert(pair.subrange(0, 2) =~= pair);
    assert(records_from(pair, 2) =~= Seq::<u8>::empty());
    assert(pair.drop_last() =~= seq![Command::Write(a)]);
    lemma_payloads_of_one(a);
}

/// Two adjacent writes that differ in width or in operation get a record each.
pub proof fn lemma_unlike_writes_split(a: Write, b: Write)
    requires
        a.width != b.width || a.op != b.op,
    ensures
        records_from(seq![Command::Write(a), Command::Write(b)], 0) == (a.header_bytes(1)
            + a.payload_bytes()) + (b.header_bytes(1) + b.payload_bytes()),
        a.header_bytes(1) == seq![0xCCu8, 0u8, 12u8, a.spec_flags()],
        b.header_bytes(1) == seq![0xCCu8, 0u8, 12u8, b.spec_flags()],
        a.spec_flags() != b.spec_flags(),
{
    let front = seq![Command::Write(a)];
    let back = seq![Command::Write(b)];
    assert(front + back =~= seq![Command::Write(a), Command::Write(b)]);
    lemma_records_of_parts(front, back);
    lemma_single_command(Command::Write(a));
    lemma_single_command(Command::Write(b));
    lemma_write_flags(a);
    lemma_write_flags(b);
}

/// A command between two writes of one width and one operation, which is no such write
/// itself, forces them into two records, with its own record between them.
pub proof fn lemma_command_between_splits(a: Write, between: Command, b: Write)
    requires
        a.width == b.width,
        a.op == b.op,
        !merges(Command::Write(a), between),
    ensures
        records_from(seq![Command::Write(a), between, Command::Write(b)], 0) == (a.header_bytes(1)
            + a.payload_bytes()) + run_record(seq![between]) + (b.header_bytes(1)
            + b.payload_bytes()),
{
    let front = seq![Command::Write(a)];
    let middle = seq![between];
    let back = seq![Command::Write(b)];
    assert(front + (middle + back) =~= seq![Command::Write(a), between, Command::Write(b)]);
    lemma_records_of_parts(middle, back);
    lemma_records_of_parts(front, middle + back);
    lemma_single_command(Command::Write(a));
    lemma_single_command(between);
    lemma_single_command(Command::Write(b));
}

} // verus!
