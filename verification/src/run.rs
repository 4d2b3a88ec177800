//! Runs: the maximal stretches of adjacent commands that share one record.
//!
//! A write merges with the write that follows it when both have the same width and the
//! same operation. Every other command stands alone. The block is its header followed by
//! one record per run, in the order of the commands.

use crate::command::{Command, Write};
use crate::record::{dcd_header_bytes, nop_record};
use vstd::prelude::*;

verus! {

/// Whether `next`, standing directly behind `prev`, goes into the record of `prev`:
/// both are writes, of one width and one operation.
pub open spec fn merges(prev: Command, next: Command) -> bool {
    match (prev, next) {
        (Command::Write(a), Command::Write(b)) => a.width == b.width && a.op == b.op,
        _ => false,
    }
}

/// The index behind the last command of the run that starts at `start`.
pub open spec fn run_end(commands: Seq<Command>, start: int) -> int
    recommends
        0 <= start < commands.len(),
    decreases commands.len() - start,
{
    if 0 <= start && start + 1 < commands.len() && merges(commands[start], commands[start + 1]) {
        run_end(commands, start + 1)
    } else {
        start + 1
    }
}

/// The payloads of the writes among `commands`, in their order.
pub open spec fn payloads(commands: Seq<Command>) -> Seq<u8>
    decreases commands.len(),
{
    if commands.len() == 0 {
        Seq::empty()
    } else {
        payloads(commands.drop_last()) + match commands.last() {
            Command::Write(write) => write.payload_bytes(),
            _ => Seq::empty(),
        }
    }
}

/// The record that one run becomes. The first command of the run decides its kind.
pub open spec fn run_record(run: Seq<Command>) -> Seq<u8>
    recommends
        run.len() > 0,
{
    match run[0] {
        Command::Nop => nop_record(),
        Command::Check(check) => check.record_bytes(),
        Command::Write(write) => write.header_bytes(run.len()) + payloads(run),
    }
}

/// The records of the runs of `commands` from `start` on, where `start` begins a run.
pub open spec fn records_from(commands: Seq<Command>, start: int) -> Seq<u8>
    decreases commands.len() - start,
    via records_from_decreases
{
    if 0 <= start < commands.len() {
        run_record(commands.subrange(start, run_end(commands, start))) + records_from(
            commands,
            run_end(commands, start),
        )
    } else {
        Seq::empty()
    }
}

#[via_fn]
proof fn records_from_decreases(commands: Seq<Command>, start: int) {
    if 0 <= start < commands.len() {
        lemma_run_end_bounds(commands, start);
    }
}

/// The sizes of the runs of `commands` from `start` on, where `start` begins a run.
pub open spec fn run_sizes(commands: Seq<Command>, start: int) -> Seq<usize>
    decreases commands.len() - start,
    via run_sizes_decreases
{
    if 0 <= start < commands.len() {
        seq![(run_end(commands, start) - start) as usize] + run_sizes(
            commands,
            run_end(commands, start),
        )
    } else {
        Seq::empty()
    }
}

#[via_fn]
proof fn run_sizes_decreases(commands: Seq<Command>, start: int) {
    if 0 <= start < commands.len() {
        lemma_run_end_bounds(commands, start);
    }
}

/// Length of the block that `commands` become: nothing for no commands, else the header
/// and the records.
pub open spec fn block_len(commands: Seq<Command>) -> nat {
    if commands.len() == 0 {
        0
    } else {
        4 + records_from(commands, 0).len()
    }
}

/// The block that `commands` become: nothing for no commands, else the header, which
/// says the length of the whole block, and the records.
pub open spec fn block_bytes(commands: Seq<Command>) -> Seq<u8>
    recommends
        block_len(commands) <= u16::MAX,
{
    if commands.len() == 0 {
        Seq::empty()
    } else {
        dcd_header_bytes(block_len(commands) as u16) + records_from(commands, 0)
    }
}

/// A run holds at least one command and ends within the list.
pub proof fn lemma_run_end_bounds(commands: Seq<Command>, start: int)
    requires
        0 <= start < commands.len(),
    ensures
        start < run_end(commands, start) <= commands.len(),
    decreases commands.len() - start,
{
    if start + 1 < commands.len() && merges(commands[start], commands[start + 1]) {
        lemma_run_end_bounds(commands, start + 1);
    }
}

/// Every command of a run but its first merges with the one before it, and with the
/// first of the run: a run of more than one command holds writes of one width and one
/// operation only.
pub proof fn lemma_run_is_uniform(commands: Seq<Command>, start: int, i: int)
    requires
        0 <= start < i < run_end(commands, start),
        start < commands.len(),
    ensures
        i < commands.len(),
        merges(commands[i - 1], commands[i]),
        merges(commands[start], commands[i]),
    decreases i - start,
{
    lemma_run_end_bounds(commands, start);
    if i > start + 1 {
        lemma_run_is_uniform(commands, start + 1, i);
    }
}

/// A run is maximal: the command behind it, if there is one, does not merge with the
/// last command of the run, nor with its first.
pub proof fn lemma_run_is_maximal(commands: Seq<Command>, start: int)
    requires
        0 <= start < commands.len(),
        run_end(commands, start) < commands.len(),
    ensures
        !merges(commands[run_end(commands, start) - 1], commands[run_end(commands, start)]),
        !merges(commands[start], commands[run_end(commands, start)]),
    decreases commands.len() - start,
{
    if start + 1 < commands.len() && merges(commands[start], commands[start + 1]) {
        lemma_run_is_maximal(commands, start + 1);
    }
}

/// The payloads of a stretch of writes take eight bytes each.
pub proof fn lemma_payloads_len(run: Seq<Command>)
    requires
        forall|i: int| 0 <= i < run.len() ==> run[i] is Write,
    ensures
        payloads(run).len() == 8 * run.len(),
    decreases run.len(),
{
    if run.len() > 0 {
        lemma_payloads_len(run.drop_last());
    }
}

/// Length of the record of the run that starts at `start`: four bytes for a `Nop`,
/// twelve or sixteen for a check, and a header with eight bytes per write for writes.
pub proof fn lemma_run_record_len(commands: Seq<Command>, start: int)
    requires
        0 <= start < commands.len(),
    ensures
        start < run_end(commands, start) <= commands.len(),
        run_record(commands.subrange(start, run_end(commands, start))).len() == match commands[start] {
            Command::Nop => 4,
            Command::Check(check) => check.spec_byte_len() as nat,
            Command::Write(_) => Write::spec_byte_len((run_end(commands, start) - start) as nat),
        },
        !(commands[start] is Write) ==> run_end(commands, start) == start + 1,
{
    lemma_run_end_bounds(commands, start);
    let end = run_end(commands, start);
    let run = commands.subrange(start, end);
    if commands[start] is Write {
        assert forall|i: int| 0 <= i < run.len() implies run[i] is Write by {
            if i > 0 {
                lemma_run_is_uniform(commands, start, start + i);
            }
        }
        lemma_payloads_len(run);
    }
}

} // verus!
