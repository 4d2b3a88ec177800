//! Grouping of adjacent commands by key, which finds the runs.

use crate::command::{Command, Width, WriteOp};
use crate::run::{
    lemma_run_end_bounds, lemma_run_is_maximal, lemma_run_is_uniform, merges, run_end, run_sizes,
};
use itertools::Itertools;
use vstd::prelude::*;

verus! {

/// The key of the command at `index`: for a write its width and operation, under an
/// index that no command has; for any other command its own index, so that it shares
/// its key with no neighbour.
pub open spec fn spec_group_key(index: usize, command: &Command) -> (usize, Width, WriteOp) {
    match command {
        Command::Write(write) => (usize::MAX, write.width, write.op),
        _ => (index, Width::B4, WriteOp::Write),
    }
}

/// The key by which adjacent commands are grouped: commands that follow one another
/// with one key go into one record.
#[verifier::when_used_as_spec(spec_group_key)]
pub fn group_key(index: usize, command: &Command) -> (key: (usize, Width, WriteOp))
    ensures
        key == spec_group_key(index, command),
{
    match command {
        Command::Write(write) => (usize::MAX, write.width, write.op),
        _ => (index, Width::default(), WriteOp::default()),
    }
}

/// The key of the command at index `i` of `commands`.
pub open spec fn key_at(commands: Seq<Command>, i: int) -> (usize, Width, WriteOp) {
    spec_group_key(i as usize, &commands[i])
}

/// The index at which group `k` starts, where the groups have the sizes `sizes` and lie
/// end to end: the sum of the sizes before it.
pub open spec fn group_start(sizes: Seq<usize>, k: int) -> int
    decreases k,
{
    if k <= 0 {
        0
    } else {
        group_start(sizes, k - 1) + sizes[k - 1]
    }
}

/// Whether groups of the sizes `sizes`, end to end, are `commands` cut exactly where the
/// key changes from one command to the next: they cover all commands, none is empty,
/// inside a group the key stays, and between two groups it changes.
pub open spec fn cut_at_key_changes(commands: Seq<Command>, sizes: Seq<usize>) -> bool {
    &&& group_start(sizes, sizes.len() as int) == commands.len()
    &&& forall|k: int| 0 <= k < sizes.len() ==> #[trigger] sizes[k] >= 1
    &&& forall|k: int, i: int|
        #![trigger group_start(sizes, k), key_at(commands, i)]
        0 <= k < sizes.len() && group_start(sizes, k) < i < group_start(sizes, k) + sizes[k]
            ==> key_at(commands, i - 1) == key_at(commands, i)
    &&& forall|k: int|
        0 < k < sizes.len() ==> key_at(commands, #[trigger] group_start(sizes, k) - 1) != key_at(
            commands,
            group_start(sizes, k),
        )
}

/// Sizes of the groups into which `Itertools::group_by` puts `commands` under
/// [`group_key`], in order.
///
/// Believed, not proved: `group_by` walks the commands in order, compares the key of
/// each with the key of the one before it, and starts a new group where the two differ
/// and nowhere else; so every command is in one group, and no group is empty.
#[verifier::external_body]
pub(crate) fn group_sizes(commands: &[Command]) -> (sizes: Vec<usize>)
    ensures
        cut_at_key_changes(commands@, sizes@),
{
    let groups =
        commands.iter().enumerate().group_by(|&(index, command)| group_key(index, command));
    let mut sizes = Vec::new();
    for (_, group) in &groups {
        sizes.push(group.count());
    }
    sizes
}

/// Two adjacent commands have one key exactly if the second merges with the first.
pub proof fn lemma_key_stays_iff_merges(commands: Seq<Command>, i: int)
    requires
        0 < i < commands.len() <= usize::MAX,
    ensures
        key_at(commands, i - 1) == key_at(commands, i) <==> merges(commands[i - 1], commands[i]),
{
}

/// The start of a group grows with the group's number.
pub proof fn lemma_group_start_grows(sizes: Seq<usize>, k: int, m: int)
    requires
        0 <= k <= m,
    ensures
        0 <= group_start(sizes, k) <= group_start(sizes, m),
    decreases m,
{
    if k < m {
        lemma_group_start_grows(sizes, k, m - 1);
    } else if 0 < m {
        lemma_group_start_grows(sizes, k - 1, m - 1);
    }
}

/// Within a group, the run that starts at any of its commands ends where the group ends.
proof fn lemma_run_ends_with_group(commands: Seq<Command>, sizes: Seq<usize>, k: int, i: int)
    requires
        commands.len() <= usize::MAX,
        cut_at_key_changes(commands, sizes),
        0 <= k < sizes.len(),
        group_start(sizes, k) <= i < group_start(sizes, k + 1),
    ensures
        run_end(commands, i) == group_start(sizes, k + 1),
    decreases group_start(sizes, k + 1) - i,
{
    let end = group_start(sizes, k + 1);
    lemma_group_start_grows(sizes, k, k);
    lemma_group_start_grows(sizes, k + 1, sizes.len() as int);
    if i + 1 < end {
        lemma_key_stays_iff_merges(commands, i + 1);
        lemma_run_ends_with_group(commands, sizes, k, i + 1);
    } else if end < commands.len() {
        lemma_key_stays_iff_merges(commands, end);
    }
}

/// The groups are the runs: group `k` starts inside the list, and the run that starts
/// there ends where group `k + 1` starts.
pub proof fn lemma_group_is_run(commands: Seq<Command>, sizes: Seq<usize>, k: int)
    requires
        commands.len() <= usize::MAX,
        cut_at_key_changes(commands, sizes),
        0 <= k < sizes.len(),
    ensures
        0 <= group_start(sizes, k) < commands.len(),
        group_start(sizes, k + 1) == group_start(sizes, k) + sizes[k],
        group_start(sizes, k + 1) <= commands.len(),
        run_end(commands, group_start(sizes, k)) == group_start(sizes, k + 1),
{
    lemma_group_start_grows(sizes, k, k);
    lemma_group_start_grows(sizes, k + 1, sizes.len() as int);
    lemma_run_ends_with_group(commands, sizes, k, group_start(sizes, k));
}

/// From group `k` on, sizes that cut a list at its key changes are the sizes of its runs.
proof fn lemma_cut_is_run_sizes_from(commands: Seq<Command>, sizes: Seq<usize>, k: int)
    requires
        commands.len() <= usize::MAX,
        cut_at_key_changes(commands, sizes),
        0 <= k <= sizes.len(),
    ensures
        sizes.skip(k) == run_sizes(commands, group_start(sizes, k)),
    decreases sizes.len() - k,
{
    if k < sizes.len() {
        lemma_group_is_run(commands, sizes, k);
        lemma_cut_is_run_sizes_from(commands, sizes, k + 1);
    } else {
        assert(sizes.skip(k) =~= Seq::<usize>::empty());
    }
}

/// Nothing but the sizes of the runs cuts a list at its key changes: what is believed
/// of the grouping leaves no choice.
pub proof fn lemma_cut_is_run_sizes(commands: Seq<Command>, sizes: Seq<usize>)
    requires
        commands.len() <= usize::MAX,
        cut_at_key_changes(commands, sizes),
    ensures
        sizes == run_sizes(commands, 0),
{
    lemma_cut_is_run_sizes_from(commands, sizes, 0);
}

/// A group put in front moves the start of every later group by its size.
proof fn lemma_group_start_behind(size: usize, rest: Seq<usize>, k: int)
    requires
        0 <= k <= rest.len(),
    ensures
        group_start(seq![size] + rest, k + 1) == size + group_start(rest, k),
    decreases k,
{
    let sizes = seq![size] + rest;
    if k == 0 {
        assert(group_start(sizes, 1) == group_start(sizes, 0) + sizes[0]);
    } else {
        lemma_group_start_behind(size, rest, k - 1);
    }
}

/// Whether groups of the sizes `sizes`, end to end from `start` on, are the commands
/// from `start` on, cut exactly where the key changes.
spec fn cut_from(commands: Seq<Command>, start: int, sizes: Seq<usize>) -> bool {
    &&& start + group_start(sizes, sizes.len() as int) == commands.len()
    &&& forall|k: int| 0 <= k < sizes.len() ==> #[trigger] sizes[k] >= 1
    &&& forall|k: int, i: int|
        #![trigger group_start(sizes, k), key_at(commands, i)]
        0 <= k < sizes.len() && start + group_start(sizes, k) < i < start + group_start(sizes, k)
            + sizes[k] ==> key_at(commands, i - 1) == key_at(commands, i)
    &&& forall|k: int|
        0 < k < sizes.len() ==> key_at(commands, start + #[trigger] group_start(sizes, k) - 1)
            != key_at(commands, start + group_start(sizes, k))
}

/// The sizes of the runs from the start of a run on cut the commands from there on at
/// their key changes.
proof fn lemma_run_sizes_cut_from(commands: Seq<Command>, start: int)
    requires
        commands.len() <= usize::MAX,
        0 <= start <= commands.len(),
    ensures
        cut_from(commands, start, run_sizes(commands, start)),
    decreases commands.len() - start,
{
    let sizes = run_sizes(commands, start);
    if start < commands.len() {
        lemma_run_end_bounds(commands, start);
        let end = run_end(commands, start);
        let size = (end - start) as usize;
        let rest = run_sizes(commands, end);
        lemma_run_sizes_cut_from(commands, end);
        lemma_group_start_behind(size, rest, rest.len() as int);
        assert forall|k: int, i: int|
            #![trigger group_start(sizes, k), key_at(commands, i)]
            0 <= k < sizes.len() && start + group_start(sizes, k) < i < start + group_start(
                sizes,
                k,
            ) + sizes[k] implies key_at(commands, i - 1) == key_at(commands, i) by {
            if k == 0 {
                lemma_run_is_uniform(commands, start, i);
                lemma_key_stays_iff_merges(commands, i);
            } else {
                lemma_group_start_behind(size, rest, k - 1);
            }
        }
        assert forall|k: int| 0 < k < sizes.len() implies key_at(
            commands,
            start + #[trigger] group_start(sizes, k) - 1,
        ) != key_at(commands, start + group_start(sizes, k)) by {
            lemma_group_start_behind(size, rest, k - 1);
            if k == 1 {
                lemma_group_start_grows(rest, 1, rest.len() as int);
                lemma_run_is_maximal(commands, start);
                lemma_key_stays_iff_merges(commands, end);
            }
        }
    }
}

/// The sizes of the runs do cut a list at its key changes: what is believed of the
/// grouping can be met, whatever the commands.
pub proof fn lemma_run_sizes_cut(commands: Seq<Command>)
    requires
        commands.len() <= usize::MAX,
    ensures
        cut_at_key_changes(commands, run_sizes(commands, 0)),
{
    lemma_run_sizes_cut_from(commands, 0);
}

} // verus!
