//! The encoder: from a list of commands to the bytes of a DCD block.

use crate::bytes::{append, be16_value};
use crate::command::{Command, Write};
use crate::group::{cut_at_key_changes, group_sizes, group_start, lemma_group_is_run};
use crate::laws::lemma_header_says_block_len;
use crate::record::{dcd_header, MAX_BYTE_LEN, MAX_GROUP_SIZE, NOP_HEADER};
use crate::run::{block_bytes, block_len, lemma_run_record_len, payloads, records_from};
use vstd::prelude::*;

verus! {

/// Why a list of commands was not encoded.
#[derive(Debug, Copy, Clone, PartialEq, Eq, Structural)]
pub enum SerializeError {
    /// The block would be longer than the 16-bit length field of its header can say.
    OversizedBlock,
}

impl SerializeError {
    /// What went wrong, in words.
    pub fn message(&self) -> (message: &'static str)
        ensures
            message@ == "DCD byte length too large"@,
    {
        "DCD byte length too large"
    }
}

/// Serializes given commands as a complete DCD block, appended to the sink `w`.
/// Consecutive write commands with the same width and op are automatically combined.
///
/// Returns the number of bytes written, which the header of the block says too. No
/// commands give no bytes, not even a header. A block that would be longer than 65535
/// bytes is refused, and the sink is left as it was.
pub fn serialize(w: &mut Vec<u8>, commands: &[Command]) -> (result: Result<usize, SerializeError>)
    ensures
        commands@.len() == 0 ==> result == Ok::<usize, SerializeError>(0) && final(w)@ == old(w)@,
        match result {
            Ok(n) => {
                &&& block_len(commands@) <= u16::MAX
                &&& n == block_len(commands@)
                &&& final(w)@ == old(w)@ + block_bytes(commands@)
                &&& final(w)@.len() == old(w)@.len() + n
                &&& n > 0 ==> be16_value(block_bytes(commands@).subrange(1, 3)) == n
            },
            Err(error) => {
                &&& block_len(commands@) > u16::MAX
                &&& error == SerializeError::OversizedBlock
                &&& final(w)@ == old(w)@
            },
        },
{
    if commands.len() == 0 {
        return Ok(0);
    }
    let ghost sunk = w@;
    let sizes = group_sizes(commands);
    // count num of bytes first
    let mut byte_len: usize = 4;  // DCD header
    let mut pos: usize = 0;
    let mut k: usize = 0;
    while k < sizes.len()
        invariant
            cut_at_key_changes(commands@, sizes@),
            k <= sizes.len(),
            pos == group_start(sizes@, k as int),
            pos <= commands.len(),
            byte_len <= MAX_BYTE_LEN,
            byte_len + records_from(commands@, pos as int).len() == block_len(commands@),
            commands.len() > 0,
            w@ == sunk,
        decreases sizes.len() - k,
    {
        let size = sizes[k];
        proof {
            lemma_group_is_run(commands@, sizes@, k as int);
            lemma_run_record_len(commands@, pos as int);
        }
        let record_len: usize = match &commands[pos] {
            Command::Nop => 4,
            Command::Check(check) => check.byte_len() as usize,
            Command::Write(_) => {
                if size > MAX_GROUP_SIZE {
                    return Err(SerializeError::OversizedBlock);
                }
                Write::byte_len(size) as usize
            },
        };
        if record_len > MAX_BYTE_LEN - byte_len {
            return Err(SerializeError::OversizedBlock);
        }
        byte_len = byte_len + record_len;
        pos = pos + size;
        k = k + 1;
    }
    append(w, &dcd_header(byte_len as u16));
    let mut pos: usize = 0;
    let mut k: usize = 0;
    while k < sizes.len()
        invariant
            cut_at_key_changes(commands@, sizes@),
            k <= sizes.len(),
            pos == group_start(sizes@, k as int),
            pos <= commands.len(),
            block_len(commands@) <= MAX_BYTE_LEN,
            records_from(commands@, pos as int).len() + 4 <= block_len(commands@),
            w@ + records_from(commands@, pos as int) == sunk + block_bytes(commands@),
            commands.len() > 0,
        decreases sizes.len() - k,
    {
        let size = sizes[k];
        let ghost written = w@;
        proof {
            lemma_group_is_run(commands@, sizes@, k as int);
            lemma_run_record_len(commands@, pos as int);
        }
        match &commands[pos] {
            Command::Nop => {
                append(w, &NOP_HEADER);
            },
            Command::Check(check) => {
                append(w, &check.header());
                if check.count.is_some() {
                    append(w, &check.payload_with_count());
                } else {
                    append(w, &check.payload());
                }
            },
            Command::Write(write) => {
                append(w, &write.header(size));
                let end = pos + size;
                let mut i: usize = pos;
                while i < end
                    invariant
                        pos <= i <= end <= commands.len(),
                        w@ == written + write.header_bytes(size as nat) + payloads(
                            commands@.subrange(pos as int, i as int),
                        ),
                    decreases end - i,
                {
                    assert(commands@.subrange(pos as int, i + 1).drop_last()
                        =~= commands@.subrange(pos as int, i as int));
                    if let Command::Write(write) = &commands[i] {
                        append(w, &write.payload());
                    }
                    i = i + 1;
                }
            },
        }
        pos = pos + size;
        k = k + 1;
    }
    proof {
        lemma_header_says_block_len(commands@);
    }
    Ok(byte_len)
}

} // verus!
