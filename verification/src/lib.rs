//! Encoder for the Device Configuration Data (DCD) block: the list of register writes
//! and polls that the boot ROM of an i.MX RT microcontroller carries out at power-on,
//! before any other code runs.
//!
//! [`serialize`] turns a list of [`Command`]s into the bytes of one block and appends
//! them to a buffer. Adjacent writes of the same width and operation are merged into
//! one record. A block has a 16-bit length field, so commands that would need more
//! than 65535 bytes are refused.
//!
//! The modules, from the ground up:
//! - [`command`]: the commands and the tags of their variants;
//! - [`bytes`]: big-endian byte order;
//! - [`record`]: the layout of the block header and of each kind of record;
//! - [`run`]: which commands share a record, and the bytes that a list of commands
//!   stands for; every contract of the encoder is stated over this model;
//! - [`group`]: how the runs are found;
//! - [`encode`]: the encoder;
//! - [`laws`]: what holds of every block.

pub mod bytes;
pub mod command;
pub mod encode;
pub mod group;
pub mod laws;
pub mod record;
pub mod run;

pub use command::{Check, CheckCond, Command, Width, Write, WriteOp};
pub use encode::{serialize, SerializeError};
