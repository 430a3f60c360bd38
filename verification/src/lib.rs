//! Support for running CLEO scripts inside a game: a check of compiled
//! scripts for compatibility, with the decoding and exploration that the
//! check rests on, and the rules of the parts that surround it.
//!
//! A compiled script is a stream of instructions. Each is an opcode word
//! followed by operands, and how many operands follow is known only from the
//! schema of the command that the opcode selects.
//!
//! - [`stream`] reads little-endian fields out of a script's bytes.
//! - [`value`] decodes one operand by its type tag.
//! - [`command`] holds the command schemas and the table that finds them.
//! - [`instr`] decodes one instruction and tells where execution may go on
//!   after it.
//! - [`disasm`] explores what a script can reach from its entry.
//! - [`check`] gives the verdict on what was found.
//! - [`cheats`] holds the host's cheats and the queue that sets them off.
//! - [`language`] reads the lines of language files.
//! - [`files`] tells the kinds of resources apart.
//! - [`show`] writes numbers, operands and instructions out as text.
//! - [`scan`] and [`chars`] serve the texts of the other modules.
//!
//! Nothing here reads a file, touches the host's memory or keeps state
//! between calls: what is needed is handed in, and what is to be done is
//! handed back.

pub mod chars;
pub mod cheats;
pub mod check;
pub mod command;
pub mod disasm;
pub mod files;
pub mod instr;
pub mod language;
pub mod scan;
pub mod show;
pub mod stream;
pub mod value;
