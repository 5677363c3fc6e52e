//! Building blocks of an Erlang runtime (BEAM emulator): sizes and bit
//! arithmetic, BEAM file and compact-term decoding, the code loader, the
//! process scheduler and the opcode handlers, each with its contract.
pub mod defs;
pub mod sizes;
pub mod bitsize;
pub mod atoms;
pub mod term;
pub mod heap;
pub mod fail;
pub mod exc_type;
pub mod bin_reader;
pub mod compact_term;
pub mod genop;
pub mod load_time_structs;
pub mod beam_file;
pub mod atom_table;
pub mod module;
pub mod loader;
pub mod process;
pub mod scheduler;
pub mod vm;
pub mod bif;
pub mod opcodes;
pub mod op_checks;
pub mod data_reader;
pub mod command_line_args;
pub mod erl_args;
pub mod big;
pub mod op_binary;
