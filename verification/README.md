# erlangrt

Parts of an Erlang runtime (a BEAM emulator), written in Verus: each
function carries a contract that Verus proves.

- `src/` is the library. Terms and the heap (`term`, `heap`), sizes
  (`sizes`, `bitsize`), the atom table, BEAM file reading (`bin_reader`,
  `beam_file`, `compact_term`) and the code loader (`loader`, `module`),
  processes and the scheduler (`process`, `scheduler`, `vm`), built-in
  functions (`bif`), opcode handlers (`opcodes`, `op_checks`, `op_binary`),
  big integers (`big`) and the start arguments of the VM and of the common
  test runner (`command_line_args`, `erl_args`).
- Laws that span several functions are public proof functions whose names
  begin with `law_`.
- `tests/` runs the library on concrete values.
- `app/` is the command-line front end: it reads files and the command line
  and prints, around the library.

The `compress` crate inflates the literal table of BEAM files and `num`
gives the sign and magnitude of big integers; both are called through small
trusted functions whose contracts say what the crates' sources show. The
zlib decoder of `compress` panics on some malformed streams, so reading a
BEAM file requires that its literal table is a stream the decoder returns
on; that set of streams is named, not described.
