# vm8

Emulation of 8-bit and 16-bit microprocessors (the W65C02 and the W65C816, and the buses of
the Z80) and of the memories and buses they talk to, written in Verus: each public function
states what it does in `requires`/`ensures` clauses over a mathematical model of its types, and
the library is proved against those contracts.

Layout:

- `src/bus.rs`, `src/bus/`: generic buses, addresses, byte orders (through `byteorder`) and
  memory banks that mirror their content above the largest power of two they hold.
- `src/cpu/w65c02/`: the W65C02: decoding, addressing modes and every instruction, each with
  the state it leaves.
- `src/cpu/w65c816.rs`, `src/cpu/w65c816/`: the W65C816: registers, 24-bit addresses with their
  wrapping, addressing modes, the instructions it implements, and processor states and flag
  expectations written as text.
- `src/cpu/z80.rs`: the memory and I/O buses of the Z80.
- `src/cpu/processor.rs`: execution plans and their completion.
- `src/clock.rs`: the integer decisions of a real-time clock.
- `src/utils/`: words and bytes, packed decimal arithmetic, hexadecimal text, text pieces.
- `app/`: the clocks themselves, which compute frequencies in floating point and sleep.
- `tests/`: scenarios, with the text fixture that describes bus contents.
