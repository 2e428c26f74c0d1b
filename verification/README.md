# z80

A Zilog Z80 processor core with a step-by-step trace viewer, written in
Verus: every executable function of the library carries a contract that
Verus proves.

## Layout

- `src/flags.rs`, `src/registers.rs`, `src/decode.rs`: flag bits, the
  register file and opcode fields.
- `src/bus.rs`: the `Bus` trait through which the processor reaches memory
  and I/O ports, and `TestBus`, 64 KiB of RAM with 256 ports.
- `src/machine.rs`, `src/semantics.rs`: the model of processor and bus as
  plain values, and `step_spec`, what each supported instruction does to it.
- `src/cpu.rs` and `src/cpu/`: the interpreter; `Cpu::step` is proved to
  follow `step_spec`.
- `src/laws.rs`: properties that span several instructions (round trips,
  PUSH/POP, CALL/RET, conditional jumps, CP, DAA, block moves).
- `src/trace.rs`: the disassembler and the text of one trace line, with
  changed values highlighted and affected ones underlined through `colored`.
- `app/main.rs`: the terminal program that loads a binary, steps through it
  on key presses and prints the trace.
- `tests/`: tests of the instructions, the helpers, the laws and the trace.
