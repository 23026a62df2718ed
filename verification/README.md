# simple_dmg

A hobby Game Boy (DMG) emulator core, verified with Verus.

- `src/` is the verified library:
  - `flags.rs`: the F register and its four flags;
  - `registers.rs`: the register file;
  - `io.rs`: the memory-mapped I/O registers that are implemented;
  - `memory_map.rs`: addresses and sizes of the memory regions;
  - `dmg.rs`: the machine, its abstract state (`DmgState`), and the memory
    map through which the CPU reads and writes;
  - `operands.rs`: the register operands instructions name by number;
  - `instructions.rs`: the implemented instructions, each specified as a
    function of the abstract state;
  - `execute.rs`: decoding, one round of the fetch/execute loop, a bounded
    run of it, and `can_step`, which tells whether the next round stays in
    the implemented parts of the machine;
  - `display.rs`: the background/window scanline renderer;
  - `laws.rs`: properties that span operations (a read gives back a write,
    PUSH/POP and CALL/RET round trips, what a run never changes, ...);
  - `bitops.rs`: bit-level facts used by the proofs.
- `app/` is the program: it reads the boot ROM and the game ROM, runs the
  machine, and shows the background layer in a raylib window.
- `tests/` runs the library on concrete programs and values.

Where the emulator does not implement a part of the hardware (an opcode, a
memory region), the library's contracts exclude it: each step is stated as
`None` there, and the program checks `can_step` before each step.
