# gbc

A Game Boy / Game Boy Color CPU core in Verus: the register file, the full
instruction set (including the CB-prefixed table), interrupt dispatch, HALT
and its bug, the DIV/TIMA timer, STAT/LY timing, and the background, window
and sprite renderer, each proved against a model of the machine.

- `src/model.rs`, `src/memory.rs`: the abstract machine state and memory bus.
- `src/isa.rs`: instructions and interrupts as state transitions, decoded by
  opcode bit fields; `src/cpu/instructions.rs` is proved to implement them.
- `src/timer.rs`, `src/video.rs`, `src/sprites.rs`, `src/machine.rs`: the
  timer, the PPU, sprite priority, and one whole step.
- `src/laws.rs` and the `law_*` proof functions: properties across operations
  (read-after-write, push/pop, call/return, interrupt and RETI, EI delay
  and DI cancelling it, the F low nibble, LY cycling, STAT bits, timer cycle
  splitting).
- `src/decimal.rs`: packed BCD, and DAA after an addition or subtraction of
  BCD bytes giving the decimal result with its carry or borrow.
- `app/`: host glue (trace mode from the environment, trace logging).
