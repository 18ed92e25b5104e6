# mcan_bus

Bus configuration and interrupt ownership for an M_CAN CAN peripheral,
verified with Verus.

- `src/config.rs`: bit timing and the handling of frames no filter matches.
- `src/interrupt.rs`: interrupts, sets of them as the interrupt registers
  hold them, and iteration over a set.
- `src/control.rs`: which interrupts are enabled and on which line, and who
  owns each of them. The functions take the register values read from the
  peripheral and give back the writes to make, in order.
- `src/bits.rs`: single-bit access through the `bitfield` crate.
- `app/`: the register access around the library.
- `tests/`: the tests, run against the compiled library.
