# virt_tdp

Runs guests as Intel TDX **L2 virtual machines** from a Linux process inside an
L1 trust domain.

- `src/` is the library, verified with Verus. It decides and never performs I/O:
  a function that needs a TDCALL returns the register image to issue, and a
  second function takes the reply. Loops that alternate outside work and
  decisions are step functions from state and event to next state and action.
- `tests/` runs the library on concrete values.
- `app/` is the monitor around it: the `/dev/dstack_tdcall` device, mappings,
  locks, logging and the run loop. The APIC model, the chipset, the instruction
  emulator, guest memory and the VM clock plug in through the traits in
  `app/ports.rs`.

The functions named `law_*` state what holds of the library as a whole: that a
revoked page is gone, that an injected event is delivered exactly once, that
registers read back, that what is published to hardware agrees with itself.

Three functions are trusted rather than proved, and each says so where it
stands: executing CPUID, reading the clock, and measuring the time since.
