# ra4_hal

Verified drivers for the Renesas RA4M1: clock set-up and the USB full-speed device controller
(USBFS), written in Verus.

## Layout

- `src/mmio.rs` is the boundary to the chip. All register accesses, waits and shared cells go through
  `Mmio`, which keeps a ghost record of them. `Instance` is the trait that a chip implements.
- `src/summary.rs` says what a record adds up to: the interrupt enable masks last published and last
  programmed, whether critical sections are balanced and guard the latched event, the register
  protection, and the latch between interrupt handler and bus.
- `src/clocks.rs` sets the clocks up and works out the resulting frequencies.
- `src/usb/regs.rs` holds the register sequences, `src/usb/driver.rs` the driver and its interrupt
  handler, `src/usb/types.rs` events and state, `src/usb/endpoint.rs` endpoint addresses.
- `src/usb/bus.rs` is the bus that a USB stack builds on, with one module per operation below
  `src/usb/bus/`. `laws.rs`, `attentive.rs` and `payload.rs` there state what holds across
  operations, and `src/usb/latch.rs` what happens to an event between interrupt handler and bus.
- `src/cdc.rs` is what the serial port program is made of: PLL bring-up, status reports, echo.
- `app/` is that program: the registers of the real chip, the binding to the `usb-device` stack and
  the main loop.
- `tests/` run the library against a simulated chip and hold its values against the register
  definitions of `ra4m1-ctpac` and the types of `usb-device`.

## How to read the contracts

What a register read returns is up to the hardware. A contract therefore speaks of the whole record of
a run: `log` is what has happened so far, `run` is any record that begins with it, and the value that
the next read returns is the one that stands in `run` at position `log.len()`. A function named
`.._log` or `.._step` gives, for every such `run`, the exact accesses that an operation makes, the
state that it leaves and the result that it returns.

Loops that wait for the hardware without a bound are single steps of the record (`wait8`, `wait16`).
`Bus::poll` first takes over what the interrupt handler has latched, until nothing is pending
(`drain_log`). It counts the events that it takes over in 64 bits, and goes on to answer them when
the count is full; `law_drain_limit_is_no_limit` states that the count decides nothing before that.
