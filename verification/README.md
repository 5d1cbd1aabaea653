# beancell-holo

Firmware for an ESP32-C3 board that drives a rack-and-pinion motor with limit
switches and a quadrature encoder, controls a spinning LED display over its
Wi-Fi access point, and offers a command line on USB Serial/JTAG and UART0.

## Layout

- `src/` — the verified library (Verus):
  - `cli/` — argument splitting, command routing and help, the line editor
    and its history, line-ending normalization, and the plans of the `echo`,
    `reboot`, `motor` and `display` commands;
  - `display/` — hex file names, JSON field scanning, HTTP requests and the
    reply reader, WebSocket frames, the display's status and the requests
    each display command makes, and finding the display's access point;
  - `motor/` — quadrature decoding and the encoder counters, and the discrete
    control state: homing, commands, and the limit guard;
  - `wifi/` — status, scan results and their reports, the saved-credential
    records, the control decisions, and the plans of the `wifi` command.
- `tests/` — tests of the library on concrete values.
- `app/` — the firmware around the library: chip and radio bring-up, the
  tasks, sockets, flash storage, and the floating-point motor control.

## Commands

`help`, `echo <message>`, `reboot [normal|bootloader]`, `motor ...`,
`wifi ...`, `display ...`. Arguments may be quoted with `"` to hold spaces,
and `\"` stands for a literal quote.

## Bounded collections

The firmware keeps its lines, argument lists, scan results, file and setting
lists in fixed-capacity collections. `heapless::Vec` and `heapless::String`
cannot be declared to the verifier as they stand (their storage type is
private to that crate), and each of their operations used here (push, insert,
remove, length, the text) has a behaviour of a few lines. So in `src/` they
are `Vec` and `String`, with the capacity written into each type's invariant
and checked before every insertion: a push that would not fit is refused or
the item is left out, exactly as a bounded push that reports a full
collection. The contracts state these bounds (for example at most 8
arguments of at most 96 bytes, 16 history lines within 256 bytes, the scan
and file list limits), so no heap growth beyond them can happen.
