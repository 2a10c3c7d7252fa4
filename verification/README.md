# nrf_unifying

A Logitech Unifying wireless keyboard on the on-chip 2.4 GHz radio of an
nRF52840. A host drives it over a USB serial line: it pairs, connects, types
text, sends raw keyboard reports, and takes firmware updates.

`src/` is the library, verified with Verus. It holds every decision that the
firmware makes, as state machines that name the next action and are told how it
went, and the pure functions that they use.

| module | what it holds |
| --- | --- |
| `text` | comparing bytes, hexadecimal and decimal numbers |
| `buffer` | byte strings of bounded length |
| `storage` | the log of pairing profiles in the flash |
| `esb_radio` | the radio driver: frames, addresses, transmissions with retries |
| `unifying_hal` | the millisecond clock and the keystroke cipher |
| `keymap` | characters and the keys that type them |
| `state` | the pairing and the connection |
| `replies` | the lines sent to the host, and their packets |
| `commands` | the lines sent by the host |
| `keystroke` | one keyboard report, with retries |
| `keyboard`, `keyboard_laws` | the keyboard commands, and what holds of all of them |
| `ota` | receiving a firmware image |
| `session`, `session_laws` | the serial session, and what holds of every one |
| `echo` | a stand-alone serial echo |

`tests/` runs the library on a host. `app/` is the firmware around it: USB,
flash, radio registers and the `rust_unifying` protocol stack.
