# penbridge

The verified core of a pen and touch bridge: a browser on a tablet sends pen
and touch events over socket.io, and the host injects them as Windows pointer
input.

- `src/` is the library, verified with Verus:
  - `bridge.rs` — the shared state (settings, pairing PIN, admitted sessions,
    touch contacts) and the decision taken on each client event;
  - `sessions.rs` — the set of admitted session ids;
  - `touch.rs` — the contacts that are down and the frames that report them;
  - `pen.rs` — the device state chosen for a pen event;
  - `text.rs` — decimal and hexadecimal text, the server URL, PIN parsing;
  - `laws.rs` — properties that span several operations.
- `app/` is the program around it: the web server, the settings window, the
  injection devices and the floating-point calibration.
- `tests/` runs the library on concrete values.
