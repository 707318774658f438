# widgets

The verified core of a widget host for a 64×64 LED matrix. Small
sandboxed programs ("widgets") draw into their own area of the display,
arm timeouts, make HTTP requests and read their settings; the host decides
everything around them.

`src/` holds the logic, each function with a Verus contract:

- `time`, `timer`: timer queues (a lazy-deletion priority queue and a
  key-ordered variant) and the per-widget handles.
- `time_sync`: SNTP request and reply packets and the synchronised clock.
- `http`: URL parsing, request serialisation, response parsing.
- `drawer`: geometry, drawing commands and their builders, and the
  lowering of commands to styled primitives handed to a display.
- `widget`: events, per-widget event queues, the decisions of the program
  host.
- `config`, `admin`: configuration validation and the administration API's
  answers.
- `codegen`: template filling, the per-type wire mapping, parsing of Rust
  source text with syn into a syntax description, and discovery of
  services, events and structs in it.
- `boot_screen`, `storage`, `allocator`, `network`, `console`, `cstr`:
  smaller pieces.

`tests/` exercises the library on concrete values. `app/` is a host
program around it: it reads files and walks directories, runs widget
programs with wasmi, rasterises with embedded-graphics, speaks HTTP over
TCP and SNTP over UDP.
