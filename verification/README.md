# ssh-serial-bridge

Firmware logic of a serial bridge on the ESP32-S3: USB serial adapters and two UARTs are reached
over SSH, from a terminal in the browser and on an attached display. The logic is written and
verified in Verus; drivers, sockets and threads are ordinary Rust around it.

- `src/` is the library: the terminal emulator and what the displays draw, the web interface with
  its settings, forms and sessions, the setup of USB serial adapters, the routing of bytes between
  ports, sessions and browsers, the button, the logs, Wi-Fi and push-button setup. It performs no
  I/O: where a device has to be driven, it is told what happened and answers what to do next.
- `tests/` runs the library on concrete values.
- `app/` is the firmware: it carries out what the library asks for. The three files of xterm.js
  that it serves (`xterm.min.js`, `xterm.min.css`, `xterm-addon-fit.min.js`) go under `static/`.
  The SSH server itself is a C component that the firmware links with.

Functions named `law_...` state what holds across several operations: that saved settings are
loaded again, that a terminal may be fed in pieces, that a removed USB device leaves nothing
allocated, and the like.
