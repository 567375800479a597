# rubo_vision

RuboVision runs vision tasks on an embedded board: UART command frames and web
debug triggers become events, events are dispatched to a configured function
and device, and the function's output is routed to the web channel, the UART
line and the GPIO lamps.

The library (`src/`) is written in Verus and verified:

- `config/` — the runtime configuration, its validation (repeated keys, unknown
  devices, functions and GPIO signals), board profiles, typed parameters and
  their checks, the `key=value` argument lists, and the command-line edits of
  the device entries of a TOML document (made with toml_edit).
- `source.rs` — the UART frame decoder (`[0xAA, CMD, PARAM, 0x55]`) and the
  events of UART and web debug bindings.
- `device/`, `func/`, `init/` — the device and function registries, dispatch of
  events, task execution and the messages of a task's lifecycle.
- `vision/` — the decisions of the vision tasks that do not depend on pixels:
  offsets from the target point, UART result lines, confirmation over frames,
  QR payloads (decoded with quircs) and task numbers.
- `message.rs`, `data_url.rs`, `text.rs` — output routing, JPEG data URLs and
  decimal text.

`app/` is the program around it: configuration files, the serial port, GPIO
lines, the camera and OpenCV pixel analysis, and the task loop. It serves no
web page: the messages of the web channel are written to the log, and web debug,
timer and loop bindings are accepted in the configuration but not started.
