# wlx_overlay_s

The verified core of a desktop overlay for VR headsets (OpenXR and OpenVR),
with its Wayland compositor for VR displays. `src/` holds the logic, each
function with a contract proved by Verus; `app/` holds the program around it:
command line, files, sockets, processes and the floating-point work.

Modules of `src/`:

- `tasks`, `event_queue`, `gen_vec`: the delayed task queue, FIFO queues and
  the generational arena the rest is built on.
- `overlay`, `screens`, `pointer`, `session`, `osc`: the overlays (kept in an
  `idmap` map), how the screen overlays follow the desktop's outputs, what
  laser pointers do to them, the frame-loop decisions of the VR backends, and
  the avatar parameters sent over OSC.
- `gui`, `bindings`, `multiclick`, `input`: panel buttons and labels, colors,
  controller bindings, multi-clicks, and the keyboard and mouse events sent to
  the desktop.
- `wayvr`, `ipc`, `server_ipc`: the compositor's displays, windows and
  processes, and its IPC protocol (framing, handshake, packet reader).
- `config`, `config_io`, `backend`, `notifications`, `graphics`, `text`:
  configuration and its files, start-up decisions, notifications, DMA-BUF
  descriptions, and string helpers.

`tests/` exercises the library on concrete values.
