# focaldesk

The logic of a small Wayland desktop, verified with Verus: the settings panels,
the login greeter, the daemon that runs the greeter and the user's session, and
a client that exercises the colour management protocol.

- `src/` is the library. Its functions state what they return or change, and
  Verus proves it. Proof functions whose names start with `law_` state what holds
  across functions: that a frame which was written is read back, that privileges
  are dropped in order, that a secret is never shown, that a removed gradient
  stop undoes an added one.
- `src/settings/` holds one module for each panel, and the theme editor.
- `app/` is the part that touches the machine: sockets, PAM, the kernel's mode
  setting, fonts, the message bus, and floating-point colour. It performs what
  the library decides and hands back what happened.
- `tests/` runs the library on concrete values.

Floating-point numbers cross the boundary as bits, as rounded integers, or as
the outcome of a comparison.

The greeter looks for `IBMPlexSans-Regular.ttf` and `IBMPlexSans-Medium.ttf` in
`/usr/share/focaldm/fonts`, or in the directory that `FOCALDM_FONT_DIR` names.
