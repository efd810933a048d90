# try-ui

The window of a launcher that boots a Linux guest in QEMU and shows its display, with the
window's size driving the guest's.

- `src/` is the verified library (Verus): the size the guest is asked for and the display it
  must stay inside, the keys, buttons and pointer it is sent, the frames its console sends
  and the ring of surfaces they land in, the resize blur, the settings file, the QEMU command
  the build tasks print, and the diagnostics' arithmetic.
- `tests/` runs the library on concrete values.
- `app/` is the program around it: the gpui window, the QEMU process, the D-Bus display
  connection, the host's reports, and the files the settings and frames are kept in.
