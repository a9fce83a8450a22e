# controlnix

The verified core of ControlNix, a small GTK4 panel for tiling window managers
that controls volume, screen brightness, Wi-Fi and Bluetooth on Linux through
`pamixer`, `xbacklight`, `nmcli` and `bluetoothctl`.

- `src/` is the library, verified with Verus: reading what the tools print
  (network lists, device lists, power state, levels), the shell commands the
  panel runs, and the decisions of the panel (the Wi-Fi connect flow, the
  Bluetooth scan, icons, selections, forgetting).
- `app/` is the GTK program: it builds the window, runs the commands and hands
  their output to the library.
- `tests/` checks the library on concrete values.
