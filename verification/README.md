# gpupass

A terminal UI for passing GPUs through to libvirt virtual machines, with
its logic verified by Verus.

- `src/` is the verified library: the parsing of `lspci`, `virsh` and
  libvirt domain XML, the configuration model, the passthrough verdicts,
  the attach/detach, bind/unbind and VFIO-configuration procedures as
  state machines (each step takes what the last outside operation
  reported and names the next one), and the application state machine
  behind the UI.
- `app/` is the program around it: terminal drawing, key input, and the
  outside operations (commands, sysfs, files) that the library asks for.
- `tests/` runs the library on concrete inputs.
