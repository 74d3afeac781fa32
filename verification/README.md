# windows_gaming_driver

Runs a Windows virtual machine with a passed-through GPU and switches the
host's keyboard and mouse between Linux and Windows.

The library under `src/` holds the logic, each function with a contract
that Verus proves:

- `config`: the machine configuration and its defaults.
- `control`, `monitor`, `wire`: the byte protocols spoken with control
  clients, qemu's monitor and (in the older framing) the guest agent;
  `driver::clientpipe`: the messages exchanged with the guest agent.
- `controller`, `driver::controller`: the state machines that decide what to
  send to qemu and the guest agent; they queue their decisions as effects.
  `driver::attach` orders the USB devices to attach by controller kind.
- `mainloop`, `driver::input`, `driver::clipboard`: the decisions of the
  event loop, input forwarding and clipboard sharing.
- `hotkeys`: key bindings and the keyboard state that fires them.
- `qemu`: qemu's command line and environment.
- `pci`, `hwid`, `setup`, `ubind`: what the setup wizard decides and writes.
- `edge_grab`: moving the pointer between host and guest over screen edges.
- `qmpgen`: turning the QMP schema into named types and documentation.

`app/` is the program around it: reading and writing the configuration
file, sysfs, sockets, processes and the terminal.
