# aarch64

The flattened device tree of an aarch64 guest, described by verified code.

The library under `src/` turns the parameters of a virtual machine into a
script: the calls, in order, that write its device tree. Each function states
exactly what it adds to the script, also where an error stops it half way, and
Verus proves it. Nothing in the library is trusted.

| module | what it describes |
| --- | --- |
| `tree` | the whole tree, and where it is loaded |
| `chosen`, `memory`, `cpu` | boot parameters, memory, CPUs and their clusters |
| `interrupts`, `peripherals`, `psci` | interrupt controller, timer, performance counters, serial ports, clock, power control |
| `pci`, `platform` | the PCI host controller, and devices that are passed through |
| `script`, `nesting` | the script, and when it forms a tree |
| `board`, `cells`, `text` | numbers that the board fixes, cells, names and paths |
| `shape`, `references` | what holds of every tree: its nodes nest, and the numbers by which they refer to each other are unique and defined |

The code under `app/` does the input and output around it: it reads random
bytes and the properties of host devices, carries the script out with a device
tree writer, and loads the result into guest memory.
