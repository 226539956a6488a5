# axvisor

Device-side logic of a virtual machine monitor, verified with Verus: conventional PCI, VirtIO over
MMIO and PCI, the legacy x86 port devices, and the bring-up of secondary processors.

| Directory | Contents |
| --- | --- |
| `src/pci` | topology and placement, config space, root state, endpoint binding, routing, reset |
| `src/virtio` | MMIO transport, PCI transport, interrupt coordination, PCI endpoint adapter |
| `src/x86` | instruction and register helpers, 8259 controllers, port exits, ACPI walk, config ports and their diagnostics |
| `src/devices` | a PCI function for enumeration tests |
| `src/calls.rs` | how contracts speak of a run of calls through one exclusive reference |
| `src/smp.rs` | what a secondary processor does on its way up |
| `tests` | behaviour on concrete values |
| `app` | locks, logging, options and platform hooks around the library |

State is plain data behind `&mut`: whoever shares it between processors holds a lock around it.
Each type with an invariant has a `wf` predicate, and each module that has a mathematical model
gives it as a view. Functions that call a device, an endpoint's owner-side operations or a runtime
context through an exclusive reference say in their contracts which calls they make, in what order,
what state each call starts from and leaves, and what they make of every answer. What an endpoint is
only asked through a shared reference (whether its interrupt is pending, which effects it implements)
leaves no state behind; of such a question the contracts say what is made of the answer, not how often
it is asked.

Operations that a runtime interrupts to let others run come twice: as one function, and as the steps
that it is made of. The steps of a configuration write, of a reset and of a withdrawal let callbacks run
while the root is not lent to anybody.

Proof functions whose names start with `law_` state what holds across operations.
