# rustos

The verified core of a small x86-64 kernel and of its NVIDIA GSP boot protocol, written in
Verus. Every parser, encoder and state machine here carries a contract over byte sequences and
is proved against it.

## Layout

- `src/bytes.rs` — little- and big-endian fields inside byte buffers, the vocabulary every
  wire format below is written in.
- `src/gpu/` — the GSP firmware protocol: ELF firmware and FMC images, the bootloader
  descriptor, the shared-memory layout and radix-3 page tables, RPC messages and their
  checksum, the message queues, the FSP chain-of-trust packet, and the boot system-memory plan.
- `src/kernel/` — the kernel's own logic: Ethernet/IPv4/UDP and the Internet checksum, the
  DHCP client and its lease acquisition, ARP and UDP delivery, ACPI table parsing (RSDP, root
  tables, MADT, FADT, DSDT sleep packages, FACS), local and I/O APIC register values and
  routes, interrupt vectors and device handler slots, the MSI-X/MSI/legacy fallback order of
  the network drivers' interrupt setup, keyboard scancodes and PS/2 mouse
  packets, input event queues, the window manager (window slots, stacking, hit testing and
  input delivery), the `newc` initramfs reader, physical-frame allocation, PCI device
  recognition, the AHCI disk's port selection, DMA pages and command encoding, DHCP lease
  timing and the network manager's interface reports, device register formats, and the audio
  test tone.
- `tests/` — behaviour on concrete inputs, run against the compiled library.
- `app/` — the kernel entry point: the serial console, page-table and heap setup, port and
  MMIO access, the local and I/O APIC bring-up, and reading ACPI tables out of physical
  memory, the PS/2 devices and the boot memory map. For these it hands bytes to the library
  and acts on what the library decides. The device drivers (network, disk, audio, GPU), the
  window manager, the initramfs and the network manager are not driven from here: the
  drivers' register-level sequences run over the kernel's PCI resource layer (device
  enumeration, BAR and MSI mapping), which this tree does not include, so those parts of the
  library are exercised by `tests/` alone.
