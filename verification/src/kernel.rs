//! Kernel-side protocol and bookkeeping logic: networking and DHCP, ACPI tables and interrupt
//! routing, keyboard and mouse input, the window manager, the initramfs archive, physical
//! memory, PCI devices, and the device register formats and decisions the drivers rely on.
pub mod ac97;
pub mod acpi;
pub mod ahci;
pub mod apic;
pub mod dhcp;
pub mod e1000;
pub mod framebuffer;
pub mod hardware;
pub mod hda;
pub mod heap;
pub mod igc;
pub mod initramfs;
pub mod input;
pub mod interrupt_setup;
pub mod interrupts;
pub mod ioapic;
pub mod keyboard;
pub mod memory;
pub mod net;
pub mod network_runtime;
pub mod nvidia;
pub mod pci;
pub mod platform;
