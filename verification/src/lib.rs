//! Image loading and protected memory model of a simulated ARMv6-M
//! microcontroller.
//!
//! A firmware image, given as an ELF code section or as Intel-HEX text with
//! vendor block framing, is copied into a flat simulated address space.  The
//! device's memory map tells which address ranges have no backing on the real
//! part, and a scan reports the first byte that a load left non-zero there.

pub mod byteorder;
pub mod cpu;
pub mod elf;
pub mod hexdigits;
pub mod hexfacts;
pub mod hexfile;
pub mod loader;
pub mod memory;
pub mod regions;
pub mod text;
