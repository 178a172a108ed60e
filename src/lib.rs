//! Cartridge slot of a 16-bit console: reads a ROM dump, recovers its header,
//! and maps bus addresses onto the cartridge's ROM and battery-backed RAM.

pub mod access;
pub mod cartridge;
pub mod header;
pub mod laws;

pub use access::{Access, Addr24, Read, Slot, Write};
pub use cartridge::{Cartridge, ReadRomError};
pub use header::{ExtendedHeader, Header, OptExtendedHeader, RomType};
