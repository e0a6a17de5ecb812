//! T10-DIF protection information: the 8-byte record that guards a data
//! block (a CRC-16 guard tag, an application tag and a reference tag), its
//! byte layout, the buffers that carry blocks and records to a device, and the
//! decisions that the device I/O around them takes.

pub mod crc16;
pub mod native;
pub mod dif;
pub mod buffer;
pub mod device;
pub mod bench;
