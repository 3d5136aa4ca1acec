//! Host facts, computed from what the operating system hands out.
//!
//! Every function here works on plain values: the bytes of a file, the
//! records of an interface list, the counters of a file system. Reading
//! those from the machine is left to the caller, so that each answer is a
//! function of its arguments and can be stated and proved as such.

pub mod cpu;
pub mod hardware;
pub mod linuxinfo;
pub mod locale;
pub mod macinfo;
pub mod memory;
pub mod mounts;
pub mod net;
pub mod release;
pub mod text;
