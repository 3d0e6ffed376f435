//! The verified core of a user-space Mach-O loader: locating the image in a
//! (possibly fat) file, reading its load commands with the `object` crate,
//! sizing and laying out its address range, address arithmetic, and the
//! initial stack the dynamic loader is entered with.

pub mod bytes;
pub mod disasm;
pub mod error;
pub mod fat;
pub mod image;
pub mod init;
pub mod macho;
pub mod names;
pub mod ptr;
pub mod scan;
pub mod text;
