//! Why an image cannot be loaded.

use vstd::prelude::*;

verus! {

/// The reasons for which an image is refused.
#[derive(Clone, Copy, PartialEq, Eq, Structural, Debug)]
pub enum LoadError {
    /// A read ran past the end of the file.
    Truncated,
    /// The file is a 32-bit Mach-O binary.
    Unsupported32Bit,
    /// The file starts with no Mach-O or fat magic number.
    NotMachO,
    /// No slice of the fat binary is built for the supported CPU.
    NoMatchingArch,
    /// The image is not a 64-bit little-endian Mach-O image.
    NotLittleEndian64,
    /// The load command table or one of its commands is malformed.
    MalformedCommands,
    /// The image names a dynamic loader other than the supported one; the
    /// loader's path starts at this position of the image.
    UnknownLoader(usize),
    /// A thread command belongs to an image for an unsupported CPU.
    UnsupportedThreadCpu,
    /// The `__TEXT` segment does not start at file offset 0 or does not have
    /// the lowest address.
    MisplacedText,
    /// An address computation leaves the address space.
    AddressOverflow,
    /// The image has no segment to load.
    NoSegments,
    /// The system reports a page size of zero.
    BadPageSize,
}

} // verus!
