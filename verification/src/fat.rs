//! Locating the slice of a (possibly fat) Mach-O file that holds the image.

use crate::bytes::{be_u32, be_u64, le_u32, read_u32_be, read_u32_le, read_u64_be};
use crate::error::LoadError;
use vstd::prelude::*;

verus! {

/// Magic number of a 32-bit Mach-O header, as read in host (little-endian) order.
pub const MH_MAGIC: u32 = 0xfeed_face;

/// Magic number of a 64-bit Mach-O header, as read in host (little-endian) order.
pub const MH_MAGIC_64: u32 = 0xfeed_facf;

/// Magic number of a fat header with 32-bit entries, as read in host order.
pub const FAT_CIGAM: u32 = 0xbeba_feca;

/// Magic number of a fat header with 64-bit entries, as read in host order.
pub const FAT_CIGAM_64: u32 = 0xbfba_feca;

/// The CPU type of 64-bit ARM.
pub const CPU_TYPE_ARM64: u32 = 0x0100_000c;

/// The CPU type of x86-64.
pub const CPU_TYPE_X86_64: u32 = 0x0100_0007;

/// The CPU type this loader runs images for.
pub const CPU_TYPE: u32 = CPU_TYPE_ARM64;

/// How the file holds its image.
#[derive(Clone, Copy, PartialEq, Eq, Structural, Debug)]
pub enum Container {
    /// A single 64-bit image at the start of the file.
    Thin,
    /// A fat binary whose architecture entries use 32-bit offsets.
    Fat32,
    /// A fat binary whose architecture entries use 64-bit offsets.
    Fat64,
}

/// What the leading magic number says about the file.
pub open spec fn container_of(magic: u32) -> Result<Container, LoadError> {
    if magic == MH_MAGIC {
        Err(LoadError::Unsupported32Bit)
    } else if magic == MH_MAGIC_64 {
        Ok(Container::Thin)
    } else if magic == FAT_CIGAM {
        Ok(Container::Fat32)
    } else if magic == FAT_CIGAM_64 {
        Ok(Container::Fat64)
    } else {
        Err(LoadError::NotMachO)
    }
}

/// Classifies a file by its leading magic number.
pub fn classify_magic(magic: u32) -> (r: Result<Container, LoadError>)
    ensures
        r == container_of(magic),
{
    if magic == MH_MAGIC {
        Err(LoadError::Unsupported32Bit)
    } else if magic == MH_MAGIC_64 {
        Ok(Container::Thin)
    } else if magic == FAT_CIGAM {
        Ok(Container::Fat32)
    } else if magic == FAT_CIGAM_64 {
        Ok(Container::Fat64)
    } else {
        Err(LoadError::NotMachO)
    }
}

/// Size of one architecture entry of a fat header.
pub open spec fn fat_entry_size(is_fat64: bool) -> int {
    if is_fat64 {
        32
    } else {
        20
    }
}

/// File position of the `i`-th architecture entry.
pub open spec fn fat_entry_start(is_fat64: bool, i: int) -> int {
    if is_fat64 {
        8 + 32 * i
    } else {
        8 + 20 * i
    }
}

/// The number of architecture entries, read in host (little-endian) order
/// right after the magic number.
pub open spec fn fat_count(file: Seq<u8>) -> u32 {
    le_u32(file, 4)
}

/// The CPU type of the `i`-th entry (big-endian, at the start of the entry).
pub open spec fn fat_entry_cpu(file: Seq<u8>, is_fat64: bool, i: int) -> u32 {
    be_u32(file, fat_entry_start(is_fat64, i))
}

/// The file offset of the slice described by the `i`-th entry (big-endian,
/// eight bytes into the entry, four or eight bytes wide).
pub open spec fn fat_entry_offset(file: Seq<u8>, is_fat64: bool, i: int) -> u64 {
    if is_fat64 {
        be_u64(file, fat_entry_start(is_fat64, i) + 8)
    } else {
        be_u32(file, fat_entry_start(is_fat64, i) + 8) as u64
    }
}

/// Scans the entries `i..count` in order: the first entry that does not fit
/// in the file is a truncation, the first entry for the supported CPU gives
/// its slice offset.
pub open spec fn fat_search(file: Seq<u8>, is_fat64: bool, count: nat, i: nat) -> Result<u64, LoadError>
    decreases count - i,
{
    if i >= count {
        Err(LoadError::NoMatchingArch)
    } else if fat_entry_start(is_fat64, i + 1int) > file.len() {
        Err(LoadError::Truncated)
    } else if fat_entry_cpu(file, is_fat64, i as int) == CPU_TYPE {
        Ok(fat_entry_offset(file, is_fat64, i as int))
    } else {
        fat_search(file, is_fat64, count, i + 1)
    }
}

/// The slice offset that a fat file gives for the supported CPU.
pub open spec fn fat_slice_offset(file: Seq<u8>, is_fat64: bool) -> Result<usize, LoadError> {
    if file.len() < 8 {
        Err(LoadError::Truncated)
    } else {
        match fat_search(file, is_fat64, fat_count(file) as nat, 0) {
            Ok(off) => Ok(off as usize),
            Err(e) => Err(e),
        }
    }
}

/// Finds, in a fat file, the offset of the slice built for the supported CPU.
pub fn find_binary(file: &[u8], is_fat64: bool) -> (r: Result<usize, LoadError>)
    ensures
        r == fat_slice_offset(file@, is_fat64),
{
    if file.len() < 8 {
        return Err(LoadError::Truncated);
    }
    let count = read_u32_le(file, 4);
    let size: usize = if is_fat64 {
        32
    } else {
        20
    };
    let mut i: u32 = 0;
    let mut pos: usize = 8;
    while i < count
        invariant
            8 <= file@.len(),
            count == fat_count(file@),
            size == fat_entry_size(is_fat64),
            i <= count,
            pos == fat_entry_start(is_fat64, i as int),
            pos <= file@.len(),
            fat_search(file@, is_fat64, count as nat, 0) == fat_search(
                file@,
                is_fat64,
                count as nat,
                i as nat,
            ),
        decreases count - i,
    {
        if file.len() - pos < size {
            return Err(LoadError::Truncated);
        }
        let cpu = read_u32_be(file, pos);
        if cpu == CPU_TYPE {
            let offset: u64 = if is_fat64 {
                read_u64_be(file, pos + 8)
            } else {
                read_u32_be(file, pos + 8) as u64
            };
            return Ok(offset as usize);
        }
        i = i + 1;
        pos = pos + size;
    }
    Err(LoadError::NoMatchingArch)
}

/// Where in the file the image starts: at 0 for a thin file, at the slice
/// for the supported CPU in a fat file.
pub open spec fn image_offset_of(file: Seq<u8>) -> Result<usize, LoadError> {
    if file.len() < 4 {
        Err(LoadError::Truncated)
    } else {
        match container_of(le_u32(file, 0)) {
            Err(e) => Err(e),
            Ok(Container::Thin) => Ok(0usize),
            Ok(Container::Fat32) => fat_slice_offset(file, false),
            Ok(Container::Fat64) => fat_slice_offset(file, true),
        }
    }
}

/// The offset and length of the image within the file: what is mapped to
/// load it.
pub open spec fn image_slice_of(file: Seq<u8>) -> Result<(usize, usize), LoadError> {
    match image_offset_of(file) {
        Err(e) => Err(e),
        Ok(off) => if off > file.len() {
            Err(LoadError::Truncated)
        } else {
            Ok((off, (file.len() - off) as usize))
        },
    }
}

/// Locates the image within a file: its offset and its length.
pub fn image_slice(file: &[u8]) -> (r: Result<(usize, usize), LoadError>)
    ensures
        r == image_slice_of(file@),
        r matches Ok((off, len)) ==> off + len == file@.len(),
{
    if file.len() < 4 {
        return Err(LoadError::Truncated);
    }
    let magic = read_u32_le(file, 0);
    let offset = match classify_magic(magic) {
        Err(e) => {
            return Err(e);
        },
        Ok(Container::Thin) => 0,
        Ok(Container::Fat32) => find_binary(file, false)?,
        Ok(Container::Fat64) => find_binary(file, true)?,
    };
    if offset > file.len() {
        return Err(LoadError::Truncated);
    }
    Ok((offset, file.len() - offset))
}

/// Scanning from entry `k` up to entry `i` passes over entries that fit in
/// the file and are not for arm64.
proof fn lemma_fat_scan_reaches(file: Seq<u8>, is_fat64: bool, count: nat, k: nat, i: nat, stride: int)
    requires
        stride == (if is_fat64 { 32int } else { 20int }),
        k <= i < count,
        8 + stride * (i + 1) <= file.len(),
        forall|j: int| 0 <= j < i ==> #[trigger] be_u32(file, 8 + stride * j) != 0x0100_000c,
    ensures
        fat_search(file, is_fat64, count, k) == fat_search(file, is_fat64, count, i),
    decreases i - k,
{
    if k < i {
        assert(8 + stride * (k + 1) <= 8 + stride * (i + 1)) by (nonlinear_arith)
            requires
                k < i,
                stride > 0,
        ;
        assert(be_u32(file, 8 + stride * k) != 0x0100_000c);
        lemma_fat_scan_reaches(file, is_fat64, count, k + 1, i, stride);
    }
}

/// In a fat file with 64-bit entries (32 bytes each, the first at byte 8),
/// where entry `i` is the first whose big-endian CPU type is arm64 and it
/// (hence every entry before it) fits in the file, the image is at the big-endian
/// 64-bit offset eight bytes into entry `i`.
pub proof fn lemma_fat64_first_arm64(file: Seq<u8>, i: nat)
    requires
        file.len() >= 8,
        i < le_u32(file, 4),
        8 + 32 * (i + 1) <= file.len(),
        forall|j: int| 0 <= j < i ==> #[trigger] be_u32(file, 8 + 32 * j) != 0x0100_000c,
        be_u32(file, 8 + 32 * i as int) == 0x0100_000c,
    ensures
        fat_slice_offset(file, true) == Ok::<usize, LoadError>(be_u64(file, 8 + 32 * i as int + 8) as usize),
{
    lemma_fat_scan_reaches(file, true, le_u32(file, 4) as nat, 0, i, 32);
    assert(8 + 32 * (i + 1) <= file.len());
}

/// In a fat file with 32-bit entries (20 bytes each, the first at byte 8),
/// where entry `i` is the first whose big-endian CPU type is arm64 and it
/// (hence every entry before it) fits in the file, the image is at the big-endian
/// 32-bit offset eight bytes into entry `i`.
pub proof fn lemma_fat32_first_arm64(file: Seq<u8>, i: nat)
    requires
        file.len() >= 8,
        i < le_u32(file, 4),
        8 + 20 * (i + 1) <= file.len(),
        forall|j: int| 0 <= j < i ==> #[trigger] be_u32(file, 8 + 20 * j) != 0x0100_000c,
        be_u32(file, 8 + 20 * i as int) == 0x0100_000c,
    ensures
        fat_slice_offset(file, false) == Ok::<usize, LoadError>(be_u32(file, 8 + 20 * i as int + 8) as usize),
{
    lemma_fat_scan_reaches(file, false, le_u32(file, 4) as nat, 0, i, 20);
    assert(8 + 20 * (i + 1) <= file.len());
}

} // verus!
