//! Laying an image out in memory: the size of its reservation, where each
//! segment goes and where execution starts.

use crate::error::LoadError;
use crate::macho::Segment;
use crate::names::{dyld_path, dyld_path_bytes};
use crate::ptr::Uintptr;
use crate::scan::LoadPlan;
use vstd::prelude::*;

verus! {

/// `size` rounded up with the mask of `page`: `(size + page - 1) & !(page - 1)`.
pub open spec fn page_round(size: usize, page: usize) -> usize {
    ((size + page - 1) as usize) & !((page - 1) as usize)
}

/// Clearing the bits of a mask leaves a value whose masked bits are zero and
/// which falls short of the original by at most the mask.
proof fn lemma_clear_mask(x: usize, m: usize)
    ensures
        (x & !m) & m == 0,
        (x & !m) + (x & m) == x,
        x & m <= m,
{
    assert((x & !m) & m == 0) by (bit_vector);
    assert((x & !m) + (x & m) == x) by (bit_vector);
    assert(x & m <= m) by (bit_vector);
}

/// Whether `p` is a power of two that fits in a machine word.
pub open spec fn is_power_of_two(p: usize) -> bool {
    exists|k: nat| k < usize::BITS && p == vstd::arithmetic::power2::pow2(k)
}

/// A value whose bits below a power of two are clear is a multiple of it.
proof fn lemma_mask_multiple(r: usize, p: usize)
    requires
        is_power_of_two(p),
        r & ((p - 1) as usize) == 0,
    ensures
        r % p == 0,
{
    let k = choose|k: nat| k < usize::BITS && p == vstd::arithmetic::power2::pow2(k);
    vstd::arithmetic::power2::lemma_pow2_pos(k);
    assert(vstd::bits::low_bits_mask(k) as usize == (p - 1) as usize);
    vstd::bits::lemma_usize_low_bits_mask_is_mod(r, k);
    assert(r % (vstd::arithmetic::power2::pow2(k) as usize) == 0);
}

/// Rounds `size` up with the mask of `page`, as the reservation of an image
/// is sized.
pub fn round_to_pages(size: usize, page: usize) -> (r: usize)
    requires
        page > 0,
        size + page - 1 <= usize::MAX,
    ensures
        r == page_round(size, page),
        r & ((page - 1) as usize) == 0,
        size <= r < size + page,
        is_power_of_two(page) ==> r % page == 0,
{
    let r = (size + (page - 1)) & !(page - 1);
    proof {
        lemma_clear_mask((size + page - 1) as usize, (page - 1) as usize);
        if is_power_of_two(page) {
            lemma_mask_multiple(r, page);
        }
    }
    r
}

/// `page_size::get`: the memory page size of the running system. Nothing is
/// promised of the value.
#[verifier::external_body]
fn system_page_size() -> usize {
    page_size::get()
}

/// A loaded image: where it is reserved, how large the reservation is and
/// where execution starts.
#[derive(Clone, Copy, Debug)]
pub struct Image {
    /// Size of the reserved address range.
    pub size: usize,
    /// Start of the reserved address range.
    pub base: Uintptr,
    /// Where execution starts (null where the image names no entry point).
    pub main: Uintptr,
}

/// Where the bytes of a segment come from in the file.
#[derive(Clone, Copy, PartialEq, Eq, Debug)]
pub struct FileMapping {
    /// Number of bytes mapped.
    pub len: usize,
    /// Offset of the bytes in the file.
    pub offset: usize,
}

/// Where a segment goes in memory.
#[derive(Clone, Copy, Debug)]
pub struct SegmentLayout {
    /// First address of the segment.
    pub start: Uintptr,
    /// The address just past the segment.
    pub end: Uintptr,
    /// Size of the segment in memory.
    pub size: usize,
    /// The file bytes mapped at `start`, if the segment has any.
    pub file: Option<FileMapping>,
    /// The protection the segment ends up with.
    pub protection: u32,
}

/// Size of the address span of a plan, as a machine word.
pub open spec fn span_size(min_addr: u64, max_addr: u64) -> usize {
    (max_addr - min_addr) as usize
}

impl LoadPlan {
    /// Size of the reservation for the image on a system with pages of
    /// `page` bytes: the span of its segments rounded up with the page mask.
    pub fn reservation_for_page(&self, page: usize) -> (r: Result<usize, LoadError>)
        ensures
            page == 0 ==> r == Err::<usize, LoadError>(LoadError::BadPageSize),
            page > 0 && span_size(self@.min_addr, self@.max_addr) + page - 1 > usize::MAX ==> r
                == Err::<usize, LoadError>(LoadError::AddressOverflow),
            page > 0 && span_size(self@.min_addr, self@.max_addr) + page - 1 <= usize::MAX ==> r
                == Ok::<usize, LoadError>(page_round(span_size(self@.min_addr, self@.max_addr), page)),
            r matches Ok(sz) ==> sz & ((page - 1) as usize) == 0 && span_size(self@.min_addr, self@.max_addr) <= sz
                && sz < span_size(self@.min_addr, self@.max_addr) + page,
            r matches Ok(sz) ==> (is_power_of_two(page) ==> sz % page == 0),
            r matches Ok(sz) ==> (self@.max_addr - self@.min_addr <= usize::MAX ==> forall|i: int|
                0 <= i < self@.segments.len() ==> (#[trigger] self@.segments[i]).vmaddr - self@.min_addr
                    + self@.segments[i].vmsize <= sz),
    {
        proof {
            use_type_invariant(self);
        }
        let span = (self.max_addr() - self.min_addr()) as usize;
        if page == 0 {
            return Err(LoadError::BadPageSize);
        }
        if span > usize::MAX - (page - 1) {
            return Err(LoadError::AddressOverflow);
        }
        Ok(round_to_pages(span, page))
    }

    /// Size of the reservation for the image on this system: the span of its
    /// segments rounded up to the system's page size.
    pub fn reservation_size(&self) -> (r: Result<usize, LoadError>)
        ensures
            r matches Ok(sz) ==> exists|page: usize|
                page > 0 && sz == page_round(span_size(self@.min_addr, self@.max_addr), page),
            r matches Err(e) ==> e == LoadError::BadPageSize || e == LoadError::AddressOverflow,
    {
        let page = system_page_size();
        self.reservation_for_page(page)
    }

    /// How far the image is moved from its own addresses when its
    /// reservation starts at `base`.
    pub fn slide(&self, base: Uintptr) -> (r: usize)
        requires
            base.value() >= self@.min_addr as usize,
        ensures
            r == base.value() - self@.min_addr as usize,
    {
        base.addr() - self.min_addr() as usize
    }
}

/// Where a segment goes in memory once the image is moved by `slide`, and
/// which bytes of the file, whose image starts at `image_offset`, it maps.
pub fn segment_layout(seg: &Segment, slide: usize, image_offset: usize) -> (r: SegmentLayout)
    requires
        seg.vmaddr as usize + slide <= usize::MAX,
        seg.filesize != 0 ==> image_offset + seg.fileoff as usize <= usize::MAX,
    ensures
        r.start.value() == seg.vmaddr as usize + slide,
        r.end == r.start.displaced(seg.vmsize as usize as int),
        r.size == seg.vmsize as usize,
        r.protection == seg.initprot,
        r.file == if seg.filesize == 0 {
            None::<FileMapping>
        } else {
            Some(FileMapping { len: seg.filesize as usize, offset: (image_offset + seg.fileoff as usize) as usize })
        },
{
    let start = Uintptr::new(seg.vmaddr as usize + slide);
    let size = seg.vmsize as usize;
    let end = start + size;
    let file = if seg.filesize == 0 {
        None
    } else {
        Some(FileMapping { len: seg.filesize as usize, offset: image_offset + seg.fileoff as usize })
    };
    SegmentLayout { start, end, size, file, protection: seg.initprot }
}

impl Image {
    /// The image reserved at `base` with `size` bytes, whose entry point is
    /// `entry` bytes past `base` (wrapping around the address space), or null
    /// where it has none.
    pub fn from_parts(base: Uintptr, size: usize, entry: Option<u64>) -> (r: Image)
        ensures
            r.base == base,
            r.size == size,
            r.main == match entry {
                Some(e) => base.displaced(e as usize as int),
                None => Uintptr::nil_spec(),
            },
    {
        let main = match entry {
            Some(e) => base + e,
            None => Uintptr::nil(),
        };
        Image { size, base, main }
    }

    /// The address just past the reservation.
    pub fn end(&self) -> (r: Uintptr)
        ensures
            r == self.base.displaced(self.size as int),
    {
        self.base + self.size
    }
}

/// Where the dynamic loader is reserved in debug builds, so that it always
/// sits at the same address.
pub const DYLD_BASE: u64 = 0x100_0001_8000;

/// Where to ask for the reservation of the image at `path`: in a debug build
/// the dynamic loader goes at `DYLD_BASE`, at exactly that address (`true`);
/// anything else goes wherever the system chooses (address 0, not fixed).
pub fn reservation_hint(debug_build: bool, path: &[u8]) -> (r: (u64, bool))
    ensures
        r == if debug_build && path@ == dyld_path() {
            (DYLD_BASE, true)
        } else {
            (0u64, false)
        },
{
    if !debug_build {
        return (0, false);
    }
    let dyld = dyld_path_bytes();
    if path.len() != 13 {
        return (0, false);
    }
    let mut i: usize = 0;
    while i < 13
        invariant
            path@.len() == 13,
            dyld@ == dyld_path(),
            0 <= i <= 13,
            forall|j: int| 0 <= j < i ==> path@[j] == dyld@[j],
        decreases 13 - i,
    {
        if path[i] != dyld[i] {
            return (0, false);
        }
        i = i + 1;
    }
    assert(path@ =~= dyld_path());
    (DYLD_BASE, true)
}

} // verus!
