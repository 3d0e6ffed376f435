//! NUL-terminated names inside Mach-O images.

use crate::error::LoadError;
use vstd::prelude::*;

verus! {

/// The index of the first NUL byte of `b` at or after `i`, or the length of
/// `b` where there is none.
pub open spec fn first_nul_from(b: Seq<u8>, i: int) -> int
    decreases b.len() - i,
{
    if i >= b.len() {
        b.len() as int
    } else if b[i] == 0 {
        i
    } else {
        first_nul_from(b, i + 1)
    }
}

/// What `first_nul_from` finds.
pub proof fn lemma_first_nul_from(b: Seq<u8>, i: int)
    requires
        0 <= i <= b.len(),
    ensures
        i <= first_nul_from(b, i) <= b.len(),
        forall|k: int| i <= k < first_nul_from(b, i) ==> b[k] != 0,
        first_nul_from(b, i) < b.len() ==> b[first_nul_from(b, i)] == 0,
    decreases b.len() - i,
{
    if i < b.len() && b[i] != 0 {
        lemma_first_nul_from(b, i + 1);
    }
}

/// The bytes of a NUL-padded segment name up to its first NUL.
pub open spec fn segment_name(raw: Seq<u8>) -> Seq<u8> {
    raw.subrange(0, first_nul_from(raw, 0))
}

/// Whether `t` holds no NUL byte.
pub open spec fn nul_free(t: Seq<u8>) -> bool {
    forall|k: int| 0 <= k < t.len() ==> t[k] != 0
}

/// `__PAGEZERO` (in ASCII), the name of the segment that reserves the null page.
pub open spec fn pagezero_name() -> Seq<u8> {
    seq![95u8, 95, 80, 65, 71, 69, 90, 69, 82, 79]
}

/// `__TEXT` (in ASCII), the name of the segment that holds the code.
pub open spec fn text_name() -> Seq<u8> {
    seq![95u8, 95, 84, 69, 88, 84]
}

/// `/usr/lib/dyld` (in ASCII), the path of the only dynamic loader accepted.
pub open spec fn dyld_path() -> Seq<u8> {
    seq![47u8, 117, 115, 114, 47, 108, 105, 98, 47, 100, 121, 108, 100]
}

/// The bytes of `__PAGEZERO`.
pub fn pagezero_bytes() -> (r: [u8; 10])
    ensures
        r@ == pagezero_name(),
{
    let r: [u8; 10] = [95, 95, 80, 65, 71, 69, 90, 69, 82, 79];
    assert(r@ =~= pagezero_name());
    r
}

/// The bytes of `__TEXT`.
pub fn text_bytes() -> (r: [u8; 6])
    ensures
        r@ == text_name(),
{
    let r: [u8; 6] = [95, 95, 84, 69, 88, 84];
    assert(r@ =~= text_name());
    r
}

/// The bytes of `/usr/lib/dyld`.
pub fn dyld_path_bytes() -> (r: [u8; 13])
    ensures
        r@ == dyld_path(),
{
    let r: [u8; 13] = [47, 117, 115, 114, 47, 108, 105, 98, 47, 100, 121, 108, 100];
    assert(r@ =~= dyld_path());
    r
}

/// Whether the NUL-padded segment name `raw` reads `t`.
pub fn has_segment_name(raw: &[u8; 16], t: &[u8]) -> (r: bool)
    requires
        nul_free(t@),
        t@.len() <= 16,
    ensures
        r == (segment_name(raw@) == t@),
{
    proof {
        lemma_first_nul_from(raw@, 0);
    }
    let mut i: usize = 0;
    while i < t.len()
        invariant
            0 <= i <= t@.len() <= 16,
            raw@.len() == 16,
            nul_free(t@),
            forall|k: int| 0 <= k < i ==> raw@[k] == t@[k],
        decreases t@.len() - i,
    {
        if raw[i] != t[i] {
            proof {
                lemma_first_nul_from(raw@, 0);
                if segment_name(raw@) == t@ {
                    assert(segment_name(raw@).len() == t@.len());
                    assert(segment_name(raw@)[i as int] == raw@[i as int]);
                }
            }
            return false;
        }
        i = i + 1;
    }
    let n = t.len();
    let r = n == 16 || raw[n] == 0;
    proof {
        assert(forall|k: int| 0 <= k < n ==> raw@[k] != 0 && raw@[k] == t@[k]);
        if r {
            assert(first_nul_from(raw@, 0) == n);
            assert(segment_name(raw@) =~= t@);
        } else {
            assert(first_nul_from(raw@, 0) != n);
            if segment_name(raw@) == t@ {
                assert(segment_name(raw@).len() == t@.len());
            }
        }
    }
    r
}

/// What reading the loader path at position `p` of the image gives: the path
/// runs to the first NUL byte, which must exist before the end of the image,
/// and it must read `/usr/lib/dyld`.
pub open spec fn loader_check(image: Seq<u8>, p: int) -> Result<(), LoadError> {
    if p > image.len() {
        Err(LoadError::MalformedCommands)
    } else if first_nul_from(image, p) == image.len() {
        Err(LoadError::MalformedCommands)
    } else if image.subrange(p, first_nul_from(image, p)) == dyld_path() {
        Ok(())
    } else {
        Err(LoadError::UnknownLoader(p as usize))
    }
}

/// Checks the loader path that starts `offset` bytes after position `pos` of
/// the image.
pub fn check_loader(image: &[u8], pos: usize, offset: u32) -> (r: Result<(), LoadError>)
    requires
        pos <= image@.len(),
    ensures
        r == loader_check(image@, pos + offset),
{
    if offset as usize > image.len() - pos {
        return Err(LoadError::MalformedCommands);
    }
    let p = pos + offset as usize;
    let mut k = p;
    while k < image.len() && image[k] != 0
        invariant
            p <= k <= image@.len(),
            first_nul_from(image@, p as int) == first_nul_from(image@, k as int),
        decreases image@.len() - k,
    {
        k = k + 1;
    }
    proof {
        lemma_first_nul_from(image@, p as int);
    }
    if k == image.len() {
        return Err(LoadError::MalformedCommands);
    }
    assert(first_nul_from(image@, k as int) == k);
    let path = dyld_path_bytes();
    if k - p != 13 {
        assert(image@.subrange(p as int, k as int).len() != dyld_path().len());
        return Err(LoadError::UnknownLoader(p));
    }
    let mut i: usize = 0;
    while i < 13
        invariant
            k == p + 13,
            k < image@.len(),
            p == pos + offset,
            p <= image@.len(),
            first_nul_from(image@, p as int) == k,
            path@ == dyld_path(),
            0 <= i <= 13,
            forall|j: int| 0 <= j < i ==> image@[p + j] == path@[j],
        decreases 13 - i,
    {
        if image[p + i] != path[i] {
            proof {
                assert(image@.subrange(p as int, k as int)[i as int] == image@[p + i]);
                assert(image@.subrange(p as int, k as int)[i as int] != dyld_path()[i as int]);
            }
            return Err(LoadError::UnknownLoader(p));
        }
        i = i + 1;
    }
    assert(image@.subrange(p as int, k as int) =~= dyld_path());
    Ok(())
}

/// The NUL-terminated path that starts at position `p` of the image, without
/// its NUL (up to the end of the image where there is no NUL).
pub fn loader_path_at(image: &[u8], p: usize) -> (r: Vec<u8>)
    requires
        p <= image@.len(),
    ensures
        r@ == image@.subrange(p as int, first_nul_from(image@, p as int)),
{
    let mut r: Vec<u8> = Vec::new();
    let mut k = p;
    while k < image.len() && image[k] != 0
        invariant
            p <= k <= image@.len(),
            first_nul_from(image@, p as int) == first_nul_from(image@, k as int),
            r@ == image@.subrange(p as int, k as int),
        decreases image@.len() - k,
    {
        r.push(image[k]);
        k = k + 1;
        assert(r@ =~= image@.subrange(p as int, k as int));
    }
    proof {
        if k < image@.len() {
            assert(first_nul_from(image@, k as int) == k);
        }
    }
    r
}

} // verus!
