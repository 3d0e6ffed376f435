use sandbox::error::LoadError;
use sandbox::fat::{classify_magic, find_binary, image_slice, Container};

fn fat(count_bytes: [u8; 4], entries: &[(u32, u64)], is64: bool, extra: usize) -> Vec<u8> {
    let mut v = vec![0xca, 0xfe, 0xba, if is64 { 0xbf } else { 0xbe }];
    v.extend_from_slice(&count_bytes);
    for &(cpu, off) in entries {
        v.extend_from_slice(&cpu.to_be_bytes());
        v.extend_from_slice(&0u32.to_be_bytes());
        if is64 {
            v.extend_from_slice(&off.to_be_bytes());
            v.extend_from_slice(&0x100u64.to_be_bytes());
            v.extend_from_slice(&0u32.to_be_bytes());
            v.extend_from_slice(&0u32.to_be_bytes());
        } else {
            v.extend_from_slice(&(off as u32).to_be_bytes());
            v.extend_from_slice(&0x100u32.to_be_bytes());
            v.extend_from_slice(&0u32.to_be_bytes());
        }
    }
    v.resize(v.len() + extra, 0);
    v
}

#[test]
fn magic_numbers_are_classified() {
    assert_eq!(classify_magic(0xfeed_facf), Ok(Container::Thin));
    assert_eq!(classify_magic(0xbeba_feca), Ok(Container::Fat32));
    assert_eq!(classify_magic(0xbfba_feca), Ok(Container::Fat64));
    assert_eq!(classify_magic(0xfeed_face), Err(LoadError::Unsupported32Bit));
    assert_eq!(classify_magic(0x7f45_4c46), Err(LoadError::NotMachO));
}

#[test]
fn thin_file_starts_at_zero() {
    let mut v = vec![0xcf, 0xfa, 0xed, 0xfe];
    v.resize(100, 0);
    assert_eq!(image_slice(&v), Ok((0, 100)));
}

#[test]
fn thirty_two_bit_and_unknown_files_are_refused() {
    assert_eq!(image_slice(&[0xce, 0xfa, 0xed, 0xfe, 0, 0]), Err(LoadError::Unsupported32Bit));
    assert_eq!(image_slice(&[0x7f, b'E', b'L', b'F']), Err(LoadError::NotMachO));
    assert_eq!(image_slice(&[0xcf, 0xfa]), Err(LoadError::Truncated));
}

#[test]
fn fat_file_gives_the_arm64_slice() {
    let f = fat(2u32.to_le_bytes(), &[(0x0100_0007, 0x40), (0x0100_000c, 0x60)], false, 0x100);
    assert_eq!(find_binary(&f, false), Ok(0x60));
    assert_eq!(image_slice(&f), Ok((0x60, f.len() - 0x60)));
    let f = fat(2u32.to_le_bytes(), &[(0x0100_000c, 0x1_0000_0040), (0x0100_0007, 0x60)], true, 0);
    assert_eq!(find_binary(&f, true), Ok(0x1_0000_0040));
    assert_eq!(image_slice(&f), Err(LoadError::Truncated));
}

#[test]
fn fat_count_is_read_in_host_order() {
    // A count stored big-endian reads as a large number; the scan still
    // stops at the first arm64 entry.
    let f = fat(2u32.to_be_bytes(), &[(0x0100_000c, 0x40)], false, 0x40);
    assert_eq!(find_binary(&f, false), Ok(0x40));
    // Without an arm64 entry it runs off the end of the file.
    let f = fat(2u32.to_be_bytes(), &[(0x0100_0007, 0x40)], false, 4);
    assert_eq!(find_binary(&f, false), Err(LoadError::Truncated));
}

#[test]
fn fat_file_without_arm64_slice_is_refused() {
    let f = fat(1u32.to_le_bytes(), &[(0x0100_0007, 0x40)], false, 0x40);
    assert_eq!(find_binary(&f, false), Err(LoadError::NoMatchingArch));
    assert_eq!(find_binary(&f[..6], false), Err(LoadError::Truncated));
    let f = fat(0u32.to_le_bytes(), &[], false, 0);
    assert_eq!(find_binary(&f, false), Err(LoadError::NoMatchingArch));
}
