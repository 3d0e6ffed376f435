use sandbox::disasm::{decode_instruction, disassemble};
use sandbox::image::{reservation_hint, Image, DYLD_BASE};
use sandbox::ptr::Uintptr;

#[test]
fn addresses_show_as_hex() {
    assert_eq!(Uintptr::new(0x1a2b).to_debug_string(), "0x1a2b");
    assert_eq!(Uintptr::new(0).to_debug_string(), "0x0");
    assert_eq!(Uintptr::new(0xf).to_debug_string(), "0xf");
    assert_eq!(Uintptr::new(0x10).to_debug_string(), "0x10");
}

#[test]
fn images_show_range_and_entry() {
    let img = Image::from_parts(Uintptr::new(0x7000_0000), 0x8000, Some(0x3f00));
    assert_eq!(img.to_debug_string(), "Image(0x70000000-0x70008000,entry=0x70003f00)");
    let img = Image::from_parts(Uintptr::new(0x1000), 0x10, None);
    assert_eq!(img.to_debug_string(), "Image(0x1000-0x1010,entry=0x0)");
}

#[test]
fn words_are_listed_with_addresses_and_text() {
    let nop = 0xd503_201f;
    let ret = 0xd65f_03c0;
    let words = [nop, ret, 0, nop, nop, nop, nop, nop];
    let listing = disassemble(Uintptr::new(0x1000), &words);
    assert_eq!(listing.len(), 8);
    for (i, (addr, word, text)) in listing.iter().enumerate() {
        assert_eq!(addr.addr(), 0x1000 + 4 * i);
        assert_eq!(*word, words[i]);
        assert_eq!(*text, decode_instruction(words[i]));
    }
    assert_eq!(listing[0].2.as_deref(), Some("nop"));
    assert_eq!(listing[1].2.as_deref(), Some("ret\t\tx30"));
    let wrapped = disassemble(Uintptr::new(usize::MAX - 3), &words);
    assert_eq!(wrapped[1].0.addr(), 0);
}

#[test]
fn only_the_loader_is_pinned_in_debug_builds() {
    assert_eq!(reservation_hint(true, b"/usr/lib/dyld"), (DYLD_BASE, true));
    assert_eq!(reservation_hint(false, b"/usr/lib/dyld"), (0, false));
    assert_eq!(reservation_hint(true, b"/bin/ls"), (0, false));
    assert_eq!(reservation_hint(true, b"/usr/lib/dylx"), (0, false));
    assert_eq!(DYLD_BASE, 0x100_0001_8000);
}

#[test]
fn adding_then_cancelling_returns() {
    let p = Uintptr::new(0x1234);
    let a: usize = usize::MAX - 5;
    let q = p + a;
    assert_eq!((q + (a as isize).wrapping_neg()).addr(), 0x1234);
    assert_eq!(((p + 7usize) + 9usize).addr(), (p + 7usize.wrapping_add(9)).addr());
    assert_eq!((p + 0usize).addr(), p.addr());
}
