use sandbox::error::LoadError;
use sandbox::image::{segment_layout, FileMapping, Image};
use sandbox::macho::Segment;
use sandbox::names::loader_path_at;
use sandbox::ptr::Uintptr;
use sandbox::scan::{plan_file, plan_image};

const LC_THREAD: u32 = 0x4;
const LC_UNIXTHREAD: u32 = 0x5;
const LC_LOAD_DYLINKER: u32 = 0xe;
const LC_SEGMENT_64: u32 = 0x19;
const LC_MAIN: u32 = 0x8000_0028;
const LC_UUID: u32 = 0x1b;
const CPU_TYPE_ARM64: u32 = 0x0100_000c;
const CPU_TYPE_X86_64: u32 = 0x0100_0007;

fn put32(v: &mut Vec<u8>, x: u32) {
    v.extend_from_slice(&x.to_le_bytes());
}

fn put64(v: &mut Vec<u8>, x: u64) {
    v.extend_from_slice(&x.to_le_bytes());
}

fn name16(s: &str) -> [u8; 16] {
    let mut n = [0u8; 16];
    n[..s.len()].copy_from_slice(s.as_bytes());
    n
}

fn segment(name: &str, vmaddr: u64, vmsize: u64, fileoff: u64, filesize: u64, prot: u32) -> Vec<u8> {
    let mut v = Vec::new();
    put32(&mut v, LC_SEGMENT_64);
    put32(&mut v, 72);
    v.extend_from_slice(&name16(name));
    put64(&mut v, vmaddr);
    put64(&mut v, vmsize);
    put64(&mut v, fileoff);
    put64(&mut v, filesize);
    put32(&mut v, prot);
    put32(&mut v, prot);
    put32(&mut v, 0);
    put32(&mut v, 0);
    v
}

fn dylinker(path: &[u8]) -> Vec<u8> {
    let mut v = Vec::new();
    let size = (12 + path.len() + 7) / 8 * 8;
    put32(&mut v, LC_LOAD_DYLINKER);
    put32(&mut v, size as u32);
    put32(&mut v, 12);
    v.extend_from_slice(path);
    v.resize(size, 0);
    v
}

fn main_cmd(entryoff: u64) -> Vec<u8> {
    let mut v = Vec::new();
    put32(&mut v, LC_MAIN);
    put32(&mut v, 24);
    put64(&mut v, entryoff);
    put64(&mut v, 0);
    v
}

fn thread(kind: u32, pc_at: usize, pc: u64) -> Vec<u8> {
    let mut v = Vec::new();
    let size = 8 + pc_at + 8 + 16;
    put32(&mut v, kind);
    put32(&mut v, size as u32);
    v.resize(8 + pc_at, 0);
    put64(&mut v, pc);
    v.resize(size, 0);
    v
}

fn image(cputype: u32, cmds: &[Vec<u8>]) -> Vec<u8> {
    let size: usize = cmds.iter().map(|c| c.len()).sum();
    let mut v = vec![0xcf, 0xfa, 0xed, 0xfe];
    put32(&mut v, cputype);
    put32(&mut v, 0);
    put32(&mut v, 2);
    put32(&mut v, cmds.len() as u32);
    put32(&mut v, size as u32);
    put32(&mut v, 0);
    put32(&mut v, 0);
    for c in cmds {
        v.extend_from_slice(c);
    }
    v.resize(v.len() + 64, 0);
    v
}

fn typical() -> Vec<u8> {
    image(
        CPU_TYPE_ARM64,
        &[
            segment("__PAGEZERO", 0, 0x1_0000_0000, 0, 0, 0),
            segment("__TEXT", 0x1_0000_0000, 0x4000, 0, 0x4000, 5),
            segment("__DATA", 0x1_0000_4000, 0x4000, 0x4000, 0x1000, 3),
            dylinker(b"/usr/lib/dyld"),
            main_cmd(0x3f00),
        ],
    )
}

#[test]
fn plan_collects_segments_span_and_entry() {
    let plan = plan_image(&typical()).unwrap();
    let segs = plan.segments();
    assert_eq!(segs.len(), 2);
    assert_eq!(segs[0].name, name16("__TEXT"));
    assert_eq!(segs[1].name, name16("__DATA"));
    assert_eq!(segs[1].vmaddr, 0x1_0000_4000);
    assert_eq!(segs[1].fileoff, 0x4000);
    assert_eq!(segs[1].filesize, 0x1000);
    assert_eq!(segs[1].initprot, 3);
    assert_eq!(plan.min_addr(), 0x1_0000_0000);
    assert_eq!(plan.max_addr(), 0x1_0000_8000);
    assert_eq!(plan.entry(), Some(0x3f00));
}

#[test]
fn span_is_tight_over_unordered_segments() {
    let img = image(
        CPU_TYPE_ARM64,
        &[
            segment("__DATA", 0x5000, 0x3000, 0x1000, 0x1000, 3),
            segment("__TEXT", 0x2000, 0x1000, 0, 0x1000, 5),
            segment("__LINKEDIT", 0x9000, 0x800, 0x2000, 0x800, 1),
        ],
    );
    let plan = plan_image(&img).unwrap();
    assert_eq!(plan.min_addr(), 0x2000);
    assert_eq!(plan.max_addr(), 0x9800);
    assert_eq!(plan.entry(), None);
    assert_eq!(plan.segments().len(), 3);
}

#[test]
fn first_entry_point_wins() {
    let img = image(
        CPU_TYPE_ARM64,
        &[
            segment("__TEXT", 0x1000, 0x1000, 0, 0x1000, 5),
            main_cmd(0x10),
            main_cmd(0x20),
            thread(LC_UNIXTHREAD, 264, 0x30),
        ],
    );
    let plan = plan_image(&img).unwrap();
    assert_eq!(plan.entry(), Some(0x10));
    assert!(plan.ignored_entry());
    assert!(!plan_image(&typical()).unwrap().ignored_entry());
}

#[test]
fn thread_entry_reads_arm64_pc() {
    let img = image(
        CPU_TYPE_ARM64,
        &[segment("__TEXT", 0x1000, 0x1000, 0, 0x1000, 5), thread(LC_UNIXTHREAD, 264, 0x1234_5678_9abc), main_cmd(0x20)],
    );
    let plan = plan_image(&img).unwrap();
    assert_eq!(plan.entry(), Some(0x1234_5678_9abc));
    assert!(plan.ignored_entry());
}

#[test]
fn thread_entry_reads_x86_64_pc() {
    let img = image(
        CPU_TYPE_X86_64,
        &[segment("__TEXT", 0x1000, 0x1000, 0, 0x1000, 5), thread(LC_THREAD, 136, 0x4242)],
    );
    assert_eq!(plan_image(&img).unwrap().entry(), Some(0x4242));
}

#[test]
fn thread_of_other_cpu_is_refused() {
    let img = image(7, &[segment("__TEXT", 0x1000, 0x1000, 0, 0x1000, 5), thread(LC_THREAD, 136, 0x4242)]);
    assert_eq!(plan_image(&img).err(), Some(LoadError::UnsupportedThreadCpu));
}

#[test]
fn short_thread_state_is_truncated() {
    let img = image(CPU_TYPE_ARM64, &[segment("__TEXT", 0x1000, 0x1000, 0, 0x1000, 5), thread(LC_THREAD, 128, 1)]);
    assert_eq!(plan_image(&img).err(), Some(LoadError::Truncated));
}

#[test]
fn short_image_is_truncated() {
    assert_eq!(plan_image(&[0xcf, 0xfa, 0xed, 0xfe]).err(), Some(LoadError::Truncated));
}

#[test]
fn big_endian_or_32_bit_header_is_refused() {
    let mut img = typical();
    img[0] = 0xce;
    assert_eq!(plan_image(&img).err(), Some(LoadError::NotLittleEndian64));
    let mut img = typical();
    img[..4].copy_from_slice(&[0xfe, 0xed, 0xfa, 0xcf]);
    assert_eq!(plan_image(&img).err(), Some(LoadError::NotLittleEndian64));
}

#[test]
fn oversized_command_table_is_malformed() {
    let mut img = typical();
    img[20..24].copy_from_slice(&0x10_0000u32.to_le_bytes());
    assert_eq!(plan_image(&img).err(), Some(LoadError::MalformedCommands));
}

#[test]
fn command_smaller_than_its_header_is_malformed() {
    let mut bad = main_cmd(0);
    bad[4..8].copy_from_slice(&4u32.to_le_bytes());
    let img = image(CPU_TYPE_ARM64, &[segment("__TEXT", 0x1000, 0x1000, 0, 0x1000, 5), bad]);
    assert_eq!(plan_image(&img).err(), Some(LoadError::MalformedCommands));
}

#[test]
fn command_too_short_for_its_kind_is_malformed() {
    let mut short_main = Vec::new();
    put32(&mut short_main, LC_MAIN);
    put32(&mut short_main, 16);
    put64(&mut short_main, 0x10);
    let img = image(CPU_TYPE_ARM64, &[segment("__TEXT", 0x1000, 0x1000, 0, 0x1000, 5), short_main]);
    assert_eq!(plan_image(&img).err(), Some(LoadError::MalformedCommands));
    let mut short_uuid = Vec::new();
    put32(&mut short_uuid, LC_UUID);
    put32(&mut short_uuid, 8);
    let img = image(CPU_TYPE_ARM64, &[segment("__TEXT", 0x1000, 0x1000, 0, 0x1000, 5), short_uuid]);
    assert_eq!(plan_image(&img).err(), Some(LoadError::MalformedCommands));
}

#[test]
fn unknown_commands_are_skipped() {
    let mut uuid = Vec::new();
    put32(&mut uuid, LC_UUID);
    put32(&mut uuid, 24);
    uuid.resize(24, 7);
    let img = image(CPU_TYPE_ARM64, &[uuid, segment("__TEXT", 0x1000, 0x1000, 0, 0x1000, 5)]);
    assert_eq!(plan_image(&img).unwrap().segments().len(), 1);
}

#[test]
fn other_loader_is_refused() {
    let img = image(CPU_TYPE_ARM64, &[segment("__TEXT", 0x1000, 0x1000, 0, 0x1000, 5), dylinker(b"/usr/lib/dyld2")]);
    let at = 32 + 72 + 12;
    assert_eq!(plan_image(&img).err(), Some(LoadError::UnknownLoader(at)));
    assert_eq!(loader_path_at(&img, at), b"/usr/lib/dyld2".to_vec());
    let img = image(CPU_TYPE_ARM64, &[segment("__TEXT", 0x1000, 0x1000, 0, 0x1000, 5), dylinker(b"/usr/lib/dyl")]);
    assert_eq!(plan_image(&img).err(), Some(LoadError::UnknownLoader(at)));
    assert_eq!(loader_path_at(&img, at), b"/usr/lib/dyl".to_vec());
    assert_eq!(loader_path_at(b"abc", 1), b"bc".to_vec());
}

#[test]
fn unterminated_loader_path_is_malformed() {
    let mut img = image(CPU_TYPE_ARM64, &[segment("__TEXT", 0x1000, 0x1000, 0, 0x1000, 5)]);
    let mut cmd = Vec::new();
    put32(&mut cmd, LC_LOAD_DYLINKER);
    put32(&mut cmd, 16);
    put32(&mut cmd, 12);
    cmd.extend_from_slice(b"/usr");
    img.truncate(32 + 72);
    img.extend_from_slice(&cmd);
    img[16..20].copy_from_slice(&2u32.to_le_bytes());
    img[20..24].copy_from_slice(&(72u32 + 16).to_le_bytes());
    assert_eq!(plan_image(&img).err(), Some(LoadError::MalformedCommands));
}

#[test]
fn loader_path_may_run_past_its_command() {
    let mut img = image(CPU_TYPE_ARM64, &[segment("__TEXT", 0x1000, 0x1000, 0, 0x1000, 5)]);
    let mut cmd = Vec::new();
    put32(&mut cmd, LC_LOAD_DYLINKER);
    put32(&mut cmd, 16);
    put32(&mut cmd, 12);
    cmd.extend_from_slice(b"/usr");
    img.truncate(32 + 72);
    img.extend_from_slice(&cmd);
    img.extend_from_slice(b"/lib/dyld\0");
    img[16..20].copy_from_slice(&2u32.to_le_bytes());
    img[20..24].copy_from_slice(&(72u32 + 16).to_le_bytes());
    assert!(plan_image(&img).is_ok());
}

#[test]
fn misplaced_text_is_refused() {
    let img = image(
        CPU_TYPE_ARM64,
        &[segment("__DATA", 0x1000, 0x1000, 0x1000, 0x1000, 3), segment("__TEXT", 0x2000, 0x1000, 0, 0x1000, 5)],
    );
    assert_eq!(plan_image(&img).err(), Some(LoadError::MisplacedText));
    let img = image(CPU_TYPE_ARM64, &[segment("__TEXT", 0x2000, 0x1000, 0x10, 0x1000, 5)]);
    assert_eq!(plan_image(&img).err(), Some(LoadError::MisplacedText));
}

#[test]
fn only_pagezero_means_no_segments() {
    let img = image(CPU_TYPE_ARM64, &[segment("__PAGEZERO", 0, 0x1000, 0, 0, 0)]);
    assert_eq!(plan_image(&img).err(), Some(LoadError::NoSegments));
}

#[test]
fn segment_end_past_address_space_overflows() {
    let img = image(CPU_TYPE_ARM64, &[segment("__TEXT", u64::MAX - 0xfff, 0x2000, 0, 0x1000, 5)]);
    assert_eq!(plan_image(&img).err(), Some(LoadError::AddressOverflow));
}

#[test]
fn reservation_rounds_span_to_pages() {
    let plan = plan_image(&typical()).unwrap();
    assert_eq!(plan.reservation_for_page(0x4000), Ok(0x8000));
    assert_eq!(plan.reservation_for_page(0x1000), Ok(0x8000));
    assert_eq!(plan.reservation_for_page(0x10000), Ok(0x10000));
    assert_eq!(plan.reservation_for_page(0), Err(LoadError::BadPageSize));
    assert_eq!(plan.reservation_size(), Ok(0x8000));
    let img = image(CPU_TYPE_ARM64, &[segment("__TEXT", 0x1000, 0x1234, 0, 0x1000, 5)]);
    let plan = plan_image(&img).unwrap();
    assert_eq!(plan.reservation_for_page(0x1000), Ok(0x2000));
    assert_eq!(plan.reservation_for_page(usize::MAX), Err(LoadError::AddressOverflow));
}

#[test]
fn slide_and_segment_layout() {
    let plan = plan_image(&typical()).unwrap();
    let base = Uintptr::new(0x2000_0000_0000);
    let slide = plan.slide(base);
    assert_eq!(slide, 0x2000_0000_0000 - 0x1_0000_0000);
    let data = segment_layout(&plan.segments()[1], slide, 0x8000);
    assert_eq!(data.start.addr(), 0x2000_0000_4000);
    assert_eq!(data.end.addr(), 0x2000_0000_8000);
    assert_eq!(data.size, 0x4000);
    assert_eq!(data.protection, 3);
    assert_eq!(data.file, Some(FileMapping { len: 0x1000, offset: 0xc000 }));
    let bss = Segment { name: name16("__BSS"), vmaddr: 0x10, vmsize: 0x20, fileoff: 0, filesize: 0, initprot: 3 };
    let layout = segment_layout(&bss, 0x100, 0);
    assert_eq!(layout.start.addr(), 0x110);
    assert_eq!(layout.end.addr(), 0x130);
    assert_eq!(layout.file, None);
}

#[test]
fn image_entry_is_base_plus_entry() {
    let base = Uintptr::new(0x7000_0000);
    let img = Image::from_parts(base, 0x8000, Some(0x3f00));
    assert_eq!(img.main.addr(), 0x7000_3f00);
    assert_eq!(img.end().addr(), 0x7000_8000);
    let img = Image::from_parts(base, 0x8000, None);
    assert!(img.main.is_nil());
}

#[test]
fn plan_file_reads_the_arm64_slice_of_a_fat_file() {
    let img = typical();
    let mut f = vec![0xca, 0xfe, 0xba, 0xbe];
    f.extend_from_slice(&2u32.to_le_bytes());
    for (cpu, off) in [(CPU_TYPE_X86_64, 0x1000u32), (CPU_TYPE_ARM64, 0x40)] {
        f.extend_from_slice(&cpu.to_be_bytes());
        f.extend_from_slice(&0u32.to_be_bytes());
        f.extend_from_slice(&off.to_be_bytes());
        f.extend_from_slice(&(img.len() as u32).to_be_bytes());
        f.extend_from_slice(&0u32.to_be_bytes());
    }
    f.resize(0x40, 0);
    f.extend_from_slice(&img);
    let (offset, plan) = plan_file(&f).unwrap();
    assert_eq!(offset, 0x40);
    assert_eq!(plan.entry(), Some(0x3f00));
    assert_eq!(plan.segments().len(), 2);
    let (offset, plan) = plan_file(&img).unwrap();
    assert_eq!(offset, 0);
    assert_eq!(plan.max_addr(), 0x1_0000_8000);
    f[0x40] = 0xce;
    assert_eq!(plan_file(&f).err(), Some(LoadError::NotLittleEndian64));
}
