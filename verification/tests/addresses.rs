use sandbox::init::{InitStackFrame, KernelArgs, Sz, INIT_STACK_SIZE, KARGS_SIZE, MAX_KERNEL_ARGS, ZEROS_SIZE};
use sandbox::ptr::Uintptr;

#[test]
fn address_basics() {
    let p = Uintptr::new(0x1000);
    assert_eq!(p.addr(), 0x1000);
    assert!(!p.is_nil());
    assert!(Uintptr::nil().is_nil());
    assert!(Uintptr::new(0).is_nil());
}

#[test]
fn addition_wraps_around() {
    let p = Uintptr::new(0x1000);
    assert_eq!((p + 0x10u64).addr(), 0x1010);
    assert_eq!((p + 0x10usize).addr(), 0x1010);
    assert_eq!((p + (-0x10i64)).addr(), 0xff0);
    assert_eq!((p + (-0x10isize)).addr(), 0xff0);
    assert_eq!((Uintptr::new(usize::MAX) + 1usize).addr(), 0);
    assert_eq!((Uintptr::new(0) + (-1isize)).addr(), usize::MAX);
    let mut q = Uintptr::new(5);
    q += 3u64;
    q += -1i64;
    q += 10usize;
    q += -2isize;
    assert_eq!(q.addr(), 15);
}

#[test]
fn kernel_args_start_empty() {
    let args = KernelArgs::new(Uintptr::new(0x4000));
    assert_eq!(args.base.addr(), 0x4000);
    assert_eq!(args.argc, 0);
    assert!(args.args.iter().all(|s| s.addr().is_nil()));
    assert_eq!(args.args.len(), MAX_KERNEL_ARGS);
    assert_eq!(Sz::new(Uintptr::new(9)).addr().addr(), 9);
}

#[test]
fn stack_sizes_add_up() {
    assert_eq!(KARGS_SIZE, std::mem::size_of::<KernelArgs>());
    assert_eq!(ZEROS_SIZE + KARGS_SIZE, INIT_STACK_SIZE);
}

#[test]
fn init_stack_frame_is_zeroed() {
    let frame = InitStackFrame::new(Uintptr::new(0x8000));
    assert_eq!(frame.args.base.addr(), 0x8000);
    assert_eq!(frame.args.argc, 0);
    assert!(frame.zero.iter().all(|&b| b == 0));
}
