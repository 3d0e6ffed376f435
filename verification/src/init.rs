//! The initial stack frame that the dynamic loader is entered with.

use crate::ptr::Uintptr;
use vstd::prelude::*;

verus! {

/// Maximum number of argument slots in the kernel arguments.
pub const MAX_KERNEL_ARGS: usize = 128;

/// Size of the initial stack.
pub const INIT_STACK_SIZE: usize = 1048576;

/// Size of the kernel arguments: the base address, the argument count and
/// `MAX_KERNEL_ARGS` string addresses of eight bytes each.
pub const KARGS_SIZE: usize = 1040;

/// Size of the zeroed stack space below the kernel arguments.
pub const ZEROS_SIZE: usize = INIT_STACK_SIZE - KARGS_SIZE;

/// The address of a NUL-terminated string, or null.
#[derive(Clone, Copy, PartialEq, Eq, Structural, Debug)]
pub struct Sz(Uintptr);

impl Sz {
    /// The null string address, in specifications.
    pub open spec fn nil_spec() -> Sz {
        Sz::at_spec(Uintptr::nil_spec())
    }

    /// The string at `addr`, in specifications.
    pub closed spec fn at_spec(addr: Uintptr) -> Sz {
        Sz(addr)
    }

    /// A string address is determined by the address it holds.
    pub proof fn lemma_at_injective(a: Uintptr, b: Uintptr)
        ensures
            Sz::at_spec(a) == Sz::at_spec(b) <==> a == b,
    {
    }

    /// The null string address.
    pub fn nil() -> (r: Sz)
        ensures
            r == Sz::nil_spec(),
    {
        Sz(Uintptr::nil())
    }

    /// The string at `addr`.
    pub fn new(addr: Uintptr) -> (r: Sz)
        ensures
            r == Sz::at_spec(addr),
    {
        Sz(addr)
    }

    /// The address of the string.
    pub fn addr(self) -> (r: Uintptr)
        ensures
            Sz::at_spec(r) == self,
    {
        self.0
    }
}

/// The arguments the dynamic loader finds on its initial stack: the base
/// address of the main image, the argument count and the argument, environment
/// and auxiliary string vectors, each ended by a null entry.
#[derive(Debug, Clone, Copy)]
pub struct KernelArgs {
    /// Base address of the main image.
    pub base: Uintptr,
    /// Number of program arguments.
    pub argc: usize,
    /// The string vectors.
    pub args: [Sz; MAX_KERNEL_ARGS],
}

/// The initial stack: zeroed space, with the kernel arguments at its top.
pub struct InitStackFrame {
    /// The stack space below the arguments.
    pub zero: [u8; ZEROS_SIZE],
    /// The kernel arguments.
    pub args: KernelArgs,
}

impl KernelArgs {
    /// Kernel arguments for the image at `base`, with no argument and every
    /// slot null.
    pub fn new(base: Uintptr) -> (r: KernelArgs)
        ensures
            r.base == base,
            r.argc == 0,
            forall|i: int| 0 <= i < MAX_KERNEL_ARGS ==> #[trigger] r.args[i] == Sz::nil_spec(),
    {
        KernelArgs { base, argc: 0, args: [Sz::nil(); MAX_KERNEL_ARGS] }
    }
}

impl InitStackFrame {
    /// A zeroed initial stack whose kernel arguments name the image at `base`.
    pub fn new(base: Uintptr) -> (r: Box<InitStackFrame>)
        ensures
            r.args.base == base,
            r.args.argc == 0,
            forall|i: int| 0 <= i < MAX_KERNEL_ARGS ==> #[trigger] r.args.args[i] == Sz::nil_spec(),
            forall|i: int| 0 <= i < ZEROS_SIZE ==> #[trigger] r.zero[i] == 0,
    {
        Box::new(InitStackFrame { zero: [0u8; ZEROS_SIZE], args: KernelArgs::new(base) })
    }
}

} // verus!
