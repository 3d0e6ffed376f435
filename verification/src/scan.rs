//! What loading learns from the load commands of an image: the segments to
//! map, the span of addresses they cover and the entry point.

use crate::bytes::{be_u32, le_u32, le_u64, lemma_le_uint_subrange, read_u32_be, read_u32_le, read_u64_le};
use crate::error::LoadError;
use crate::fat::{image_slice, image_slice_of, CPU_TYPE_ARM64, CPU_TYPE_X86_64};
use crate::macho::{
    command_bytes, command_kind, command_variant, commands_left, load_commands,
    command_view, lemma_command_view, next_command, unread_commands, Command, CommandView, Segment,
    SegmentView, HEADER_SIZE,
};
use crate::names::{
    check_loader, has_segment_name, loader_check, nul_free, pagezero_bytes, pagezero_name,
    segment_name, text_bytes, text_name,
};
use vstd::prelude::*;

verus! {

/// Magic number of a 64-bit little-endian Mach-O header, read big-endian.
pub const MH_CIGAM_64: u32 = 0xcffa_edfe;

/// What the load commands say, as far as loading needs it.
pub ghost struct Summary {
    /// The entry point: the program counter of the first thread command or
    /// the offset of the first `LC_MAIN`, whichever comes first.
    pub entry: Option<u64>,
    /// Whether an `LC_MAIN` came after the entry point was chosen and was
    /// ignored.
    pub ignored_entry: bool,
    /// The segments to load, in command order, without `__PAGEZERO`.
    pub segments: Seq<SegmentView>,
    /// The lowest address of a segment to load (`u64::MAX` while there is none).
    pub min_addr: u64,
    /// The highest end address of a segment to load (0 while there is none).
    pub max_addr: u64,
}

/// The summary before any command is read.
pub open spec fn initial_summary() -> Summary {
    Summary { entry: None, ignored_entry: false, segments: Seq::empty(), min_addr: u64::MAX, max_addr: 0 }
}

/// Offset of the program counter in the thread state of a thread command,
/// counted from the end of the command header.
pub open spec fn pc_offset(cputype: u32) -> int {
    if cputype == CPU_TYPE_X86_64 {
        136
    } else {
        264
    }
}

/// The program counter that a thread command with state `d` starts at, for
/// an image of CPU type `cputype`.
pub open spec fn thread_entry(cputype: u32, d: Seq<u8>) -> Result<u64, LoadError> {
    if cputype != CPU_TYPE_X86_64 && cputype != CPU_TYPE_ARM64 {
        Err(LoadError::UnsupportedThreadCpu)
    } else if d.len() < pc_offset(cputype) + 8 {
        Err(LoadError::Truncated)
    } else {
        Ok(le_u64(d, pc_offset(cputype)))
    }
}

/// The effect of one command, found at position `pos` of the image, on the
/// summary.
pub open spec fn command_effect(image: Seq<u8>, cputype: u32, pos: int, st: Summary, c: CommandView) -> Result<Summary, LoadError> {
    match c {
        CommandView::Segment64(seg) => {
            if segment_name(seg.name) == pagezero_name() {
                Ok(st)
            } else if seg.vmaddr + seg.vmsize > u64::MAX {
                Err(LoadError::AddressOverflow)
            } else {
                let end = (seg.vmaddr + seg.vmsize) as u64;
                Ok(
                    Summary {
                        entry: st.entry,
                        ignored_entry: st.ignored_entry,
                        segments: st.segments.push(seg),
                        min_addr: if seg.vmaddr < st.min_addr {
                            seg.vmaddr
                        } else {
                            st.min_addr
                        },
                        max_addr: if end > st.max_addr {
                            end
                        } else {
                            st.max_addr
                        },
                    },
                )
            }
        },
        CommandView::Thread(d) => {
            if st.entry is Some {
                Ok(st)
            } else {
                match thread_entry(cputype, d) {
                    Ok(pc) => Ok(Summary { entry: Some(pc), ..st }),
                    Err(e) => Err(e),
                }
            }
        },
        CommandView::LoadDylinker(offset) => {
            match loader_check(image, pos + offset) {
                Ok(_) => Ok(st),
                Err(e) => Err(e),
            }
        },
        CommandView::EntryPoint(off) => {
            if st.entry is Some {
                Ok(Summary { ignored_entry: true, ..st })
            } else {
                Ok(Summary { entry: Some(off), ..st })
            }
        },
        CommandView::Other => Ok(st),
    }
}

/// Reads `n` commands from position `pos` of a table that ends at `end`,
/// applying each to the summary; the first malformed command or refused
/// effect ends the reading with an error.
pub open spec fn scan_from(image: Seq<u8>, cputype: u32, end: int, pos: int, n: nat, st: Summary) -> Result<Summary, LoadError>
    decreases n,
{
    if n == 0 {
        Ok(st)
    } else if end - pos < 8 || le_u32(image, pos + 4) < 8 || le_u32(image, pos + 4) > end - pos {
        Err(LoadError::MalformedCommands)
    } else {
        let size = le_u32(image, pos + 4) as int;
        match command_view(le_u32(image, pos), image.subrange(pos, pos + size)) {
            Err(_) => Err(LoadError::MalformedCommands),
            Ok(c) => match command_effect(image, cputype, pos, st, c) {
                Err(e) => Err(e),
                Ok(s) => scan_from(image, cputype, end, pos + size, (n - 1) as nat, s),
            },
        }
    }
}

/// The index of the first segment named `__TEXT` at or after `i`, or the
/// number of segments where there is none.
pub open spec fn first_text_from(segs: Seq<SegmentView>, i: int) -> int
    decreases segs.len() - i,
{
    if i >= segs.len() {
        segs.len() as int
    } else if segment_name(segs[i].name) == text_name() {
        i
    } else {
        first_text_from(segs, i + 1)
    }
}

/// Whether the first `__TEXT` segment, if any, starts at file offset 0 and
/// at the lowest address.
pub open spec fn text_placed(s: Summary) -> bool {
    let i = first_text_from(s.segments, 0);
    i < s.segments.len() ==> s.segments[i].fileoff == 0 && s.segments[i].vmaddr == s.min_addr
}

/// What the load commands of `image` say, or why the image is refused.
pub open spec fn plan_of(image: Seq<u8>) -> Result<Summary, LoadError> {
    if image.len() < HEADER_SIZE {
        Err(LoadError::Truncated)
    } else if be_u32(image, 0) != MH_CIGAM_64 {
        Err(LoadError::NotLittleEndian64)
    } else if HEADER_SIZE + le_u32(image, 20) > image.len() {
        Err(LoadError::MalformedCommands)
    } else {
        match scan_from(
            image,
            le_u32(image, 4),
            HEADER_SIZE + le_u32(image, 20),
            HEADER_SIZE as int,
            le_u32(image, 16) as nat,
            initial_summary(),
        ) {
            Err(e) => Err(e),
            Ok(s) => if !text_placed(s) {
                Err(LoadError::MisplacedText)
            } else if s.segments.len() == 0 {
                Err(LoadError::NoSegments)
            } else {
                Ok(s)
            },
        }
    }
}

/// The segments, address span and entry point of an image.
pub struct LoadPlan {
    segments: Vec<Segment>,
    min_addr: u64,
    max_addr: u64,
    entry: Option<u64>,
    ignored_entry: bool,
}

impl View for LoadPlan {
    type V = Summary;

    closed spec fn view(&self) -> Summary {
        Summary {
            entry: self.entry,
            ignored_entry: self.ignored_entry,
            segments: self.segments@.map_values(|seg: Segment| seg@),
            min_addr: self.min_addr,
            max_addr: self.max_addr,
        }
    }
}

/// The names `__PAGEZERO` and `__TEXT` hold no NUL byte.
proof fn lemma_names_nul_free()
    ensures
        nul_free(pagezero_name()),
        nul_free(text_name()),
{
    assert(nul_free(pagezero_name()));
    assert(nul_free(text_name()));
}

impl LoadPlan {
    /// Every plan is well formed.
    #[verifier::type_invariant]
    pub open spec fn inv(self) -> bool {
        plan_wf(self@)
    }

    /// The segments to load.
    pub fn segments(&self) -> (r: &Vec<Segment>)
        ensures
            r@.map_values(|seg: Segment| seg@) == self@.segments,
    {
        &self.segments
    }

    /// The lowest address of a segment.
    pub fn min_addr(&self) -> (r: u64)
        ensures
            r == self@.min_addr,
    {
        self.min_addr
    }

    /// The highest end address of a segment.
    pub fn max_addr(&self) -> (r: u64)
        ensures
            r == self@.max_addr,
    {
        self.max_addr
    }

    /// Whether an `LC_MAIN` that came after the entry point was chosen was
    /// ignored.
    pub fn ignored_entry(&self) -> (r: bool)
        ensures
            r == self@.ignored_entry,
    {
        self.ignored_entry
    }

    /// The entry point, if the image names one.
    pub fn entry(&self) -> (r: Option<u64>)
        ensures
            r == self@.entry,
    {
        self.entry
    }

}

/// A plan while the commands are being read.
struct PlanBuilder {
    segments: Vec<Segment>,
    min_addr: u64,
    max_addr: u64,
    entry: Option<u64>,
    ignored_entry: bool,
}

impl View for PlanBuilder {
    type V = Summary;

    closed spec fn view(&self) -> Summary {
        Summary {
            entry: self.entry,
            ignored_entry: self.ignored_entry,
            segments: self.segments@.map_values(|seg: Segment| seg@),
            min_addr: self.min_addr,
            max_addr: self.max_addr,
        }
    }
}

impl PlanBuilder {
    /// Applies one command, found at position `pos` of the image.
    fn apply(&mut self, image: &[u8], cputype: u32, pos: usize, c: Command) -> (r: Result<(), LoadError>)
        requires
            pos <= image@.len(),
        ensures
            match command_effect(image@, cputype, pos as int, old(self)@, c@) {
                Ok(s) => r is Ok && final(self)@ == s,
                Err(e) => r == Err::<(), LoadError>(e),
            },
    {
        match c {
            Command::Segment64(seg) => {
                let pz = pagezero_bytes();
                proof {
                    lemma_names_nul_free();
                }
                if has_segment_name(&seg.name, &pz) {
                    return Ok(());
                }
                if seg.vmsize > u64::MAX - seg.vmaddr {
                    return Err(LoadError::AddressOverflow);
                }
                let end = seg.vmaddr + seg.vmsize;
                if seg.vmaddr < self.min_addr {
                    self.min_addr = seg.vmaddr;
                }
                if end > self.max_addr {
                    self.max_addr = end;
                }
                self.segments.push(seg);
                assert(self@.segments =~= old(self)@.segments.push(seg@));
                Ok(())
            },
            Command::Thread(d) => {
                if self.entry.is_some() {
                    return Ok(());
                }
                if cputype != CPU_TYPE_X86_64 && cputype != CPU_TYPE_ARM64 {
                    return Err(LoadError::UnsupportedThreadCpu);
                }
                let off: usize = if cputype == CPU_TYPE_X86_64 {
                    136
                } else {
                    264
                };
                if d.len() < off + 8 {
                    return Err(LoadError::Truncated);
                }
                self.entry = Some(read_u64_le(d.as_slice(), off));
                Ok(())
            },
            Command::LoadDylinker(offset) => check_loader(image, pos, offset),
            Command::EntryPoint(off) => {
                if self.entry.is_none() {
                    self.entry = Some(off);
                } else {
                    self.ignored_entry = true;
                }
                Ok(())
            },
            Command::Other => Ok(()),
        }
    }

    /// Checks that the first `__TEXT` segment starts at file offset 0 and at
    /// the lowest address.
    fn check_text(&self) -> (r: bool)
        ensures
            r == text_placed(self@),
    {
        let text = text_bytes();
        proof {
            lemma_names_nul_free();
        }
        let mut i: usize = 0;
        while i < self.segments.len()
            invariant
                0 <= i <= self.segments@.len(),
                text@ == text_name(),
                nul_free(text_name()),
                first_text_from(self@.segments, 0) == first_text_from(self@.segments, i as int),
                self@.segments == self.segments@.map_values(|seg: Segment| seg@),
            decreases self.segments@.len() - i,
        {
            let seg = &self.segments[i];
            if has_segment_name(&seg.name, &text) {
                return seg.fileoff == 0 && seg.vmaddr == self.min_addr;
            }
            i = i + 1;
        }
        true
    }
}

/// Reads the load commands of an image (the Mach-O header at its start and
/// the table that follows): the segments to load, their address span and
/// the entry point.
pub fn plan_image(image: &[u8]) -> (r: Result<LoadPlan, LoadError>)
    ensures
        match plan_of(image@) {
            Ok(s) => r matches Ok(p) && p@ == s,
            Err(e) => r matches Err(x) && x == e,
        },
        r matches Ok(p) ==> plan_wf(p@),
        r matches Ok(p) ==> p@.segments == loadable_segments(image_commands(image@)),
        r matches Ok(p) ==> p@.entry == first_entry(image_commands(image@), le_u32(image@, 4)),
{
    proof {
        lemma_plan_wf(image@);
        lemma_plan_segments(image@);
        lemma_plan_entry(image@);
    }
    if image.len() < HEADER_SIZE {
        return Err(LoadError::Truncated);
    }
    if read_u32_be(image, 0) != MH_CIGAM_64 {
        return Err(LoadError::NotLittleEndian64);
    }
    let cputype = read_u32_le(image, 4);
    let ncmds = read_u32_le(image, 16);
    let sizeofcmds = read_u32_le(image, 20);
    if sizeofcmds as usize > image.len() - HEADER_SIZE {
        return Err(LoadError::MalformedCommands);
    }
    let end = HEADER_SIZE + sizeofcmds as usize;
    let mut cursor = match load_commands(image) {
        Ok(c) => c,
        Err(_) => {
            return Err(LoadError::MalformedCommands);
        },
    };
    let mut plan = PlanBuilder {
        segments: Vec::new(),
        min_addr: u64::MAX,
        max_addr: 0,
        entry: None,
        ignored_entry: false,
    };
    proof {
        assert(plan@.segments =~= initial_summary().segments);
    }
    let ghost full = scan_from(image@, cputype, end as int, HEADER_SIZE as int, ncmds as nat, initial_summary());
    let mut pos: usize = HEADER_SIZE;
    let mut n: u32 = ncmds;
    while n > 0
        invariant
            HEADER_SIZE <= pos <= end <= image@.len(),
            unread_commands(cursor) == image@.subrange(pos as int, end as int),
            commands_left(cursor) == n,
            full == scan_from(image@, cputype, end as int, pos as int, n as nat, plan@),
            image@.len() >= HEADER_SIZE,
            be_u32(image@, 0) == MH_CIGAM_64,
            end == HEADER_SIZE + le_u32(image@, 20),
            cputype == le_u32(image@, 4),
            full == scan_from(
                image@,
                le_u32(image@, 4),
                HEADER_SIZE + le_u32(image@, 20),
                HEADER_SIZE as int,
                le_u32(image@, 16) as nat,
                initial_summary(),
            ),
        decreases n,
    {
        let ghost d = unread_commands(cursor);
        let next = next_command(&mut cursor);
        proof {
            if d.len() >= 8 {
                lemma_le_uint_subrange(image@, pos as int, end as int, 0, 4);
                lemma_le_uint_subrange(image@, pos as int, end as int, 4, 4);
            }
        }
        let c = match next {
            Ok(Some(c)) => c,
            _ => {
                return Err(LoadError::MalformedCommands);
            },
        };
        let size = read_u32_le(image, pos + 4) as usize;
        proof {
            assert(command_bytes(c) =~= image@.subrange(pos as int, pos + size));
            assert(unread_commands(cursor) =~= image@.subrange(pos + size, end as int));
        }
        let variant = command_variant(&c);
        proof {
            lemma_command_view(command_kind(c), command_bytes(c), variant);
        }
        let v = match variant {
            Ok(v) => v,
            Err(_) => {
                return Err(LoadError::MalformedCommands);
            },
        };
        match plan.apply(image, cputype, pos, v) {
            Ok(()) => {},
            Err(e) => {
                return Err(e);
            },
        }
        pos = pos + size;
        n = n - 1;
    }
    if !plan.check_text() {
        return Err(LoadError::MisplacedText);
    }
    if plan.segments.len() == 0 {
        return Err(LoadError::NoSegments);
    }
    let r = LoadPlan {
        segments: plan.segments,
        min_addr: plan.min_addr,
        max_addr: plan.max_addr,
        entry: plan.entry,
        ignored_entry: plan.ignored_entry,
    };
    Ok(r)
}

/// What every plan satisfies: it has a segment, its span is well formed and
/// does not end before it starts.
pub open spec fn plan_wf(s: Summary) -> bool {
    summary_wf(s) && s.segments.len() > 0 && s.min_addr <= s.max_addr
}

/// The span of a summary covers each of its segments and is the tightest
/// that does, and no segment is `__PAGEZERO`.
pub open spec fn summary_wf(s: Summary) -> bool {
    &&& forall|i: int|
        0 <= i < s.segments.len() ==> segment_name(#[trigger] s.segments[i].name) != pagezero_name()
    &&& forall|i: int|
        0 <= i < s.segments.len() ==> s.min_addr <= (#[trigger] s.segments[i]).vmaddr
            && s.segments[i].vmaddr + s.segments[i].vmsize <= s.max_addr
    &&& s.segments.len() == 0 ==> s.min_addr == u64::MAX && s.max_addr == 0
    &&& s.segments.len() > 0 ==> (exists|i: int|
        0 <= i < s.segments.len() && s.min_addr == (#[trigger] s.segments[i]).vmaddr)
    &&& s.segments.len() > 0 ==> (exists|j: int|
        0 <= j < s.segments.len() && s.max_addr == (#[trigger] s.segments[j]).vmaddr
            + s.segments[j].vmsize)
}

/// One command keeps a summary well formed, and keeps a chosen entry point.
proof fn lemma_effect_wf(image: Seq<u8>, cputype: u32, pos: int, st: Summary, c: CommandView)
    requires
        summary_wf(st),
    ensures
        command_effect(image, cputype, pos, st, c) matches Ok(s) ==> summary_wf(s) && (st.entry is Some ==> s.entry == st.entry),
{
    if let CommandView::Segment64(seg) = c {
        if let Ok(s) = command_effect(image, cputype, pos, st, c) {
            if segment_name(seg.name) != pagezero_name() {
                let n = st.segments.len() as int;
                assert(s.segments[n] == seg);
                assert forall|i: int| 0 <= i < s.segments.len() implies segment_name(
                    #[trigger] s.segments[i].name,
                ) != pagezero_name() by {
                    if i < n {
                        assert(s.segments[i] == st.segments[i]);
                    }
                }
                assert forall|i: int| 0 <= i < s.segments.len() implies s.min_addr <= (
                #[trigger] s.segments[i]).vmaddr && s.segments[i].vmaddr + s.segments[i].vmsize
                    <= s.max_addr by {
                    if i < n {
                        assert(s.segments[i] == st.segments[i]);
                    }
                }
                if n == 0 {
                    assert(s.min_addr == s.segments[0].vmaddr);
                    assert(s.max_addr == s.segments[0].vmaddr + s.segments[0].vmsize);
                } else {
                    let i = choose|i: int| 0 <= i < n && st.min_addr == (#[trigger] st.segments[i]).vmaddr;
                    let j = choose|j: int| 0 <= j < n && st.max_addr == (#[trigger] st.segments[j]).vmaddr + st.segments[j].vmsize;
                    assert(s.segments[i] == st.segments[i]);
                    assert(s.segments[j] == st.segments[j]);
                    if seg.vmaddr < st.min_addr {
                        assert(s.min_addr == s.segments[n].vmaddr);
                    } else {
                        assert(s.min_addr == s.segments[i].vmaddr);
                    }
                    if seg.vmaddr + seg.vmsize > st.max_addr {
                        assert(s.max_addr == s.segments[n].vmaddr + s.segments[n].vmsize);
                    } else {
                        assert(s.max_addr == s.segments[j].vmaddr + s.segments[j].vmsize);
                    }
                }
            }
        }
    }
}

/// Reading commands keeps a summary well formed, and keeps a chosen entry point.
proof fn lemma_scan_wf(image: Seq<u8>, cputype: u32, end: int, pos: int, n: nat, st: Summary)
    requires
        summary_wf(st),
    ensures
        scan_from(image, cputype, end, pos, n, st) matches Ok(s) ==> summary_wf(s) && (st.entry is Some ==> s.entry == st.entry),
    decreases n,
{
    if n > 0 && !(end - pos < 8 || le_u32(image, pos + 4) < 8 || le_u32(image, pos + 4) > end - pos) {
        let size = le_u32(image, pos + 4) as int;
        if let Ok(c) = command_view(le_u32(image, pos), image.subrange(pos, pos + size)) {
            lemma_effect_wf(image, cputype, pos, st, c);
            if let Ok(s) = command_effect(image, cputype, pos, st, c) {
                lemma_scan_wf(image, cputype, end, pos + size, (n - 1) as nat, s);
            }
        }
    }
}

/// The plan of an image that loads holds at least one segment; its span
/// covers every segment, starts at the lowest segment address and ends at
/// the highest segment end; no segment of it is `__PAGEZERO`.
pub proof fn lemma_plan_wf(image: Seq<u8>)
    ensures
        plan_of(image) matches Ok(s) ==> summary_wf(s) && s.segments.len() > 0 && s.min_addr
            <= s.max_addr,
{
    if plan_of(image) is Ok {
        lemma_scan_wf(
            image,
            le_u32(image, 4),
            HEADER_SIZE + le_u32(image, 20),
            HEADER_SIZE as int,
            le_u32(image, 16) as nat,
            initial_summary(),
        );
    }
}

/// Once an entry point is chosen, later commands do not change it: the first
/// thread command or `LC_MAIN` gives the entry point.
pub proof fn lemma_first_entry_wins(image: Seq<u8>, cputype: u32, end: int, pos: int, n: nat, st: Summary)
    requires
        summary_wf(st),
        st.entry is Some,
    ensures
        scan_from(image, cputype, end, pos, n, st) matches Ok(s) ==> s.entry == st.entry,
{
    lemma_scan_wf(image, cputype, end, pos, n, st);
}

/// What loading decides from the bytes of a file: where the image starts in
/// it and the plan of that image.
pub open spec fn file_plan_of(file: Seq<u8>) -> Result<(usize, Summary), LoadError> {
    match image_slice_of(file) {
        Err(e) => Err(e),
        Ok((off, len)) => match plan_of(file.subrange(off as int, off + len)) {
            Err(e) => Err(e),
            Ok(s) => Ok((off, s)),
        },
    }
}

/// Locates the image in a (possibly fat) file and reads its load commands:
/// the image's offset in the file and its plan.
pub fn plan_file(file: &[u8]) -> (r: Result<(usize, LoadPlan), LoadError>)
    ensures
        match file_plan_of(file@) {
            Ok((off, s)) => r matches Ok((o, p)) && o == off && p@ == s,
            Err(e) => r matches Err(x) && x == e,
        },
        r matches Ok((_, p)) ==> plan_wf(p@),
{
    let (offset, len) = match image_slice(file) {
        Ok(slice) => slice,
        Err(e) => {
            return Err(e);
        },
    };
    assert(file@.len() == file.len());
    let image = vstd::slice::slice_subrange(file, offset, offset + len);
    match plan_image(image) {
        Ok(plan) => Ok((offset, plan)),
        Err(e) => Err(e),
    }
}

/// The well-formed load commands of a table that ends at `end`, the `n`
/// commands from position `pos` on, in table order; the list stops at the
/// first command whose size field or bytes do not hold a command.
pub open spec fn table_commands(image: Seq<u8>, end: int, pos: int, n: nat) -> Seq<CommandView>
    decreases n,
{
    if n == 0 || end - pos < 8 || le_u32(image, pos + 4) < 8 || le_u32(image, pos + 4) > end - pos {
        Seq::empty()
    } else {
        let size = le_u32(image, pos + 4) as int;
        match command_view(le_u32(image, pos), image.subrange(pos, pos + size)) {
            Err(_) => Seq::empty(),
            Ok(c) => seq![c] + table_commands(image, end, pos + size, (n - 1) as nat),
        }
    }
}

/// The load commands of an image: the `ncmds` commands of the table of
/// `sizeofcmds` bytes that follows the 64-bit header.
pub open spec fn image_commands(image: Seq<u8>) -> Seq<CommandView> {
    table_commands(image, HEADER_SIZE + le_u32(image, 20), HEADER_SIZE as int, le_u32(image, 16) as nat)
}

/// The segment commands of `cmds`, in order, leaving out exactly those named
/// `__PAGEZERO`.
pub open spec fn loadable_segments(cmds: Seq<CommandView>) -> Seq<SegmentView>
    decreases cmds.len(),
{
    if cmds.len() == 0 {
        Seq::empty()
    } else {
        let rest = loadable_segments(cmds.drop_first());
        match cmds[0] {
            CommandView::Segment64(seg) => if segment_name(seg.name) == pagezero_name() {
                rest
            } else {
                seq![seg] + rest
            },
            _ => rest,
        }
    }
}

/// Reading commands appends to the segments read so far exactly the segment
/// commands read, less those named `__PAGEZERO`.
proof fn lemma_scan_segments(image: Seq<u8>, cputype: u32, end: int, pos: int, n: nat, st: Summary)
    ensures
        scan_from(image, cputype, end, pos, n, st) matches Ok(s) ==> s.segments == st.segments
            + loadable_segments(table_commands(image, end, pos, n)),
    decreases n,
{
    let cmds = table_commands(image, end, pos, n);
    if n == 0 || end - pos < 8 || le_u32(image, pos + 4) < 8 || le_u32(image, pos + 4) > end - pos {
        assert(st.segments + loadable_segments(cmds) =~= st.segments);
    } else {
        let size = le_u32(image, pos + 4) as int;
        if let Ok(c) = command_view(le_u32(image, pos), image.subrange(pos, pos + size)) {
            if let Ok(st2) = command_effect(image, cputype, pos, st, c) {
                lemma_scan_segments(image, cputype, end, pos + size, (n - 1) as nat, st2);
                let rest = table_commands(image, end, pos + size, (n - 1) as nat);
                assert(cmds.drop_first() =~= rest);
                assert(cmds[0] == c);
                if let CommandView::Segment64(seg) = c {
                    if segment_name(seg.name) != pagezero_name() {
                        assert(st2.segments == st.segments.push(seg));
                        assert(st.segments.push(seg) + loadable_segments(rest) =~= st.segments + (
                        seq![seg] + loadable_segments(rest)));
                    }
                }
            }
        }
    }
}

/// The segments of an image's plan are exactly its segment commands, in
/// command order, less those named `__PAGEZERO`: every other segment command
/// is in the plan, whatever its address and however many there are.
pub proof fn lemma_plan_segments(image: Seq<u8>)
    ensures
        plan_of(image) matches Ok(s) ==> s.segments == loadable_segments(image_commands(image)),
{
    lemma_scan_segments(
        image,
        le_u32(image, 4),
        HEADER_SIZE + le_u32(image, 20),
        HEADER_SIZE as int,
        le_u32(image, 16) as nat,
        initial_summary(),
    );
    assert(initial_summary().segments + loadable_segments(image_commands(image)) =~= loadable_segments(
        image_commands(image),
    ));
}

/// The entry point that the first thread command or `LC_MAIN` of `cmds`
/// gives: a thread command's program counter, an `LC_MAIN`'s offset.
pub open spec fn first_entry(cmds: Seq<CommandView>, cputype: u32) -> Option<u64>
    decreases cmds.len(),
{
    if cmds.len() == 0 {
        None
    } else {
        match cmds[0] {
            CommandView::Thread(d) => match thread_entry(cputype, d) {
                Ok(pc) => Some(pc),
                Err(_) => None,
            },
            CommandView::EntryPoint(off) => Some(off),
            _ => first_entry(cmds.drop_first(), cputype),
        }
    }
}

/// Reading commands keeps a chosen entry point, and otherwise chooses the
/// first one the commands give.
proof fn lemma_scan_entry(image: Seq<u8>, cputype: u32, end: int, pos: int, n: nat, st: Summary)
    ensures
        scan_from(image, cputype, end, pos, n, st) matches Ok(s) ==> s.entry == if st.entry is Some {
            st.entry
        } else {
            first_entry(table_commands(image, end, pos, n), cputype)
        },
    decreases n,
{
    let cmds = table_commands(image, end, pos, n);
    if !(n == 0 || end - pos < 8 || le_u32(image, pos + 4) < 8 || le_u32(image, pos + 4) > end - pos) {
        let size = le_u32(image, pos + 4) as int;
        if let Ok(c) = command_view(le_u32(image, pos), image.subrange(pos, pos + size)) {
            if let Ok(st2) = command_effect(image, cputype, pos, st, c) {
                lemma_scan_entry(image, cputype, end, pos + size, (n - 1) as nat, st2);
                let rest = table_commands(image, end, pos + size, (n - 1) as nat);
                assert(cmds.drop_first() =~= rest);
                assert(cmds[0] == c);
            }
        }
    }
}

/// The entry point of an image's plan is the one that its first thread
/// command or `LC_MAIN` gives; later ones are ignored.
pub proof fn lemma_plan_entry(image: Seq<u8>)
    ensures
        plan_of(image) matches Ok(s) ==> s.entry == first_entry(image_commands(image), le_u32(image, 4)),
{
    lemma_scan_entry(
        image,
        le_u32(image, 4),
        HEADER_SIZE + le_u32(image, 20),
        HEADER_SIZE as int,
        le_u32(image, 16) as nat,
        initial_summary(),
    );
}

} // verus!
