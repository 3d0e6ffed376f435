//! The load commands of a 64-bit little-endian Mach-O image, read with the
//! `object` crate.

use crate::bytes::{le_u32, le_u64};
use object::endian::LittleEndian;
use object::macho::MachHeader64;
use object::read::macho::{LoadCommandData, LoadCommandIterator, LoadCommandVariant, MachHeader};
use vstd::prelude::*;

verus! {

/// A position in the load command table of an image: `object`'s
/// `LoadCommandIterator`, held opaquely; what it has yet to return is given by
/// `unread_commands` and `commands_left`.
#[verifier::external_body]
pub struct CommandCursor<'a> {
    it: LoadCommandIterator<'a, LittleEndian>,
}

/// One load command: `object`'s `LoadCommandData`, held opaquely; its kind and
/// bytes are given by `command_kind` and `command_bytes`.
#[verifier::external_body]
pub struct RawCommand<'a> {
    data: LoadCommandData<'a, LittleEndian>,
}

/// Size of a 64-bit Mach-O header.
pub const HEADER_SIZE: usize = 32;

/// `LC_THREAD`.
pub const LC_THREAD: u32 = 0x4;

/// `LC_UNIXTHREAD`.
pub const LC_UNIXTHREAD: u32 = 0x5;

/// `LC_LOAD_DYLINKER`.
pub const LC_LOAD_DYLINKER: u32 = 0xe;

/// `LC_SEGMENT_64`.
pub const LC_SEGMENT_64: u32 = 0x19;

/// `LC_MAIN`.
pub const LC_MAIN: u32 = 0x8000_0028;

/// The fields of a 64-bit segment command that loading uses.
#[derive(Clone, Copy, PartialEq, Eq, Debug)]
pub struct Segment {
    /// The segment name, padded with NUL bytes.
    pub name: [u8; 16],
    /// Address of the segment in the image's own address space.
    pub vmaddr: u64,
    /// Size of the segment in memory.
    pub vmsize: u64,
    /// Offset of the segment's contents in the image.
    pub fileoff: u64,
    /// Size of the segment's contents in the image.
    pub filesize: u64,
    /// The initial memory protection of the segment.
    pub initprot: u32,
}

/// A load command, reduced to what loading reads of it.
#[derive(PartialEq, Eq, Debug)]
pub enum Command {
    /// `LC_SEGMENT_64`.
    Segment64(Segment),
    /// `LC_THREAD` or `LC_UNIXTHREAD`, with the bytes that follow the command header.
    Thread(Vec<u8>),
    /// `LC_LOAD_DYLINKER`, with the offset of the loader path from the start of
    /// the command.
    LoadDylinker(u32),
    /// `LC_MAIN`, with the entry point's offset.
    EntryPoint(u64),
    /// Any other command.
    Other,
}

/// A segment command's fields as values of specifications.
pub ghost struct SegmentView {
    /// The segment name with its NUL padding.
    pub name: Seq<u8>,
    /// Address of the segment in the image's own address space.
    pub vmaddr: u64,
    /// Size of the segment in memory.
    pub vmsize: u64,
    /// Offset of the segment's contents in the image.
    pub fileoff: u64,
    /// Size of the segment's contents in the image.
    pub filesize: u64,
    /// The initial memory protection of the segment.
    pub initprot: u32,
}

impl View for Segment {
    type V = SegmentView;

    open spec fn view(&self) -> SegmentView {
        SegmentView {
            name: self.name@,
            vmaddr: self.vmaddr,
            vmsize: self.vmsize,
            fileoff: self.fileoff,
            filesize: self.filesize,
            initprot: self.initprot,
        }
    }
}

/// A load command as a value of specifications.
pub ghost enum CommandView {
    /// `LC_SEGMENT_64`.
    Segment64(SegmentView),
    /// `LC_THREAD` or `LC_UNIXTHREAD`, with the bytes after the command header.
    Thread(Seq<u8>),
    /// `LC_LOAD_DYLINKER`, with the offset of the loader path in the command.
    LoadDylinker(u32),
    /// `LC_MAIN`, with the entry point's offset.
    EntryPoint(u64),
    /// Any other command.
    Other,
}

impl View for Command {
    type V = CommandView;

    open spec fn view(&self) -> CommandView {
        match self {
            Command::Segment64(s) => CommandView::Segment64(s@),
            Command::Thread(d) => CommandView::Thread(d@),
            Command::LoadDylinker(o) => CommandView::LoadDylinker(*o),
            Command::EntryPoint(e) => CommandView::EntryPoint(*e),
            Command::Other => CommandView::Other,
        }
    }
}

/// The command of kind `kind` whose bytes (header included) are `b`, or an
/// error where the bytes are too short for that kind. Segment, thread, loader
/// and entry point commands are read at the offsets of their Mach-O layouts;
/// whether a command of any other kind is too short is `object`'s decision.
pub open spec fn command_view(kind: u32, b: Seq<u8>) -> Result<CommandView, ()> {
    if kind == LC_SEGMENT_64 {
        if b.len() >= 72 {
            Ok(
                CommandView::Segment64(
                    SegmentView {
                        name: b.subrange(8, 24),
                        vmaddr: le_u64(b, 24),
                        vmsize: le_u64(b, 32),
                        fileoff: le_u64(b, 40),
                        filesize: le_u64(b, 48),
                        initprot: le_u32(b, 60),
                    },
                ),
            )
        } else {
            Err(())
        }
    } else if kind == LC_THREAD || kind == LC_UNIXTHREAD {
        if b.len() >= 8 {
            Ok(CommandView::Thread(b.subrange(8, b.len() as int)))
        } else {
            Err(())
        }
    } else if kind == LC_LOAD_DYLINKER {
        if b.len() >= 12 {
            Ok(CommandView::LoadDylinker(le_u32(b, 8)))
        } else {
            Err(())
        }
    } else if kind == LC_MAIN {
        if b.len() >= 24 {
            Ok(CommandView::EntryPoint(le_u64(b, 8)))
        } else {
            Err(())
        }
    } else if command_variant_of(kind, b) is Err {
        Err(())
    } else {
        Ok(CommandView::Other)
    }
}

/// What `command_variant` returns is the command that `command_view` describes.
pub proof fn lemma_command_view(kind: u32, b: Seq<u8>, r: Result<Command, ()>)
    requires
        r == command_variant_of(kind, b),
        variant_facts(kind, b, r),
    ensures
        match r {
            Ok(c) => command_view(kind, b) == Ok::<CommandView, ()>(c@),
            Err(_) => command_view(kind, b) is Err,
        },
{
    if let Ok(Command::Segment64(s)) = r {
        if kind == LC_SEGMENT_64 {
            assert(s@.name == b.subrange(8, 24));
        }
    }
}

/// The bytes of the load command table that an iterator has not consumed.
pub uninterp spec fn unread_commands(it: CommandCursor<'_>) -> Seq<u8>;

/// How many load commands an iterator has yet to return.
pub uninterp spec fn commands_left(it: CommandCursor<'_>) -> u32;

/// The `cmd` field of a load command.
pub uninterp spec fn command_kind(c: RawCommand<'_>) -> u32;

/// The bytes of a load command, its header included.
pub uninterp spec fn command_bytes(c: RawCommand<'_>) -> Seq<u8>;

/// What `LoadCommandData::variant` makes of a command of the given kind and
/// bytes, reduced to a `Command`.
pub uninterp spec fn command_variant_of(kind: u32, bytes: Seq<u8>) -> Result<Command, ()>;

/// The effect of `LoadCommandData::variant` on the four kinds of command that
/// loading reads; of any other kind it yields `Other` or an error.
pub open spec fn variant_facts(kind: u32, b: Seq<u8>, r: Result<Command, ()>) -> bool {
    if kind == LC_SEGMENT_64 {
        if b.len() >= 72 {
            r matches Ok(Command::Segment64(s)) && s.name@ == b.subrange(8, 24) && s.vmaddr
                == le_u64(b, 24) && s.vmsize == le_u64(b, 32) && s.fileoff == le_u64(b, 40)
                && s.filesize == le_u64(b, 48) && s.initprot == le_u32(b, 60)
        } else {
            r is Err
        }
    } else if kind == LC_THREAD || kind == LC_UNIXTHREAD {
        if b.len() >= 8 {
            r matches Ok(Command::Thread(d)) && d@ == b.subrange(8, b.len() as int)
        } else {
            r is Err
        }
    } else if kind == LC_LOAD_DYLINKER {
        if b.len() >= 12 {
            r == Ok::<Command, ()>(Command::LoadDylinker(le_u32(b, 8)))
        } else {
            r is Err
        }
    } else if kind == LC_MAIN {
        if b.len() >= 24 {
            r == Ok::<Command, ()>(Command::EntryPoint(le_u64(b, 8)))
        } else {
            r is Err
        }
    } else {
        r is Err || r == Ok::<Command, ()>(Command::Other)
    }
}

/// `MachHeader::load_commands` on the header at the start of `image` (the
/// header is viewed in place with `object::pod::from_bytes`, which succeeds on
/// any 32 bytes since the header's fields are byte arrays): an iterator over the `ncmds` commands of the table of `sizeofcmds` bytes that
/// follows the header, or an error where that table does not fit in `image`.
#[verifier::external_body]
pub(crate) fn load_commands<'a>(image: &'a [u8]) -> (r: Result<CommandCursor<'a>, ()>)
    requires
        image@.len() >= HEADER_SIZE,
    ensures
        r is Ok <==> HEADER_SIZE + le_u32(image@, 20) <= image@.len(),
        r matches Ok(it) ==> unread_commands(it) == image@.subrange(
            HEADER_SIZE as int,
            HEADER_SIZE + le_u32(image@, 20),
        ) && commands_left(it) == le_u32(image@, 16),
{
    let (header, _) = object::pod::from_bytes::<MachHeader64<LittleEndian>>(image).map_err(|_| ())?;
    let it = header.load_commands(LittleEndian, image, 0).map_err(|_| ())?;
    Ok(CommandCursor { it })
}

/// `LoadCommandIterator::next`: with no command left it returns `None`;
/// otherwise the next command is the prefix of the unread bytes whose length
/// is its `cmdsize` field (bytes 4 to 8, little-endian), which must be at least
/// 8 and fit in what is unread, else it fails and no command is left.
#[verifier::external_body]
pub(crate) fn next_command<'a>(cursor: &mut CommandCursor<'a>) -> (r: Result<
    Option<RawCommand<'a>>,
    (),
>)
    ensures
        ({
            let d = unread_commands(*old(cursor));
            let n = commands_left(*old(cursor));
            if n == 0 {
                r matches Ok(None) && unread_commands(*final(cursor)) == d && commands_left(*final(cursor))
                    == 0
            } else if d.len() >= 8 && 8 <= le_u32(d, 4) <= d.len() {
                r matches Ok(Some(c)) && command_kind(c) == le_u32(d, 0) && command_bytes(c)
                    == d.subrange(0, le_u32(d, 4) as int) && unread_commands(*final(cursor))
                    == d.subrange(le_u32(d, 4) as int, d.len() as int) && commands_left(*final(cursor))
                    == n - 1
            } else {
                r is Err && commands_left(*final(cursor)) == 0
            }
        }),
{
    Ok(cursor.it.next().map_err(|_| ())?.map(|data| RawCommand { data }))
}

/// `LoadCommandData::variant`, with the variant reduced to a `Command`.
#[verifier::external_body]
pub(crate) fn command_variant(c: &RawCommand) -> (r: Result<Command, ()>)
    ensures
        r == command_variant_of(command_kind(*c), command_bytes(*c)),
        variant_facts(command_kind(*c), command_bytes(*c), r),
{
    Ok(match c.data.variant().map_err(|_| ())? {
        LoadCommandVariant::Segment64(s, _) => Command::Segment64(Segment {
            name: s.segname,
            vmaddr: s.vmaddr.get(LittleEndian),
            vmsize: s.vmsize.get(LittleEndian),
            fileoff: s.fileoff.get(LittleEndian),
            filesize: s.filesize.get(LittleEndian),
            initprot: s.initprot.get(LittleEndian),
        }),
        LoadCommandVariant::Thread(_, data) => Command::Thread(data.to_vec()),
        LoadCommandVariant::LoadDylinker(d) => Command::LoadDylinker(d.name.offset.get(LittleEndian)),
        LoadCommandVariant::EntryPoint(e) => Command::EntryPoint(e.entryoff.get(LittleEndian)),
        _ => Command::Other,
    })
}

} // verus!
