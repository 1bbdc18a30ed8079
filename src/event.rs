//! The event record that backends produce, and a byte form of it that any
//! transport can carry.
use vstd::prelude::*;

verus! {

/// How a file was accessed.
#[derive(Clone, Copy, Debug, PartialEq, Eq, Structural)]
pub enum AccessMode {
    Any,
    Execute,
    Read,
    Write,
    Other,
}

/// An access that did not change anything.
#[derive(Clone, Copy, Debug, PartialEq, Eq, Structural)]
pub enum AccessKind {
    Any,
    Read,
    Open(AccessMode),
    Close(AccessMode),
    Other,
}

/// What was created.
#[derive(Clone, Copy, Debug, PartialEq, Eq, Structural)]
pub enum CreateKind {
    Any,
    File,
    Folder,
    Other,
}

/// How the data of a file changed.
#[derive(Clone, Copy, Debug, PartialEq, Eq, Structural)]
pub enum DataChange {
    Any,
    Size,
    Content,
    Other,
}

/// Which metadata changed.
#[derive(Clone, Copy, Debug, PartialEq, Eq, Structural)]
pub enum MetadataKind {
    Any,
    AccessTime,
    WriteTime,
    Permissions,
    Ownership,
    Extended,
    Other,
}

/// Which side of a rename the paths stand for.
#[derive(Clone, Copy, Debug, PartialEq, Eq, Structural)]
pub enum RenameMode {
    Any,
    To,
    From,
    Both,
    Other,
}

/// How something was modified.
#[derive(Clone, Copy, Debug, PartialEq, Eq, Structural)]
pub enum ModifyKind {
    Any,
    Data(DataChange),
    Metadata(MetadataKind),
    Name(RenameMode),
    Other,
}

/// What was removed.
#[derive(Clone, Copy, Debug, PartialEq, Eq, Structural)]
pub enum RemoveKind {
    Any,
    File,
    Folder,
    Other,
}

/// The kind of an event, with its detail.
#[derive(Clone, Copy, Debug, PartialEq, Eq, Structural)]
pub enum EventKind {
    Any,
    Access(AccessKind),
    Create(CreateKind),
    Modify(ModifyKind),
    Remove(RemoveKind),
    Other,
}

/// A point in time: whole seconds since the Unix epoch, and nanoseconds.
#[derive(Clone, Copy, Debug, PartialEq, Eq, Structural)]
pub struct DateTime {
    pub secs: i64,
    pub nanos: u32,
}

/// One observed change: its kind, the paths it concerns (a rename carries the
/// old and the new one), and when it was seen, if known.
#[derive(Debug, PartialEq, Eq)]
pub struct Event {
    pub kind: EventKind,
    pub paths: Vec<Vec<u8>>,
    pub time: Option<DateTime>,
}

/// What an event holds, as plain values.
pub struct EventView {
    pub kind: EventKind,
    pub paths: Seq<Seq<u8>>,
    pub time: Option<DateTime>,
}

impl View for Event {
    type V = EventView;

    open spec fn view(&self) -> EventView {
        EventView {
            kind: self.kind,
            paths: self.paths@.map_values(|p: Vec<u8>| p@),
            time: self.time,
        }
    }
}

impl AccessMode {
    /// The byte that stands for this value.
    pub open spec fn code(self) -> u8 {
        match self {
            AccessMode::Any => 0,
            AccessMode::Execute => 1,
            AccessMode::Read => 2,
            AccessMode::Write => 3,
            AccessMode::Other => 4,
        }
    }

    /// The value that a byte stands for, if any.
    pub open spec fn of_code(c: u8) -> Option<AccessMode> {
        match c {
            0 => Some(AccessMode::Any),
            1 => Some(AccessMode::Execute),
            2 => Some(AccessMode::Read),
            3 => Some(AccessMode::Write),
            4 => Some(AccessMode::Other),
            _ => None,
        }
    }

    /// The byte that stands for this value.
    pub fn to_code(self) -> (r: u8)
        ensures
            r == self.code(),
            AccessMode::of_code(r) == Some(self),
    {
        match self {
            AccessMode::Any => 0,
            AccessMode::Execute => 1,
            AccessMode::Read => 2,
            AccessMode::Write => 3,
            AccessMode::Other => 4,
        }
    }

    /// The value that a byte stands for, if any.
    pub fn from_code(c: u8) -> (r: Option<AccessMode>)
        ensures
            r == AccessMode::of_code(c),
    {
        match c {
            0 => Some(AccessMode::Any),
            1 => Some(AccessMode::Execute),
            2 => Some(AccessMode::Read),
            3 => Some(AccessMode::Write),
            4 => Some(AccessMode::Other),
            _ => None,
        }
    }
}

impl CreateKind {
    /// The byte that stands for this value.
    pub open spec fn code(self) -> u8 {
        match self {
            CreateKind::Any => 0,
            CreateKind::File => 1,
            CreateKind::Folder => 2,
            CreateKind::Other => 3,
        }
    }

    /// The value that a byte stands for, if any.
    pub open spec fn of_code(c: u8) -> Option<CreateKind> {
        match c {
            0 => Some(CreateKind::Any),
            1 => Some(CreateKind::File),
            2 => Some(CreateKind::Folder),
            3 => Some(CreateKind::Other),
            _ => None,
        }
    }

    /// The byte that stands for this value.
    pub fn to_code(self) -> (r: u8)
        ensures
            r == self.code(),
            CreateKind::of_code(r) == Some(self),
    {
        match self {
            CreateKind::Any => 0,
            CreateKind::File => 1,
            CreateKind::Folder => 2,
            CreateKind::Other => 3,
        }
    }

    /// The value that a byte stands for, if any.
    pub fn from_code(c: u8) -> (r: Option<CreateKind>)
        ensures
            r == CreateKind::of_code(c),
    {
        match c {
            0 => Some(CreateKind::Any),
            1 => Some(CreateKind::File),
            2 => Some(CreateKind::Folder),
            3 => Some(CreateKind::Other),
            _ => None,
        }
    }
}

impl DataChange {
    /// The byte that stands for this value.
    pub open spec fn code(self) -> u8 {
        match self {
            DataChange::Any => 0,
            DataChange::Size => 1,
            DataChange::Content => 2,
            DataChange::Other => 3,
        }
    }

    /// The value that a byte stands for, if any.
    pub open spec fn of_code(c: u8) -> Option<DataChange> {
        match c {
            0 => Some(DataChange::Any),
            1 => Some(DataChange::Size),
            2 => Some(DataChange::Content),
            3 => Some(DataChange::Other),
            _ => None,
        }
    }

    /// The byte that stands for this value.
    pub fn to_code(self) -> (r: u8)
        ensures
            r == self.code(),
            DataChange::of_code(r) == Some(self),
    {
        match self {
            DataChange::Any => 0,
            DataChange::Size => 1,
            DataChange::Content => 2,
            DataChange::Other => 3,
        }
    }

    /// The value that a byte stands for, if any.
    pub fn from_code(c: u8) -> (r: Option<DataChange>)
        ensures
            r == DataChange::of_code(c),
    {
        match c {
            0 => Some(DataChange::Any),
            1 => Some(DataChange::Size),
            2 => Some(DataChange::Content),
            3 => Some(DataChange::Other),
            _ => None,
        }
    }
}

impl MetadataKind {
    /// The byte that stands for this value.
    pub open spec fn code(self) -> u8 {
        match self {
            MetadataKind::Any => 0,
            MetadataKind::AccessTime => 1,
            MetadataKind::WriteTime => 2,
            MetadataKind::Permissions => 3,
            MetadataKind::Ownership => 4,
            MetadataKind::Extended => 5,
            MetadataKind::Other => 6,
        }
    }

    /// The value that a byte stands for, if any.
    pub open spec fn of_code(c: u8) -> Option<MetadataKind> {
        match c {
            0 => Some(MetadataKind::Any),
            1 => Some(MetadataKind::AccessTime),
            2 => Some(MetadataKind::WriteTime),
            3 => Some(MetadataKind::Permissions),
            4 => Some(MetadataKind::Ownership),
            5 => Some(MetadataKind::Extended),
            6 => Some(MetadataKind::Other),
            _ => None,
        }
    }

    /// The byte that stands for this value.
    pub fn to_code(self) -> (r: u8)
        ensures
            r == self.code(),
            MetadataKind::of_code(r) == Some(self),
    {
        match self {
            MetadataKind::Any => 0,
            MetadataKind::AccessTime => 1,
            MetadataKind::WriteTime => 2,
            MetadataKind::Permissions => 3,
            MetadataKind::Ownership => 4,
            MetadataKind::Extended => 5,
            MetadataKind::Other => 6,
        }
    }

    /// The value that a byte stands for, if any.
    pub fn from_code(c: u8) -> (r: Option<MetadataKind>)
        ensures
            r == MetadataKind::of_code(c),
    {
        match c {
            0 => Some(MetadataKind::Any),
            1 => Some(MetadataKind::AccessTime),
            2 => Some(MetadataKind::WriteTime),
            3 => Some(MetadataKind::Permissions),
            4 => Some(MetadataKind::Ownership),
            5 => Some(MetadataKind::Extended),
            6 => Some(MetadataKind::Other),
            _ => None,
        }
    }
}

impl RenameMode {
    /// The byte that stands for this value.
    pub open spec fn code(self) -> u8 {
        match self {
            RenameMode::Any => 0,
            RenameMode::To => 1,
            RenameMode::From => 2,
            RenameMode::Both => 3,
            RenameMode::Other => 4,
        }
    }

    /// The value that a byte stands for, if any.
    pub open spec fn of_code(c: u8) -> Option<RenameMode> {
        match c {
            0 => Some(RenameMode::Any),
            1 => Some(RenameMode::To),
            2 => Some(RenameMode::From),
            3 => Some(RenameMode::Both),
            4 => Some(RenameMode::Other),
            _ => None,
        }
    }

    /// The byte that stands for this value.
    pub fn to_code(self) -> (r: u8)
        ensures
            r == self.code(),
            RenameMode::of_code(r) == Some(self),
    {
        match self {
            RenameMode::Any => 0,
            RenameMode::To => 1,
            RenameMode::From => 2,
            RenameMode::Both => 3,
            RenameMode::Other => 4,
        }
    }

    /// The value that a byte stands for, if any.
    pub fn from_code(c: u8) -> (r: Option<RenameMode>)
        ensures
            r == RenameMode::of_code(c),
    {
        match c {
            0 => Some(RenameMode::Any),
            1 => Some(RenameMode::To),
            2 => Some(RenameMode::From),
            3 => Some(RenameMode::Both),
            4 => Some(RenameMode::Other),
            _ => None,
        }
    }
}

impl RemoveKind {
    /// The byte that stands for this value.
    pub open spec fn code(self) -> u8 {
        match self {
            RemoveKind::Any => 0,
            RemoveKind::File => 1,
            RemoveKind::Folder => 2,
            RemoveKind::Other => 3,
        }
    }

    /// The value that a byte stands for, if any.
    pub open spec fn of_code(c: u8) -> Option<RemoveKind> {
        match c {
            0 => Some(RemoveKind::Any),
            1 => Some(RemoveKind::File),
            2 => Some(RemoveKind::Folder),
            3 => Some(RemoveKind::Other),
            _ => None,
        }
    }

    /// The byte that stands for this value.
    pub fn to_code(self) -> (r: u8)
        ensures
            r == self.code(),
            RemoveKind::of_code(r) == Some(self),
    {
        match self {
            RemoveKind::Any => 0,
            RemoveKind::File => 1,
            RemoveKind::Folder => 2,
            RemoveKind::Other => 3,
        }
    }

    /// The value that a byte stands for, if any.
    pub fn from_code(c: u8) -> (r: Option<RemoveKind>)
        ensures
            r == RemoveKind::of_code(c),
    {
        match c {
            0 => Some(RemoveKind::Any),
            1 => Some(RemoveKind::File),
            2 => Some(RemoveKind::Folder),
            3 => Some(RemoveKind::Other),
            _ => None,
        }
    }
}


impl AccessKind {
    /// The two bytes that stand for this value: the variant, then its mode.
    pub open spec fn code(self) -> (u8, u8) {
        match self {
            AccessKind::Any => (0, 0),
            AccessKind::Read => (1, 0),
            AccessKind::Open(m) => (2, m.code()),
            AccessKind::Close(m) => (3, m.code()),
            AccessKind::Other => (4, 0),
        }
    }

    /// The value that two bytes stand for, if any.
    pub open spec fn of_code(a: u8, b: u8) -> Option<AccessKind> {
        match a {
            0 => if b == 0 { Some(AccessKind::Any) } else { None },
            1 => if b == 0 { Some(AccessKind::Read) } else { None },
            2 => match AccessMode::of_code(b) {
                Some(m) => Some(AccessKind::Open(m)),
                None => None,
            },
            3 => match AccessMode::of_code(b) {
                Some(m) => Some(AccessKind::Close(m)),
                None => None,
            },
            4 => if b == 0 { Some(AccessKind::Other) } else { None },
            _ => None,
        }
    }

    /// The two bytes that stand for this value.
    pub fn to_code(self) -> (r: (u8, u8))
        ensures
            r == self.code(),
            AccessKind::of_code(r.0, r.1) == Some(self),
    {
        match self {
            AccessKind::Any => (0, 0),
            AccessKind::Read => (1, 0),
            AccessKind::Open(m) => (2, m.to_code()),
            AccessKind::Close(m) => (3, m.to_code()),
            AccessKind::Other => (4, 0),
        }
    }

    /// The value that two bytes stand for, if any.
    pub fn from_code(a: u8, b: u8) -> (r: Option<AccessKind>)
        ensures
            r == AccessKind::of_code(a, b),
    {
        match a {
            0 => if b == 0 { Some(AccessKind::Any) } else { None },
            1 => if b == 0 { Some(AccessKind::Read) } else { None },
            2 => match AccessMode::from_code(b) {
                Some(m) => Some(AccessKind::Open(m)),
                None => None,
            },
            3 => match AccessMode::from_code(b) {
                Some(m) => Some(AccessKind::Close(m)),
                None => None,
            },
            4 => if b == 0 { Some(AccessKind::Other) } else { None },
            _ => None,
        }
    }
}

impl ModifyKind {
    /// The two bytes that stand for this value: the variant, then its detail.
    pub open spec fn code(self) -> (u8, u8) {
        match self {
            ModifyKind::Any => (0, 0),
            ModifyKind::Data(d) => (1, d.code()),
            ModifyKind::Metadata(m) => (2, m.code()),
            ModifyKind::Name(r) => (3, r.code()),
            ModifyKind::Other => (4, 0),
        }
    }

    /// The value that two bytes stand for, if any.
    pub open spec fn of_code(a: u8, b: u8) -> Option<ModifyKind> {
        match a {
            0 => if b == 0 { Some(ModifyKind::Any) } else { None },
            1 => match DataChange::of_code(b) {
                Some(d) => Some(ModifyKind::Data(d)),
                None => None,
            },
            2 => match MetadataKind::of_code(b) {
                Some(m) => Some(ModifyKind::Metadata(m)),
                None => None,
            },
            3 => match RenameMode::of_code(b) {
                Some(r) => Some(ModifyKind::Name(r)),
                None => None,
            },
            4 => if b == 0 { Some(ModifyKind::Other) } else { None },
            _ => None,
        }
    }

    /// The two bytes that stand for this value.
    pub fn to_code(self) -> (r: (u8, u8))
        ensures
            r == self.code(),
            ModifyKind::of_code(r.0, r.1) == Some(self),
    {
        match self {
            ModifyKind::Any => (0, 0),
            ModifyKind::Data(d) => (1, d.to_code()),
            ModifyKind::Metadata(m) => (2, m.to_code()),
            ModifyKind::Name(r) => (3, r.to_code()),
            ModifyKind::Other => (4, 0),
        }
    }

    /// The value that two bytes stand for, if any.
    pub fn from_code(a: u8, b: u8) -> (r: Option<ModifyKind>)
        ensures
            r == ModifyKind::of_code(a, b),
    {
        match a {
            0 => if b == 0 { Some(ModifyKind::Any) } else { None },
            1 => match DataChange::from_code(b) {
                Some(d) => Some(ModifyKind::Data(d)),
                None => None,
            },
            2 => match MetadataKind::from_code(b) {
                Some(m) => Some(ModifyKind::Metadata(m)),
                None => None,
            },
            3 => match RenameMode::from_code(b) {
                Some(r) => Some(ModifyKind::Name(r)),
                None => None,
            },
            4 => if b == 0 { Some(ModifyKind::Other) } else { None },
            _ => None,
        }
    }
}

impl EventKind {
    /// The three bytes that stand for this value: the variant, then the two
    /// bytes of its detail.
    pub open spec fn code(self) -> Seq<u8> {
        match self {
            EventKind::Any => seq![0u8, 0u8, 0u8],
            EventKind::Access(k) => seq![1u8, k.code().0, k.code().1],
            EventKind::Create(k) => seq![2u8, k.code(), 0u8],
            EventKind::Modify(k) => seq![3u8, k.code().0, k.code().1],
            EventKind::Remove(k) => seq![4u8, k.code(), 0u8],
            EventKind::Other => seq![5u8, 0u8, 0u8],
        }
    }

    /// The value that three bytes stand for, if any.
    pub open spec fn of_code(a: u8, b: u8, c: u8) -> Option<EventKind> {
        match a {
            0 => if b == 0 && c == 0 { Some(EventKind::Any) } else { None },
            1 => match AccessKind::of_code(b, c) {
                Some(k) => Some(EventKind::Access(k)),
                None => None,
            },
            2 => match CreateKind::of_code(b) {
                Some(k) => if c == 0 { Some(EventKind::Create(k)) } else { None },
                None => None,
            },
            3 => match ModifyKind::of_code(b, c) {
                Some(k) => Some(EventKind::Modify(k)),
                None => None,
            },
            4 => match RemoveKind::of_code(b) {
                Some(k) => if c == 0 { Some(EventKind::Remove(k)) } else { None },
                None => None,
            },
            5 => if b == 0 && c == 0 { Some(EventKind::Other) } else { None },
            _ => None,
        }
    }

    /// The three bytes that stand for this value.
    pub fn to_code(self) -> (r: (u8, u8, u8))
        ensures
            seq![r.0, r.1, r.2] == self.code(),
            EventKind::of_code(r.0, r.1, r.2) == Some(self),
    {
        match self {
            EventKind::Any => (0, 0, 0),
            EventKind::Access(k) => {
                let (b, c) = k.to_code();
                (1, b, c)
            },
            EventKind::Create(k) => (2, k.to_code(), 0),
            EventKind::Modify(k) => {
                let (b, c) = k.to_code();
                (3, b, c)
            },
            EventKind::Remove(k) => (4, k.to_code(), 0),
            EventKind::Other => (5, 0, 0),
        }
    }

    /// The value that three bytes stand for, if any.
    pub fn from_code(a: u8, b: u8, c: u8) -> (r: Option<EventKind>)
        ensures
            r == EventKind::of_code(a, b, c),
    {
        match a {
            0 => if b == 0 && c == 0 { Some(EventKind::Any) } else { None },
            1 => match AccessKind::from_code(b, c) {
                Some(k) => Some(EventKind::Access(k)),
                None => None,
            },
            2 => match CreateKind::from_code(b) {
                Some(k) => if c == 0 { Some(EventKind::Create(k)) } else { None },
                None => None,
            },
            3 => match ModifyKind::from_code(b, c) {
                Some(k) => Some(EventKind::Modify(k)),
                None => None,
            },
            4 => match RemoveKind::from_code(b) {
                Some(k) => if c == 0 { Some(EventKind::Remove(k)) } else { None },
                None => None,
            },
            5 => if b == 0 && c == 0 { Some(EventKind::Other) } else { None },
            _ => None,
        }
    }
}


/// The eight bytes of `n`, least significant first.
pub open spec fn le_bytes(n: u64) -> Seq<u8> {
    seq![
        (n & 0xff) as u8,
        ((n >> 8u64) & 0xff) as u8,
        ((n >> 16u64) & 0xff) as u8,
        ((n >> 24u64) & 0xff) as u8,
        ((n >> 32u64) & 0xff) as u8,
        ((n >> 40u64) & 0xff) as u8,
        ((n >> 48u64) & 0xff) as u8,
        ((n >> 56u64) & 0xff) as u8,
    ]
}

/// The number whose eight bytes, least significant first, begin `b`.
pub open spec fn le_value(b: Seq<u8>) -> u64
    recommends
        b.len() >= 8,
{
    (b[0] as u64) | ((b[1] as u64) << 8u64) | ((b[2] as u64) << 16u64) | ((b[3] as u64) << 24u64)
        | ((b[4] as u64) << 32u64) | ((b[5] as u64) << 40u64) | ((b[6] as u64) << 48u64) | ((
    b[7] as u64) << 56u64)
}

/// Reading back the bytes of a number, whatever follows them, gives the number.
pub proof fn lemma_le_round_trip(n: u64, tail: Seq<u8>)
    ensures
        le_bytes(n).len() == 8,
        le_value(le_bytes(n) + tail) == n,
{
    let b = le_bytes(n) + tail;
    assert(b[0] == (n & 0xff) as u8);
    assert(b[1] == ((n >> 8u64) & 0xff) as u8);
    assert(b[2] == ((n >> 16u64) & 0xff) as u8);
    assert(b[3] == ((n >> 24u64) & 0xff) as u8);
    assert(b[4] == ((n >> 32u64) & 0xff) as u8);
    assert(b[5] == ((n >> 40u64) & 0xff) as u8);
    assert(b[6] == ((n >> 48u64) & 0xff) as u8);
    assert(b[7] == ((n >> 56u64) & 0xff) as u8);
    assert(((((n & 0xff) as u8) as u64) | (((((n >> 8u64) & 0xff) as u8) as u64) << 8u64) | (((((n
        >> 16u64) & 0xff) as u8) as u64) << 16u64) | (((((n >> 24u64) & 0xff) as u8) as u64)
        << 24u64) | (((((n >> 32u64) & 0xff) as u8) as u64) << 32u64) | (((((n >> 40u64) & 0xff)
        as u8) as u64) << 40u64) | (((((n >> 48u64) & 0xff) as u8) as u64) << 48u64) | (((((n
        >> 56u64) & 0xff) as u8) as u64) << 56u64)) == n) by (bit_vector);
}

/// Appends the eight bytes of `n`, least significant first.
fn push_u64(out: &mut Vec<u8>, n: u64)
    ensures
        final(out)@ == old(out)@ + le_bytes(n),
{
    out.push((n & 0xff) as u8);
    out.push(((n >> 8u64) & 0xff) as u8);
    out.push(((n >> 16u64) & 0xff) as u8);
    out.push(((n >> 24u64) & 0xff) as u8);
    out.push(((n >> 32u64) & 0xff) as u8);
    out.push(((n >> 40u64) & 0xff) as u8);
    out.push(((n >> 48u64) & 0xff) as u8);
    out.push(((n >> 56u64) & 0xff) as u8);
    assert(final(out)@ =~= old(out)@ + le_bytes(n));
}

/// The number whose eight bytes, least significant first, start at `pos`.
fn read_u64(b: &[u8], pos: usize) -> (r: u64)
    requires
        pos + 8 <= b@.len(),
    ensures
        r == le_value(b@.skip(pos as int)),
{
    (b[pos] as u64) | ((b[pos + 1] as u64) << 8u64) | ((b[pos + 2] as u64) << 16u64) | ((b[pos
        + 3] as u64) << 24u64) | ((b[pos + 4] as u64) << 32u64) | ((b[pos + 5] as u64) << 40u64)
        | ((b[pos + 6] as u64) << 48u64) | ((b[pos + 7] as u64) << 56u64)
}


/// A path in bytes: its length, then the path.
pub open spec fn path_bytes(p: Seq<u8>) -> Seq<u8> {
    le_bytes(p.len() as u64) + p
}

/// The paths in bytes, one after the other.
pub open spec fn paths_bytes(ps: Seq<Seq<u8>>) -> Seq<u8>
    decreases ps.len(),
{
    if ps.len() == 0 {
        Seq::empty()
    } else {
        path_bytes(ps[0]) + paths_bytes(ps.skip(1))
    }
}

/// The time in bytes: a zero when it is absent, else a one, the seconds and
/// the nanoseconds.
pub open spec fn time_bytes(t: Option<DateTime>) -> Seq<u8> {
    match t {
        None => seq![0u8],
        Some(d) => seq![1u8] + le_bytes(d.secs as u64) + le_bytes(d.nanos as u64),
    }
}

/// An event in bytes: its kind, the number of paths, the paths, the time.
pub open spec fn encode(v: EventView) -> Seq<u8> {
    v.kind.code() + le_bytes(v.paths.len() as u64) + paths_bytes(v.paths) + time_bytes(v.time)
}

/// Whether every length in the event fits in the eight bytes that carry it.
pub open spec fn fits(v: EventView) -> bool {
    &&& v.paths.len() <= u64::MAX
    &&& forall|i: int| 0 <= i < v.paths.len() ==> (#[trigger] v.paths[i]).len() <= u64::MAX
}

/// The `n` paths that begin `b`, and the bytes after them.
pub open spec fn decode_paths(b: Seq<u8>, n: nat) -> Option<(Seq<Seq<u8>>, Seq<u8>)>
    decreases n,
{
    if n == 0 {
        Some((Seq::empty(), b))
    } else if b.len() < 8 {
        None
    } else {
        let l = le_value(b) as int;
        let rest = b.skip(8);
        if rest.len() < l {
            None
        } else {
            match decode_paths(rest.skip(l), (n - 1) as nat) {
                Some((ps, after)) => Some((seq![rest.take(l)] + ps, after)),
                None => None,
            }
        }
    }
}

/// The time that `b` holds, all of it.
pub open spec fn decode_time(b: Seq<u8>) -> Option<Option<DateTime>> {
    if b.len() == 1 && b[0] == 0 {
        Some(None)
    } else if b.len() == 17 && b[0] == 1 && le_value(b.skip(9)) <= u32::MAX {
        Some(Some(DateTime { secs: le_value(b.skip(1)) as i64, nanos: le_value(b.skip(9)) as u32 }))
    } else {
        None
    }
}

/// The event that `b` holds, all of it, if any.
pub open spec fn decode(b: Seq<u8>) -> Option<EventView> {
    if b.len() < 11 {
        None
    } else {
        match EventKind::of_code(b[0], b[1], b[2]) {
            None => None,
            Some(kind) => match decode_paths(b.skip(11), le_value(b.skip(3)) as nat) {
                None => None,
                Some((paths, rest)) => match decode_time(rest) {
                    None => None,
                    Some(time) => Some(EventView { kind, paths, time }),
                },
            },
        }
    }
}

#[verifier::rlimit(40)]
proof fn lemma_paths_round_trip(ps: Seq<Seq<u8>>, tail: Seq<u8>)
    requires
        forall|i: int| 0 <= i < ps.len() ==> (#[trigger] ps[i]).len() <= u64::MAX,
    ensures
        decode_paths(paths_bytes(ps) + tail, ps.len()) == Some((ps, tail)),
    decreases ps.len(),
{
    if ps.len() > 0 {
        let p = ps[0];
        let more = ps.skip(1);
        assert forall|i: int| 0 <= i < more.len() implies (#[trigger] more[i]).len() <= u64::MAX by {
            assert(more[i] == ps[i + 1]);
        }
        lemma_paths_round_trip(more, tail);
        let b = paths_bytes(ps) + tail;
        let after = paths_bytes(more) + tail;
        assert(b =~= le_bytes(p.len() as u64) + (p + after));
        lemma_le_round_trip(p.len() as u64, p + after);
        assert(b.skip(8) =~= p + after);
        assert(b.skip(8).take(p.len() as int) =~= p);
        assert(b.skip(8).skip(p.len() as int) =~= after);
        assert(seq![p] + more =~= ps);
    }
}

proof fn lemma_kind_round_trip(k: EventKind)
    ensures
        k.code().len() == 3,
        EventKind::of_code(k.code()[0], k.code()[1], k.code()[2]) == Some(k),
{
    match k {
        EventKind::Access(a) => match a {
            AccessKind::Open(m) => {},
            AccessKind::Close(m) => {},
            _ => {},
        },
        EventKind::Create(c) => {},
        EventKind::Modify(m) => match m {
            ModifyKind::Data(d) => {},
            ModifyKind::Metadata(d) => {},
            ModifyKind::Name(d) => {},
            _ => {},
        },
        EventKind::Remove(r) => {},
        _ => {},
    }
}

proof fn lemma_time_round_trip(t: Option<DateTime>)
    ensures
        decode_time(time_bytes(t)) == Some(t),
{
    match t {
        None => {},
        Some(d) => {
            let b = time_bytes(t);
            lemma_le_round_trip(d.secs as u64, le_bytes(d.nanos as u64));
            lemma_le_round_trip(d.nanos as u64, Seq::empty());
            assert(b.skip(1) =~= le_bytes(d.secs as u64) + le_bytes(d.nanos as u64));
            assert(b.skip(9) =~= le_bytes(d.nanos as u64) + Seq::empty());
            let s = d.secs;
            assert(((s as u64) as i64) == s) by (bit_vector);
            let ns = d.nanos;
            assert(((ns as u64) as u32) == ns) by (bit_vector);
        },
    }
}

/// Decoding the bytes of an event gives the event back: its kind, its paths
/// in order, and its time.
pub proof fn event_round_trip(v: EventView)
    requires
        fits(v),
    ensures
        decode(encode(v)) == Some(v),
{
    let b = encode(v);
    let k = v.kind.code();
    let t = time_bytes(v.time);
    lemma_kind_round_trip(v.kind);
    lemma_time_round_trip(v.time);
    lemma_paths_round_trip(v.paths, t);
    lemma_le_round_trip(v.paths.len() as u64, paths_bytes(v.paths) + t);
    assert(b =~= k + (le_bytes(v.paths.len() as u64) + (paths_bytes(v.paths) + t)));
    assert(b.skip(3) =~= le_bytes(v.paths.len() as u64) + (paths_bytes(v.paths) + t));
    assert(b.skip(11) =~= paths_bytes(v.paths) + t);
    assert(b[0] == k[0] && b[1] == k[1] && b[2] == k[2]);
    assert(v.paths.len() as u64 as nat == v.paths.len());
}

/// Appends `src[from..to]`.
fn push_range(out: &mut Vec<u8>, src: &[u8], from: usize, to: usize)
    requires
        from <= to <= src@.len(),
    ensures
        final(out)@ == old(out)@ + src@.subrange(from as int, to as int),
{
    let ghost start = out@;
    let mut i: usize = from;
    while i < to
        invariant
            from <= i <= to <= src@.len(),
            out@ == start + src@.subrange(from as int, i as int),
        decreases to - i,
    {
        out.push(src[i]);
        i = i + 1;
        assert(out@ =~= start + src@.subrange(from as int, i as int));
    }
}

proof fn lemma_paths_bytes_push(ps: Seq<Seq<u8>>, p: Seq<u8>)
    ensures
        paths_bytes(ps.push(p)) == paths_bytes(ps) + path_bytes(p),
    decreases ps.len(),
{
    if ps.len() == 0 {
        assert(ps.push(p).skip(1) =~= Seq::<Seq<u8>>::empty());
        assert(ps.push(p)[0] == p);
        assert(paths_bytes(Seq::<Seq<u8>>::empty()) == Seq::<u8>::empty());
        assert(paths_bytes(ps.push(p)) == path_bytes(p) + paths_bytes(ps.push(p).skip(1)));
        assert(paths_bytes(ps.push(p)) =~= paths_bytes(ps) + path_bytes(p));
    } else {
        lemma_paths_bytes_push(ps.skip(1), p);
        assert(ps.push(p).skip(1) =~= ps.skip(1).push(p));
        assert(paths_bytes(ps.push(p)) =~= paths_bytes(ps) + path_bytes(p));
    }
}

impl Event {
    /// The event in bytes, as `encode` lays them out. Every event fits.
    pub fn to_bytes(&self) -> (r: Vec<u8>)
        ensures
            r@ == encode(self@),
            fits(self@),
    {
        let ghost v = self@;
        let (a, b, c) = self.kind.to_code();
        let mut out: Vec<u8> = Vec::new();
        out.push(a);
        out.push(b);
        out.push(c);
        push_u64(&mut out, self.paths.len() as u64);
        let ghost head = out@;
        assert(head =~= v.kind.code() + le_bytes(v.paths.len() as u64));
        let mut i: usize = 0;
        while i < self.paths.len()
            invariant
                0 <= i <= self.paths@.len(),
                v == self@,
                out@ == head + paths_bytes(v.paths.take(i as int)),
            decreases self.paths@.len() - i,
        {
            let p = &self.paths[i];
            let ghost before = out@;
            push_u64(&mut out, p.len() as u64);
            push_range(&mut out, p.as_slice(), 0, p.len());
            proof {
                assert(p@.subrange(0, p@.len() as int) =~= p@);
                assert(v.paths[i as int] == p@);
                lemma_paths_bytes_push(v.paths.take(i as int), p@);
                assert(v.paths.take(i as int).push(p@) =~= v.paths.take(i + 1));
                assert(out@ =~= head + paths_bytes(v.paths.take(i + 1)));
            }
            i = i + 1;
        }
        assert(v.paths.take(v.paths.len() as int) =~= v.paths);
        let ghost body = out@;
        match self.time {
            None => out.push(0),
            Some(d) => {
                out.push(1);
                push_u64(&mut out, #[verifier::truncate] (d.secs as u64));
                push_u64(&mut out, d.nanos as u64);
            },
        }
        assert(out@ =~= body + time_bytes(v.time));
        assert(out@ =~= encode(v));
        assert forall|k: int| 0 <= k < v.paths.len() implies (#[trigger] v.paths[k]).len() <= u64::MAX by {
            assert(v.paths[k] == self.paths@[k]@);
            assert(self.paths@[k].len() <= usize::MAX);
            assert(usize::MAX <= u64::MAX);
        }
        out
    }
    /// The event that `b` holds, all of it, as `decode` reads it; `None` where
    /// `b` holds no event or more than one.
    pub fn from_bytes(b: &[u8]) -> (r: Option<Event>)
        ensures
            match r {
                Some(e) => decode(b@) == Some(e@),
                None => decode(b@) is None,
            },
    {
        if b.len() < 11 {
            return None;
        }
        let kind = match EventKind::from_code(b[0], b[1], b[2]) {
            Some(k) => k,
            None => return None,
        };
        let n = read_u64(b, 3);
        let ghost whole = decode_paths(b@.skip(11), n as nat);
        let mut paths: Vec<Vec<u8>> = Vec::new();
        let mut pos: usize = 11;
        let mut i: u64 = 0;
        while i < n
            invariant
                11 <= pos <= b@.len(),
                i <= n,
                whole == decode_paths(b@.skip(11), n as nat),
                b@.len() >= 11,
                EventKind::of_code(b@[0], b@[1], b@[2]) == Some(kind),
                n == le_value(b@.skip(3)),
                whole == match decode_paths(b@.skip(pos as int), (n - i) as nat) {
                    Some((ps, rest)) => Some((paths@.map_values(|p: Vec<u8>| p@) + ps, rest)),
                    None => None,
                },
            decreases n - i,
        {
            let ghost c = b@.skip(pos as int);
            let ghost pv = paths@.map_values(|p: Vec<u8>| p@);
            if b.len() - pos < 8 {
                assert(decode_paths(c, (n - i) as nat) is None);
                return None;
            }
            let l = read_u64(b, pos);
            if l > (b.len() - pos - 8) as u64 {
                assert(c.skip(8).len() < l);
                assert(decode_paths(c, (n - i) as nat) is None);
                return None;
            }
            let l = l as usize;
            let mut p: Vec<u8> = Vec::new();
            push_range(&mut p, b, pos + 8, pos + 8 + l);
            proof {
                assert(c.skip(8).take(l as int) =~= p@);
                assert(c.skip(8).skip(l as int) =~= b@.skip(pos + 8 + l));
            }
            let ghost p_view = p@;
            paths.push(p);
            proof {
                assert(paths@.map_values(|p: Vec<u8>| p@) =~= pv.push(p_view));
                match decode_paths(b@.skip(pos + 8 + l), (n - i - 1) as nat) {
                    Some((ps, rest)) => {
                        assert(pv + (seq![p_view] + ps) =~= pv.push(p_view) + ps);
                    },
                    None => {},
                }
            }
            pos = pos + 8 + l;
            i = i + 1;
        }
        let ghost pv = paths@.map_values(|p: Vec<u8>| p@);
        assert(pv + Seq::empty() =~= pv);
        let left = b.len() - pos;
        let ghost rest = b@.skip(pos as int);
        let time = if left == 1 && b[pos] == 0 {
            None
        } else if left == 17 && b[pos] == 1 {
            let secs = read_u64(b, pos + 1);
            let nanos = read_u64(b, pos + 9);
            assert(rest.skip(1) =~= b@.skip(pos + 1));
            assert(rest.skip(9) =~= b@.skip(pos + 9));
            if nanos > u32::MAX as u64 {
                return None;
            }
            Some(DateTime { secs: #[verifier::truncate] (secs as i64), nanos: nanos as u32 })
        } else {
            return None;
        };
        Some(Event { kind, paths, time })
    }
}

} // verus!
