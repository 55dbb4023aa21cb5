//! Entry: the smallest thing the core is willing to say about a storage object.

use crate::model::ids::{EntryId, LocatorId, ObjectId, SourceId};
use crate::model::observation::Timestamp;
use vstd::prelude::*;

verus! {

/// What the object is, in the most general sense.
#[derive(Clone, Copy, PartialEq, Eq, Structural, Hash, Debug)]
pub enum EntryKind {
    File,
    Directory,
    Symlink,
    /// Device, socket, fifo and friends; enumerated, never opened for content.
    Special,
    Other,
}

/// Refinement of [`EntryKind::Special`], encoded in flags so it costs nothing
/// per entry.
#[derive(Clone, Copy, PartialEq, Eq, Structural, Hash, Debug)]
pub enum SpecialSubtype {
    Socket,
    Fifo,
    BlockDevice,
    CharDevice,
    /// Something platform-specific the core does not model further.
    Unknown,
}

/// Per-entry observations that are cheap to record and expensive to recompute.
///
/// A set of single-bit flags held in a `u32`; its view is that `u32`.
#[derive(Clone, Copy, PartialEq, Eq, Structural, Hash, Debug)]
pub struct EntryFlags {
    bits: u32,
}

impl View for EntryFlags {
    type V = u32;

    closed spec fn view(&self) -> u32 {
        self.bits
    }
}

impl EntryFlags {
    /// Every bit of `other` is set in `self`.
    pub open spec fn has(self, other: EntryFlags) -> bool {
        self@ & other@ == other@
    }

    /// No flag at all.
    pub fn empty() -> (r: EntryFlags)
        ensures
            r@ == 0,
    {
        EntryFlags { bits: 0 }
    }

    /// The raw bit pattern.
    pub fn bits(&self) -> (r: u32)
        ensures
            r == self@,
    {
        self.bits
    }

    /// Builds a flag set from a raw bit pattern, keeping every bit.
    pub fn from_bits_retain(bits: u32) -> (r: EntryFlags)
        ensures
            r@ == bits,
    {
        EntryFlags { bits }
    }

    /// True when every flag of `other` is also set in `self`.
    pub fn contains(&self, other: EntryFlags) -> (r: bool)
        ensures
            r == self.has(other),
    {
        self.bits & other.bits == other.bits
    }

    /// The flags of both sets.
    pub fn union(self, other: EntryFlags) -> (r: EntryFlags)
        ensures
            r@ == self@ | other@,
    {
        EntryFlags { bits: self.bits | other.bits }
    }

    /// Sets every flag of `other` in `self`.
    pub fn insert(&mut self, other: EntryFlags)
        ensures
            final(self)@ == old(self)@ | other@,
    {
        self.bits = self.bits | other.bits;
    }

    /// True when no flag is set.
    pub fn is_empty(&self) -> (r: bool)
        ensures
            r == (self@ == 0),
    {
        self.bits == 0
    }

    /// Several paths point at the same [`ObjectId`].
    pub fn hardlinked() -> (r: EntryFlags)
        ensures
            r@ == 0x1,
    {
        EntryFlags { bits: 0x1 }
    }

    /// Symlink / junction / reparse point; see the symlink policy contract.
    pub fn link() -> (r: EntryFlags)
        ensures
            r@ == 0x2,
    {
        EntryFlags { bits: 0x2 }
    }

    /// The link target could not be resolved (broken symlink).
    pub fn target_unavailable() -> (r: EntryFlags)
        ensures
            r@ == 0x4,
    {
        EntryFlags { bits: 0x4 }
    }

    /// Crossing it would leave the requested filesystem(s).
    pub fn mount_boundary() -> (r: EntryFlags)
        ensures
            r@ == 0x8,
    {
        EntryFlags { bits: 0x8 }
    }

    /// Windows reparse point / junction.
    pub fn reparse_point() -> (r: EntryFlags)
        ensures
            r@ == 0x10,
    {
        EntryFlags { bits: 0x10 }
    }

    /// Size on disk is smaller than `logical_size`.
    pub fn sparse() -> (r: EntryFlags)
        ensures
            r@ == 0x20,
    {
        EntryFlags { bits: 0x20 }
    }

    /// Content could not be read (permission, IO, decryption, ...).
    pub fn unreadable() -> (r: EntryFlags)
        ensures
            r@ == 0x40,
    {
        EntryFlags { bits: 0x40 }
    }

    /// Metadata changed between the scan pass and the fingerprint pass.
    pub fn changed_during_scan() -> (r: EntryFlags)
        ensures
            r@ == 0x80,
    {
        EntryFlags { bits: 0x80 }
    }

    /// Object identity could not be obtained.
    pub fn object_id_unknown() -> (r: EntryFlags)
        ensures
            r@ == 0x100,
    {
        EntryFlags { bits: 0x100 }
    }

    /// `Special`: socket.
    pub fn socket() -> (r: EntryFlags)
        ensures
            r@ == 0x200,
    {
        EntryFlags { bits: 0x200 }
    }

    /// `Special`: fifo / named pipe.
    pub fn fifo() -> (r: EntryFlags)
        ensures
            r@ == 0x400,
    {
        EntryFlags { bits: 0x400 }
    }

    /// `Special`: block device.
    pub fn block_device() -> (r: EntryFlags)
        ensures
            r@ == 0x800,
    {
        EntryFlags { bits: 0x800 }
    }

    /// `Special`: character device.
    pub fn char_device() -> (r: EntryFlags)
        ensures
            r@ == 0x1000,
    {
        EntryFlags { bits: 0x1000 }
    }
}

/// A flag set contains every flag inserted into it, and keeps every flag it
/// had.
pub proof fn lemma_insert_then_contains(before: u32, inserted: u32, kept: u32)
    requires
        before & kept == kept,
    ensures
        (before | inserted) & inserted == inserted,
        (before | inserted) & kept == kept,
{
    assert((before | inserted) & inserted == inserted) by (bit_vector);
    assert(before & kept == kept ==> (before | inserted) & kept == kept) by (bit_vector);
}

/// Bit of [`EntryFlags::unreadable`].
pub open spec fn unreadable_bit() -> u32 {
    0x40
}

/// Bit of [`EntryFlags::changed_during_scan`].
pub open spec fn changed_bit() -> u32 {
    0x80
}

/// One storage object as seen by the core.
///
/// Kept small: at tens of millions of entries, every extra field is hundreds
/// of megabytes. The metadata snapshot is therefore **not** in here — it is
/// recorded per candidate in [`crate::model::store::EntryStore`].
#[derive(Clone, Copy, PartialEq, Eq, Structural, Debug)]
pub struct Entry {
    pub id: EntryId,
    pub source: SourceId,
    pub locator: LocatorId,
    /// `None` when identity is unavailable; the reason is carried by
    /// [`EntryFlags::object_id_unknown`] plus an entry-level error.
    pub object: Option<ObjectId>,
    /// Present only when the plan materializes hierarchy.
    pub parent: Option<EntryId>,
    pub kind: EntryKind,
    pub flags: EntryFlags,
    /// Logical size, i.e. what the content claims. It is **not** allocated
    /// size: hardlinks, sparse files, compression and CoW all break that
    /// assumption.
    pub logical_size: Option<u64>,
    pub modified: Option<Timestamp>,
}

impl Entry {
    /// A regular file that is neither unreadable nor changed during the scan.
    pub open spec fn spec_is_duplicate_candidate(self) -> bool {
        &&& self.kind == EntryKind::File
        &&& self.flags@ & unreadable_bit() != unreadable_bit()
        &&& self.flags@ & changed_bit() != changed_bit()
    }

    /// The subtype a special entry reports: the first of socket, fifo, block
    /// device and character device whose flag is set, else `Unknown`; `None`
    /// for every entry that is not `Special`.
    pub open spec fn spec_special_subtype(self) -> Option<SpecialSubtype> {
        if self.kind != EntryKind::Special {
            None
        } else if self.flags@ & 0x200 == 0x200 {
            Some(SpecialSubtype::Socket)
        } else if self.flags@ & 0x400 == 0x400 {
            Some(SpecialSubtype::Fifo)
        } else if self.flags@ & 0x800 == 0x800 {
            Some(SpecialSubtype::BlockDevice)
        } else if self.flags@ & 0x1000 == 0x1000 {
            Some(SpecialSubtype::CharDevice)
        } else {
            Some(SpecialSubtype::Unknown)
        }
    }

    /// True when the entry can be a duplicate candidate at all.
    pub fn is_duplicate_candidate(&self) -> (r: bool)
        ensures
            r == self.spec_is_duplicate_candidate(),
    {
        matches!(self.kind, EntryKind::File) && !self.flags.contains(EntryFlags::unreadable())
            && !self.flags.contains(EntryFlags::changed_during_scan())
    }

    /// Special files are enumerated but never opened, and never hashed.
    pub fn special_subtype(&self) -> (r: Option<SpecialSubtype>)
        ensures
            r == self.spec_special_subtype(),
    {
        if !matches!(self.kind, EntryKind::Special) {
            return None;
        }
        Some(
            if self.flags.contains(EntryFlags::socket()) {
                SpecialSubtype::Socket
            } else if self.flags.contains(EntryFlags::fifo()) {
                SpecialSubtype::Fifo
            } else if self.flags.contains(EntryFlags::block_device()) {
                SpecialSubtype::BlockDevice
            } else if self.flags.contains(EntryFlags::char_device()) {
                SpecialSubtype::CharDevice
            } else {
                SpecialSubtype::Unknown
            },
        )
    }
}

/// Only regular files enter the duplicate pipeline, and only when they are
/// readable and did not change during the scan: symlinks, special files,
/// directories and other entries never do, and a regular file with neither
/// the unreadable bit (0x40) nor the changed-during-scan bit (0x80) always
/// does.
pub proof fn lemma_duplicate_candidates_are_readable_files(e: Entry)
    ensures
        e.spec_is_duplicate_candidate() ==> e.kind == EntryKind::File,
        e.kind == EntryKind::Symlink ==> !e.spec_is_duplicate_candidate(),
        e.kind == EntryKind::Special ==> !e.spec_is_duplicate_candidate(),
        e.kind == EntryKind::Directory ==> !e.spec_is_duplicate_candidate(),
        e.kind == EntryKind::Other ==> !e.spec_is_duplicate_candidate(),
        e.flags@ & 0x40 == 0x40 ==> !e.spec_is_duplicate_candidate(),
        e.flags@ & 0x80 == 0x80 ==> !e.spec_is_duplicate_candidate(),
        e.kind == EntryKind::File && e.flags@ & 0x40 != 0x40 && e.flags@ & 0x80 != 0x80
            ==> e.spec_is_duplicate_candidate(),
{
}

/// Which subtype a special entry reports: only special entries report one;
/// the socket bit (0x200) wins over the fifo bit (0x400), which wins over the
/// block-device bit (0x800), which wins over the character-device bit
/// (0x1000); a special entry with none of them reports `Unknown`.
pub proof fn lemma_special_subtype_priority(e: Entry)
    ensures
        e.kind != EntryKind::Special <==> e.spec_special_subtype() is None,
        e.kind == EntryKind::Special && e.flags@ & 0x200 == 0x200 ==> e.spec_special_subtype()
            == Some(SpecialSubtype::Socket),
        e.kind == EntryKind::Special && e.flags@ & 0x200 != 0x200 && e.flags@ & 0x400 == 0x400
            ==> e.spec_special_subtype() == Some(SpecialSubtype::Fifo),
        e.kind == EntryKind::Special && e.flags@ & 0x200 != 0x200 && e.flags@ & 0x400 != 0x400
            && e.flags@ & 0x800 == 0x800 ==> e.spec_special_subtype() == Some(
            SpecialSubtype::BlockDevice,
        ),
        e.kind == EntryKind::Special && e.flags@ & 0x200 != 0x200 && e.flags@ & 0x400 != 0x400
            && e.flags@ & 0x800 != 0x800 && e.flags@ & 0x1000 == 0x1000
            ==> e.spec_special_subtype() == Some(SpecialSubtype::CharDevice),
        e.kind == EntryKind::Special && e.flags@ & 0x200 != 0x200 && e.flags@ & 0x400 != 0x400
            && e.flags@ & 0x800 != 0x800 && e.flags@ & 0x1000 != 0x1000
            ==> e.spec_special_subtype() == Some(SpecialSubtype::Unknown),
{
}

} // verus!
