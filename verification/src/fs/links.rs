//! The inode side of directory operations: which inodes may be linked or
//! removed, the directory entry type of an inode, link counting, what a
//! newly created inode looks like, and when an unlinked inode is freed.
//! Adding and removing the directory entries themselves is left to the
//! caller's directory layer.

use vstd::prelude::*;
use crate::consts::{
    EXT4_DE_BLKDEV, EXT4_DE_CHRDEV, EXT4_DE_DIR, EXT4_DE_FIFO, EXT4_DE_REG_FILE, EXT4_DE_SOCK,
    EXT4_DE_SYMLINK, EXT4_INODE_FLAG_EXTENTS, EXT4_INODE_MODE_BLOCKDEV, EXT4_INODE_MODE_CHARDEV,
    EXT4_INODE_MODE_DIRECTORY, EXT4_INODE_MODE_FIFO, EXT4_INODE_MODE_FILE, EXT4_INODE_MODE_SOCKET,
    EXT4_INODE_MODE_SOFTLINK, EXT4_INODE_MODE_TYPE_MASK,
};
use crate::error::{Error, ErrorKind, Result};
use crate::fs::filesystem::Ext4FileSystem;
use crate::fs::inode_ref::InodeRef;
use crate::types::{ext4_inode, ext4_sblock};

verus! {

/// The directory entry type naming an inode of mode `mode`; modes of no
/// known type count as regular files.
pub open spec fn spec_dir_entry_type(mode: u16) -> u8 {
    let t = mode & EXT4_INODE_MODE_TYPE_MASK;
    if t == EXT4_INODE_MODE_FILE {
        EXT4_DE_REG_FILE
    } else if t == EXT4_INODE_MODE_SOFTLINK {
        EXT4_DE_SYMLINK
    } else if t == EXT4_INODE_MODE_CHARDEV {
        EXT4_DE_CHRDEV
    } else if t == EXT4_INODE_MODE_BLOCKDEV {
        EXT4_DE_BLKDEV
    } else if t == EXT4_INODE_MODE_FIFO {
        EXT4_DE_FIFO
    } else if t == EXT4_INODE_MODE_SOCKET {
        EXT4_DE_SOCK
    } else {
        EXT4_DE_REG_FILE
    }
}

/// The directory entry type naming an inode of mode `mode`.
pub fn dir_entry_type(mode: u16) -> (r: u8)
    ensures
        r == spec_dir_entry_type(mode),
{
    let t = mode & EXT4_INODE_MODE_TYPE_MASK;
    if t == EXT4_INODE_MODE_FILE {
        EXT4_DE_REG_FILE
    } else if t == EXT4_INODE_MODE_SOFTLINK {
        EXT4_DE_SYMLINK
    } else if t == EXT4_INODE_MODE_CHARDEV {
        EXT4_DE_CHRDEV
    } else if t == EXT4_INODE_MODE_BLOCKDEV {
        EXT4_DE_BLKDEV
    } else if t == EXT4_INODE_MODE_FIFO {
        EXT4_DE_FIFO
    } else if t == EXT4_INODE_MODE_SOCKET {
        EXT4_DE_SOCK
    } else {
        EXT4_DE_REG_FILE
    }
}

/// The type bits of a new inode created under entry type `file_type`:
/// regular file, directory or symbolic link; others make a regular file.
pub open spec fn spec_mode_for_entry(file_type: u8) -> u16 {
    if file_type == EXT4_DE_DIR {
        EXT4_INODE_MODE_DIRECTORY
    } else if file_type == EXT4_DE_SYMLINK {
        EXT4_INODE_MODE_SOFTLINK
    } else {
        EXT4_INODE_MODE_FILE
    }
}

/// The type bits of a new inode created under entry type `file_type`.
pub fn mode_for_entry(file_type: u8) -> (r: u16)
    ensures
        r == spec_mode_for_entry(file_type),
{
    if file_type == EXT4_DE_DIR {
        EXT4_INODE_MODE_DIRECTORY
    } else if file_type == EXT4_DE_SYMLINK {
        EXT4_INODE_MODE_SOFTLINK
    } else {
        EXT4_INODE_MODE_FILE
    }
}

/// Whether the inode is a directory.
pub open spec fn spec_is_dir(inode: ext4_inode) -> bool {
    inode.spec_type_bits() == EXT4_INODE_MODE_DIRECTORY
}

/// Checks that the inode held by `inode_ref` is a directory, as a parent
/// of entries must be: `InvalidInput` otherwise.
pub fn check_parent_dir(inode_ref: &InodeRef) -> (r: Result<()>)
    ensures
        spec_is_dir(inode_ref.inode) <==> r is Ok,
        !spec_is_dir(inode_ref.inode) ==> (r matches Err(e) && e.spec_kind() == ErrorKind::InvalidInput),
{
    if inode_ref.inode.is_dir() {
        Ok(())
    } else {
        Err(Error::new(ErrorKind::InvalidInput, "Parent inode is not a directory"))
    }
}

/// Checks that the inode held by `inode_ref` is not a directory, as the
/// target of a hard link or of a file removal must not be: `InvalidInput`
/// otherwise.
pub fn check_not_dir(inode_ref: &InodeRef) -> (r: Result<()>)
    ensures
        !spec_is_dir(inode_ref.inode) <==> r is Ok,
        spec_is_dir(inode_ref.inode) ==> (r matches Err(e) && e.spec_kind() == ErrorKind::InvalidInput),
{
    if inode_ref.inode.is_dir() {
        Err(Error::new(ErrorKind::InvalidInput, "Cannot link or remove a directory here"))
    } else {
        Ok(())
    }
}

/// The checks of making a hard link in `dir_ref` to `child_ref`: the first
/// must be a directory and the second must not (`InvalidInput`); returns
/// the entry type the new entry gets.
pub fn link_entry_type(dir_ref: &InodeRef, child_ref: &InodeRef) -> (r: Result<u8>)
    ensures
        !spec_is_dir(dir_ref.inode) ==> (r matches Err(e) && e.spec_kind() == ErrorKind::InvalidInput),
        spec_is_dir(dir_ref.inode) && spec_is_dir(child_ref.inode) ==> (r matches Err(e) && e.spec_kind()
            == ErrorKind::InvalidInput),
        spec_is_dir(dir_ref.inode) && !spec_is_dir(child_ref.inode) ==> r == Ok::<u8, Error>(
            spec_dir_entry_type(child_ref.inode.mode)),
{
    match check_parent_dir(dir_ref) {
        Ok(()) => {},
        Err(e) => { return Err(e); },
    }
    match check_not_dir(child_ref) {
        Ok(()) => {},
        Err(e) => { return Err(e); },
    }
    Ok(dir_entry_type(child_ref.inode.mode))
}

/// One more link to the inode held by `inode_ref`; the inode is marked
/// dirty.
pub fn inc_links(inode_ref: &mut InodeRef)
    requires
        old(inode_ref).inode.links_count < u16::MAX,
    ensures
        *final(inode_ref) == (InodeRef {
            inode: ext4_inode { links_count: (old(inode_ref).inode.links_count + 1) as u16, ..old(inode_ref).inode },
            dirty: true,
            ..*old(inode_ref)
        }),
{
    inode_ref.inode.links_count = inode_ref.inode.links_count + 1;
    inode_ref.dirty = true;
}

/// One link fewer to the inode held by `inode_ref`, stopping at zero; the
/// inode is marked dirty. Returns the new count.
pub fn dec_links(inode_ref: &mut InodeRef) -> (r: u16)
    ensures
        r == (if old(inode_ref).inode.links_count == 0 { 0 } else { old(inode_ref).inode.links_count - 1 }),
        *final(inode_ref) == (InodeRef {
            inode: ext4_inode { links_count: r, ..old(inode_ref).inode },
            dirty: true,
            ..*old(inode_ref)
        }),
{
    let links = inode_ref.inode.links_count;
    let n = if links == 0 { 0 } else { links - 1 };
    inode_ref.inode.links_count = n;
    inode_ref.dirty = true;
    n
}

/// What follows removing a file's directory entry.
#[derive(Debug, Clone, Copy, PartialEq, Eq, Structural)]
pub struct UnlinkOutcome {
    /// No link is left: the inode is to be freed.
    pub free: bool,
    /// Its data blocks are to be released first (all but fast symbolic
    /// links, which have none).
    pub truncate: bool,
}

/// After a file's entry was removed: one link fewer; when none is left,
/// the inode is to be freed, after its blocks unless it is a fast
/// symbolic link (under 60 bytes).
pub fn release_link(inode_ref: &mut InodeRef) -> (r: UnlinkOutcome)
    ensures
        final(inode_ref).inode.links_count == (if old(inode_ref).inode.links_count == 0 { 0 } else {
            old(inode_ref).inode.links_count - 1
        }),
        *final(inode_ref) == (InodeRef {
            inode: ext4_inode { links_count: final(inode_ref).inode.links_count, ..old(inode_ref).inode },
            dirty: true,
            ..*old(inode_ref)
        }),
        r.free == (final(inode_ref).inode.links_count == 0),
        r.truncate == (r.free && !(old(inode_ref).inode.spec_type_bits() == EXT4_INODE_MODE_SOFTLINK
            && old(inode_ref).inode.spec_file_size() < 60)),
{
    let links = dec_links(inode_ref);
    let is_fast = inode_ref.inode.is_symlink() && inode_ref.inode.file_size() < 60;
    let free = links == 0;
    UnlinkOutcome { free, truncate: free && !is_fast }
}

/// When the last reference to an inode goes: an inode with no links left
/// loses its data (size 0, dirty) and is to be freed, and `Some` tells
/// whether it is a directory; an inode still linked is left as it is.
pub fn drop_inode(inode_ref: &mut InodeRef) -> (r: Option<bool>)
    ensures
        old(inode_ref).inode.links_count != 0 ==> r is None && *final(inode_ref) == *old(inode_ref),
        old(inode_ref).inode.links_count == 0 ==> r == Some(spec_is_dir(old(inode_ref).inode)) && *final(
            inode_ref) == (InodeRef {
            inode: ext4_inode { size_lo: 0, size_hi: 0, ..old(inode_ref).inode },
            dirty: true,
            ..*old(inode_ref)
        }),
{
    if inode_ref.inode.links_count != 0 {
        return None;
    }
    let is_dir = inode_ref.inode.is_dir();
    let _ = inode_ref.set_size(0);
    Some(is_dir)
}

/// The extra inode size a new inode gets: the superblock's wanted size
/// (32 when unset) for inodes larger than 128 bytes, none otherwise.
pub open spec fn spec_new_extra_isize(sb: ext4_sblock) -> u16 {
    if sb.spec_inode_size() > 128 {
        if sb.want_extra_isize > 0 { sb.want_extra_isize } else { 32 }
    } else {
        0
    }
}

/// A newly created inode: type bits for `file_type` with permission bits
/// `mode`, one link, zero times, the new extra size when there is one,
/// extent mapped, size 0.
pub open spec fn spec_created_inode(old: ext4_inode, new: ext4_inode, sb: ext4_sblock, file_type: u8, mode: u16) -> bool {
    let extra = spec_new_extra_isize(sb);
    new == (ext4_inode {
        mode: spec_mode_for_entry(file_type) | mode,
        links_count: 1,
        atime: 0,
        mtime: 0,
        ctime: 0,
        extra_isize: if extra > 0 { extra } else { old.extra_isize },
        flags: old.flags | EXT4_INODE_FLAG_EXTENTS,
        size_lo: 0,
        size_hi: 0,
        ..old
    })
}

impl Ext4FileSystem {
    /// The extra inode size of new inodes of this filesystem.
    pub fn new_inode_extra_isize(&self) -> (r: u16)
        ensures
            r == spec_new_extra_isize(self.spec_sb()),
    {
        let sb = self.superblock();
        if sb.inode_size() > 128 {
            let want = sb.inner().want_extra_isize;
            if want > 0 { want } else { 32 }
        } else {
            0
        }
    }

    /// Sets up the freshly allocated inode held by `inode_ref` as a new
    /// entry of type `file_type` with permission bits `mode`; the inode is
    /// marked dirty. Its extent tree and, for a directory, its first
    /// entries are the caller's to write.
    pub fn init_created_inode(&self, inode_ref: &mut InodeRef, file_type: u8, mode: u16)
        ensures
            spec_created_inode(old(inode_ref).inode, final(inode_ref).inode, self.spec_sb(), file_type, mode),
            *final(inode_ref) == (InodeRef { inode: final(inode_ref).inode, dirty: true, ..*old(inode_ref) }),
    {
        let extra = self.new_inode_extra_isize();
        let type_bits = mode_for_entry(file_type);
        inode_ref.inode.mode = type_bits | mode;
        inode_ref.inode.links_count = 1;
        inode_ref.inode.atime = 0;
        inode_ref.inode.mtime = 0;
        inode_ref.inode.ctime = 0;
        if extra > 0 {
            inode_ref.inode.extra_isize = extra;
        }
        inode_ref.inode.flags = inode_ref.inode.flags | EXT4_INODE_FLAG_EXTENTS;
        inode_ref.inode.size_lo = 0;
        inode_ref.inode.size_hi = 0;
        inode_ref.dirty = true;
    }
}

/// Whether moving an entry changes the link counts of its parents: only a
/// directory moved to another directory does (its ".." changes parent).
pub open spec fn spec_moves_parent(is_dir: bool, src_dir: u32, dst_dir: u32) -> bool {
    is_dir && src_dir != dst_dir
}

/// The entry type of a renamed entry: a directory stays a directory, any
/// other inode is entered as a regular file.
pub fn rename_entry_type(target_ref: &InodeRef) -> (r: (bool, u8))
    ensures
        r.0 == spec_is_dir(target_ref.inode),
        r.1 == (if r.0 { EXT4_DE_DIR } else { EXT4_DE_REG_FILE }),
{
    let is_dir = target_ref.inode.is_dir();
    (is_dir, if is_dir { EXT4_DE_DIR } else { EXT4_DE_REG_FILE })
}

/// Whether a rename of an entry (a directory when `is_dir`) from `src_dir`
/// to `dst_dir` moves one link from the old parent to the new one.
pub fn rename_moves_parent(is_dir: bool, src_dir: u32, dst_dir: u32) -> (r: bool)
    ensures
        r == spec_moves_parent(is_dir, src_dir, dst_dir),
{
    is_dir && src_dir != dst_dir
}

/// Adding a link with `inc_links` and then removing one with
/// `dec_links` gives back the inode as it was, only marked dirty.
pub proof fn lemma_link_unlink_restores(a: InodeRef, b: InodeRef, c: InodeRef)
    requires
        a.inode.links_count < u16::MAX,
        b == (InodeRef {
            inode: ext4_inode { links_count: (a.inode.links_count + 1) as u16, ..a.inode },
            dirty: true,
            ..a
        }),
        c == (InodeRef {
            inode: ext4_inode {
                links_count: if b.inode.links_count == 0 { 0 } else { (b.inode.links_count - 1) as u16 },
                ..b.inode
            },
            dirty: true,
            ..b
        }),
    ensures
        c == (InodeRef { dirty: true, ..a }),
{
}

} // verus!
