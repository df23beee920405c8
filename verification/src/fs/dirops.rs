//! The decisions of the directory operations (create, remove a directory,
//! rename, make a symbolic link): which requests are refused, and what
//! each inode and link count becomes. Reading and writing the directory
//! entries themselves is the caller's directory layer; these steps take
//! what it found (an existing entry, the names a directory holds) and say
//! what to do.

use vstd::prelude::*;
use crate::consts::{EXT4_DE_DIR, EXT4_DE_REG_FILE, EXT4_DE_SYMLINK};
use crate::error::{Error, ErrorKind, Result};
use crate::fs::inode_ref::InodeRef;
use crate::fs::links::{check_parent_dir, spec_is_dir};

verus! {

/// What creating an entry leaves to do: allocate an inode (a directory
/// one when `is_dir`), set it up with `init_created_inode`, write the
/// first entries of a directory, and add the entry to the parent.
#[derive(Debug, Clone, Copy, PartialEq, Eq, Structural)]
pub struct CreateStep {
    /// Whether the new inode is a directory.
    pub is_dir: bool,
}

/// Creating entry type `file_type` in directory `parent`, where the
/// directory layer found `existing` under the new name: `InvalidInput`
/// when the parent is not a directory, `AlreadyExists` when the name is
/// taken, else what to create.
pub fn plan_create(parent: &InodeRef, existing: Option<u32>, file_type: u8) -> (r: Result<CreateStep>)
    ensures
        !spec_is_dir(parent.inode) ==> (r matches Err(e) && e.spec_kind() == ErrorKind::InvalidInput),
        spec_is_dir(parent.inode) && existing is Some ==> (r matches Err(e) && e.spec_kind()
            == ErrorKind::AlreadyExists),
        spec_is_dir(parent.inode) && existing is None ==> r == Ok::<CreateStep, Error>(
            CreateStep { is_dir: file_type == EXT4_DE_DIR },
        ),
{
    match check_parent_dir(parent) {
        Ok(()) => {},
        Err(e) => { return Err(e); },
    }
    if existing.is_some() {
        return Err(Error::new(ErrorKind::AlreadyExists, "Entry already exists"));
    }
    Ok(CreateStep { is_dir: file_type == EXT4_DE_DIR })
}

/// The entry type of a new symbolic link.
pub fn symlink_entry_type() -> (r: u8)
    ensures
        r == EXT4_DE_SYMLINK,
{
    EXT4_DE_SYMLINK
}

/// Whether `name` is "." or "..".
pub open spec fn spec_is_dot_entry(name: Seq<u8>) -> bool {
    name == seq![46u8] || name == seq![46u8, 46u8]
}

fn is_dot_entry(name: &[u8]) -> (r: bool)
    ensures
        r == spec_is_dot_entry(name@),
{
    let n = name.len();
    if n == 1 {
        let r = name[0] == 46u8;
        assert(r ==> name@ =~= seq![46u8]);
        r
    } else if n == 2 {
        let r = name[0] == 46u8 && name[1] == 46u8;
        assert(r ==> name@ =~= seq![46u8, 46u8]);
        r
    } else {
        false
    }
}

/// Removing directory `dir`, whose entries have the names `names` in the
/// order the directory layer read them: `InvalidInput` when it is not a
/// directory; `NotEmpty` at the first name other than "." and ".."; and
/// `InvalidInput` when it holds fewer than the two entries every directory
/// has. When it succeeds, the caller removes the parent's entry, takes one
/// link from the parent (its ".." goes), and frees the directory's blocks
/// and inode.
pub fn plan_remove_dir(dir: &InodeRef, names: &[Vec<u8>]) -> (r: Result<()>)
    ensures
        !spec_is_dir(dir.inode) ==> (r matches Err(e) && e.spec_kind() == ErrorKind::InvalidInput),
        spec_is_dir(dir.inode) ==> ({
            if exists|i: int| 0 <= i < names@.len() && !spec_is_dot_entry(#[trigger] names@[i]@) {
                r matches Err(e) && e.spec_kind() == ErrorKind::NotEmpty
            } else if names@.len() < 2 {
                r matches Err(e) && e.spec_kind() == ErrorKind::InvalidInput
            } else {
                r is Ok
            }
        }),
{
    if !dir.inode.is_dir() {
        return Err(Error::new(ErrorKind::InvalidInput, "Not a directory"));
    }
    let mut i: usize = 0;
    while i < names.len()
        invariant
            spec_is_dir(dir.inode),
            i <= names@.len(),
            forall|j: int| 0 <= j < i ==> spec_is_dot_entry(#[trigger] names@[j]@),
        decreases names@.len() - i,
    {
        if !is_dot_entry(names[i].as_slice()) {
            assert(!spec_is_dot_entry(names@[i as int]@));
            return Err(Error::new(ErrorKind::NotEmpty, "Directory not empty"));
        }
        i = i + 1;
    }
    if names.len() < 2 {
        return Err(Error::new(ErrorKind::InvalidInput, "Invalid directory structure"));
    }
    Ok(())
}

/// What renaming an entry does to inodes and link counts.
#[derive(Debug, Clone, Copy, PartialEq, Eq, Structural)]
pub struct RenamePlan {
    /// Whether the renamed inode is a directory.
    pub is_dir: bool,
    /// Entry type of the new entry: directory or regular file.
    pub entry_type: u8,
    /// An entry under the new name is replaced: it is removed and its
    /// inode loses a link (freed later once unlinked and unused).
    pub replaces: bool,
    /// The replaced inode is a directory, so the destination directory
    /// loses a link.
    pub replaced_is_dir: bool,
    /// A directory moves to another parent: the new parent gains a link,
    /// the old one loses one, and its ".." entry is pointed at the new
    /// parent.
    pub moves_parent: bool,
}

/// Renaming the entry for `target` from directory `src_dir` to directory
/// `dst_dir`, where the directory layer found `replaced` under the new
/// name.
pub fn plan_rename(target: &InodeRef, src_dir: u32, dst_dir: u32, replaced: Option<&InodeRef>) -> (r: RenamePlan)
    ensures
        r.is_dir == spec_is_dir(target.inode),
        r.entry_type == (if r.is_dir { EXT4_DE_DIR } else { EXT4_DE_REG_FILE }),
        r.replaces == (replaced is Some),
        r.replaced_is_dir == (match replaced {
            Some(old) => spec_is_dir(old.inode),
            None => false,
        }),
        r.moves_parent == (r.is_dir && src_dir != dst_dir),
{
    let is_dir = target.inode.is_dir();
    let (replaces, replaced_is_dir) = match replaced {
        Some(old) => (true, old.inode.is_dir()),
        None => (false, false),
    };
    RenamePlan {
        is_dir,
        entry_type: if is_dir { EXT4_DE_DIR } else { EXT4_DE_REG_FILE },
        replaces,
        replaced_is_dir,
        moves_parent: is_dir && src_dir != dst_dir,
    }
}

} // verus!
