//! Symbolic link targets. A target shorter than the inode's 60-byte block
//! map area is stored in that area ("fast" link); a longer one lives in the
//! link's first data block, which the caller reads or allocates.

use vstd::prelude::*;
use vstd::string::StringSliceAdditionalSpecFns;
use vstd::utf8::{encode_utf8, valid_utf8};
use crate::bytes::{
    le32_seq, lemma_le32_seq_len, lemma_le32_seq_words, push_u32_slice_le, read_u32_le, spec_words,
    str_from_utf8, write_bytes_at,
};
use crate::consts::{EXT4_INODE_FLAG_EXTENTS, EXT4_INODE_MODE_SOFTLINK, EXT4_INODE_MODE_TYPE_MASK};
use crate::error::{Error, ErrorKind, Result};
use crate::fs::inode_ref::InodeRef;
use crate::types::ext4_inode;

verus! {

/// Bytes of the inode's block map area, where a fast link keeps its
/// target.
pub const INLINE_LINK_AREA: usize = 60;

/// Where a symbolic link's target lies.
#[derive(Debug)]
pub enum LinkTarget {
    /// The target, read from the inode itself.
    Inline(String),
    /// The target is the first this-many bytes of the link's first data
    /// block.
    InBlock(u64),
}

/// The block map area of an inode as bytes.
pub open spec fn spec_inline_area(inode: ext4_inode) -> Seq<u8> {
    le32_seq(inode.blocks@)
}

/// Whether `mode` is that of a symbolic link.
pub open spec fn spec_is_symlink(mode: u16) -> bool {
    mode & EXT4_INODE_MODE_TYPE_MASK == EXT4_INODE_MODE_SOFTLINK
}

/// What reading the target of a link of `inode` gives, for the bytes
/// `bytes` it stores inline: text whose UTF-8 encoding is those bytes, or
/// `None` when they are not valid UTF-8.
pub open spec fn spec_text_of(r: Result<String>, bytes: Seq<u8>) -> bool {
    if valid_utf8(bytes) {
        r matches Ok(s) && encode_utf8(s@) == bytes
    } else {
        r matches Err(e) && e.spec_kind() == ErrorKind::InvalidInput
    }
}

/// Turns target bytes into text: `InvalidInput` unless they are UTF-8.
fn bytes_to_text(bytes: &[u8]) -> (r: Result<String>)
    ensures
        spec_text_of(r, bytes@),
{
    match str_from_utf8(bytes) {
        Some(s) => {
            let owned = s.to_owned();
            assert(encode_utf8(owned@) == s.spec_bytes());
            Ok(owned)
        },
        None => Err(Error::new(ErrorKind::InvalidInput, "Invalid UTF-8 in symlink target")),
    }
}

/// Where the target of the link held by `inode_ref` lies: `InvalidInput`
/// when the inode is not a symbolic link; empty text for size 0; the
/// first `size` bytes of the block map area as text when the size is
/// under 60 (`InvalidInput` when they are not UTF-8); otherwise the size,
/// to be read from the first data block.
pub fn read_link_target(inode_ref: &InodeRef) -> (r: Result<LinkTarget>)
    ensures
        !spec_is_symlink(inode_ref.inode.mode) ==> (r matches Err(e) && e.spec_kind()
            == ErrorKind::InvalidInput),
        spec_is_symlink(inode_ref.inode.mode) ==> ({
            let size = inode_ref.inode.spec_file_size();
            if size == 0 {
                r matches Ok(LinkTarget::Inline(s)) && s@.len() == 0
            } else if size < 60 {
                let bytes = spec_inline_area(inode_ref.inode).take(size);
                if valid_utf8(bytes) {
                    r matches Ok(LinkTarget::Inline(s)) && encode_utf8(s@) == bytes
                } else {
                    r matches Err(e) && e.spec_kind() == ErrorKind::InvalidInput
                }
            } else {
                r matches Ok(LinkTarget::InBlock(n)) && n == size
            }
        }),
{
    let mode = inode_ref.inode.mode;
    if (mode & EXT4_INODE_MODE_TYPE_MASK) != EXT4_INODE_MODE_SOFTLINK {
        return Err(Error::new(ErrorKind::InvalidInput, "Not a symlink"));
    }
    let size = match inode_ref.size() {
        Ok(s) => s,
        Err(e) => { return Err(e); },
    };
    if size == 0 {
        return Ok(LinkTarget::Inline(String::new()));
    }
    if size < 60 {
        let mut area: Vec<u8> = Vec::new();
        push_u32_slice_le(&mut area, inode_ref.inode.blocks.as_slice());
        proof {
            lemma_le32_seq_len(inode_ref.inode.blocks@);
        }
        let bytes = vstd::slice::slice_subrange(area.as_slice(), 0, size as usize);
        assert(bytes@ =~= spec_inline_area(inode_ref.inode).take(size as int));
        match bytes_to_text(bytes) {
            Ok(s) => Ok(LinkTarget::Inline(s)),
            Err(e) => Err(e),
        }
    } else {
        Ok(LinkTarget::InBlock(size))
    }
}

/// The target of a link stored in a data block: the first `len` bytes of
/// `block` as text, `InvalidInput` when they are not UTF-8.
pub fn link_target_from_block(block: &[u8], len: usize) -> (r: Result<String>)
    requires
        len <= block@.len(),
    ensures
        spec_text_of(r, block@.take(len as int)),
{
    let bytes = vstd::slice::slice_subrange(block, 0, len);
    assert(bytes@ =~= block@.take(len as int));
    bytes_to_text(bytes)
}

/// The inode of a new link to `target`: the old inode with a symbolic
/// link mode (permissions 0777), one link, the target's length as size
/// and zero times; a target under 60 bytes replaces the start of the
/// block map area, a longer one marks the inode as extent mapped.
pub open spec fn spec_symlink_inode(old: ext4_inode, new: ext4_inode, target: Seq<u8>) -> bool {
    let len = target.len();
    &&& new.mode == (EXT4_INODE_MODE_SOFTLINK | 0o777)
    &&& new.links_count == 1
    &&& new.spec_file_size() == len
    &&& new.atime == 0 && new.ctime == 0 && new.mtime == 0
    &&& if len < 60 {
        &&& new.blocks@ == spec_words(target + spec_inline_area(old).skip(len as int), 15)
        &&& new.flags == old.flags
    } else {
        &&& new.blocks@ == old.blocks@
        &&& new.flags == old.flags | EXT4_INODE_FLAG_EXTENTS
    }
    &&& new == (ext4_inode {
        mode: new.mode,
        links_count: new.links_count,
        size_lo: new.size_lo,
        size_hi: new.size_hi,
        atime: new.atime,
        ctime: new.ctime,
        mtime: new.mtime,
        blocks: new.blocks,
        flags: new.flags,
        ..old
    })
}

/// Makes the inode held by `inode_ref` a symbolic link to `target`;
/// `true` when the target was stored in the inode, `false` when it is
/// long enough to need a data block, which the caller allocates and
/// fills.
pub fn init_symlink_inode(inode_ref: &mut InodeRef, target: &[u8]) -> (r: bool)
    ensures
        r == (target@.len() < 60),
        spec_symlink_inode(old(inode_ref).inode, final(inode_ref).inode, target@),
        final(inode_ref).dirty,
        final(inode_ref).sb == old(inode_ref).sb,
        final(inode_ref).inode_num == old(inode_ref).inode_num,
        final(inode_ref).inode_block_addr == old(inode_ref).inode_block_addr,
        final(inode_ref).offset_in_block == old(inode_ref).offset_in_block,
        final(inode_ref).block_map_cache == old(inode_ref).block_map_cache,
{
    let ghost old_inode = inode_ref.inode;
    inode_ref.inode.mode = EXT4_INODE_MODE_SOFTLINK | 0o777;
    inode_ref.inode.links_count = 1;
    let _ = inode_ref.set_size(target.len() as u64);
    inode_ref.inode.atime = 0;
    inode_ref.inode.ctime = 0;
    inode_ref.inode.mtime = 0;
    inode_ref.dirty = true;
    if target.len() < 60 {
        let mut area: Vec<u8> = Vec::new();
        push_u32_slice_le(&mut area, inode_ref.inode.blocks.as_slice());
        proof {
            lemma_le32_seq_len(old_inode.blocks@);
        }
        assert(area@ == spec_inline_area(old_inode));
        write_bytes_at(area.as_mut_slice(), 0, target);
        let ghost filled = area@;
        let ghost pre = *inode_ref;
        assert(filled =~= target@ + spec_inline_area(old_inode).skip(target@.len() as int));
        let mut i: usize = 0;
        while i < 15
            invariant
                i <= 15,
                area@ == filled,
                filled.len() == 60,
                *inode_ref == (InodeRef {
                    inode: ext4_inode { blocks: inode_ref.inode.blocks, ..pre.inode },
                    ..pre
                }),
                forall|k: int| 0 <= k < i ==> inode_ref.inode.blocks@[k] == #[trigger] spec_words(filled, 15)[k],
                inode_ref.inode.blocks@.len() == 15,
            decreases 15 - i,
        {
            let w = read_u32_le(area.as_slice(), 4 * i);
            inode_ref.inode.blocks[i] = w;
            i = i + 1;
        }
        assert(inode_ref.inode.blocks@ =~= spec_words(filled, 15));
        true
    } else {
        inode_ref.inode.flags = inode_ref.inode.flags | EXT4_INODE_FLAG_EXTENTS;
        false
    }
}

/// A link made by `init_symlink_inode` with a target under 60 bytes reads
/// back as that target: the inode is a symbolic link, its size is the
/// target's length, and the block map area starts with the target bytes.
pub proof fn lemma_inline_link_roundtrip(old: ext4_inode, new: ext4_inode, target: Seq<u8>)
    requires
        target.len() < 60,
        spec_symlink_inode(old, new, target),
    ensures
        spec_is_symlink(new.mode),
        new.spec_file_size() == target.len(),
        spec_inline_area(new).take(target.len() as int) == target,
{
    let filled = target + spec_inline_area(old).skip(target.len() as int);
    lemma_le32_seq_len(old.blocks@);
    lemma_le32_seq_words(filled, 15);
    assert(spec_inline_area(new).take(target.len() as int) =~= target);
    assert((EXT4_INODE_MODE_SOFTLINK | 0o777) & EXT4_INODE_MODE_TYPE_MASK == EXT4_INODE_MODE_SOFTLINK)
        by (bit_vector);
}

} // verus!
