//! Attribute blocks: the header, validation of the entry list and value
//! areas, initialisation, lookup and the reference count.

use vstd::prelude::*;
use crate::bytes::{le32, read_u32_le, u32_at, write_u32_le};
use crate::consts::EXT4_XATTR_MAGIC;
use crate::consts::EXT4_XATTR_REFCOUNT_MAX;
use crate::error::{Error, ErrorKind, Result};
use crate::superblock::Superblock;
use crate::types::{ext4_xattr_entry, ext4_xattr_header};
use crate::xattr::search::{next_entry_offset, spec_entry_len, spec_find, XattrSearch};

verus! {

/// Size of the block header; entries start right after it.
pub const HEADER_SIZE: usize = 32;

/// Reads the block header; `InvalidInput` when the block is shorter than
/// a header.
pub fn get_block_header(block_data: &[u8]) -> (r: Result<ext4_xattr_header>)
    ensures
        block_data@.len() < HEADER_SIZE ==> (r matches Err(e) && e.spec_kind() == ErrorKind::InvalidInput),
        block_data@.len() >= HEADER_SIZE ==> (r matches Ok(h) && h.h_magic == u32_at(block_data@, 0)
            && h.h_refcount == u32_at(block_data@, 4) && h.h_blocks == u32_at(block_data@, 8)
            && h.h_hash == u32_at(block_data@, 12) && h.h_checksum == u32_at(block_data@, 16)
            && h.h_reserved@ == seq![u32_at(block_data@, 20), u32_at(block_data@, 24), u32_at(block_data@, 28)]),
{
    if block_data.len() < HEADER_SIZE {
        return Err(Error::new(ErrorKind::InvalidInput, "block too small for header"));
    }
    let r0 = read_u32_le(block_data, 20);
    let r1 = read_u32_le(block_data, 24);
    let r2 = read_u32_le(block_data, 28);
    let h = ext4_xattr_header {
        h_magic: read_u32_le(block_data, 0),
        h_refcount: read_u32_le(block_data, 4),
        h_blocks: read_u32_le(block_data, 8),
        h_hash: read_u32_le(block_data, 12),
        h_checksum: read_u32_le(block_data, 16),
        h_reserved: [r0, r1, r2],
    };
    assert(h.h_reserved@ =~= seq![r0, r1, r2]);
    Ok(h)
}

/// Walk of the entry list of a block of `end` bytes from `off` with the
/// lowest value offset so far `min_offs`: `None` when an entry breaks a
/// rule, else the offset where the list ends and the lowest value offset.
pub open spec fn spec_validate_walk(data: Seq<u8>, end: int, off: int, min_offs: int) -> Option<(int, int)>
    decreases end + 300 - off,
{
    if off < 0 || off + 4 > end {
        Some((off, min_offs))
    } else if u32_at(data, off) == 0 {
        Some((off, min_offs))
    } else if off + 16 > end {
        None
    } else {
        let e = ext4_xattr_entry::spec_at(data, off);
        let vs = e.e_value_size as int;
        let vo = e.e_value_offs as int;
        if vs == 0 && vo != 0 {
            None
        } else if vs > 0 && vo + vs > end {
            None
        } else {
            let m = if vs > 0 && vo < min_offs { vo } else { min_offs };
            let next = off + spec_entry_len(e.e_name_len as int);
            if next + 4 > end {
                None
            } else {
                proof {
                    assert(spec_entry_len(e.e_name_len as int) >= 16);
                }
                spec_validate_walk(data, end, next, m)
            }
        }
    }
}

/// Whether a block passes validation.
pub open spec fn spec_block_valid(sb: crate::types::ext4_sblock, data: Seq<u8>) -> bool {
    let end = sb.spec_block_size() as int;
    &&& data.len() >= end
    &&& data.len() >= HEADER_SIZE
    &&& u32_at(data, 0) == EXT4_XATTR_MAGIC
    &&& u32_at(data, 8) == 1
    &&& spec_validate_walk(data, end, HEADER_SIZE as int, end) matches Some((off, m)) && off <= m
}

/// Checks an attribute block: long enough for the block size and a header,
/// the magic number, a single block, entries and values inside the block,
/// no value offset without a value, and entries ending before the lowest
/// value. Every failure is `InvalidInput`.
pub fn validate_block(sb: &Superblock, block_data: &[u8]) -> (r: Result<()>)
    requires
        sb@.log_block_size < 32,
        block_data@.len() + 1024 <= usize::MAX,
    ensures
        r is Ok <==> spec_block_valid(sb@, block_data@),
        r matches Err(e) ==> e.spec_kind() == ErrorKind::InvalidInput,
{
    let block_size = sb.block_size() as usize;
    if block_data.len() < block_size {
        return Err(Error::new(ErrorKind::InvalidInput, "block data too small"));
    }
    let header = match get_block_header(block_data) {
        Ok(h) => h,
        Err(e) => { return Err(e); },
    };
    if header.h_magic != EXT4_XATTR_MAGIC {
        return Err(Error::new(ErrorKind::InvalidInput, "invalid xattr block magic"));
    }
    if header.h_blocks != 1 {
        return Err(Error::new(ErrorKind::InvalidInput, "multi-block xattr not supported"));
    }
    let end = block_size;
    let mut min_offs = end;
    let mut entry_offset = HEADER_SIZE;
    let ghost target = spec_validate_walk(block_data@, end as int, HEADER_SIZE as int, end as int);
    loop
        invariant
            end <= block_data@.len(),
            block_data@.len() + 1024 <= usize::MAX,
            entry_offset <= end + 300,
            min_offs <= end,
            spec_validate_walk(block_data@, end as int, entry_offset as int, min_offs as int) == target,
            target == spec_validate_walk(block_data@, end as int, HEADER_SIZE as int, end as int),
            end == sb@.spec_block_size(),
        ensures
            target == Some((entry_offset as int, min_offs as int)),
        decreases end + 300 - entry_offset,
    {
        if entry_offset + 4 > end {
            break;
        }
        if read_u32_le(block_data, entry_offset) == 0 {
            break;
        }
        if entry_offset + 16 > end {
            return Err(Error::new(ErrorKind::InvalidInput, "entry out of bounds"));
        }
        let entry = ext4_xattr_entry::read_at(block_data, entry_offset);
        let value_size = entry.e_value_size;
        let value_offs = entry.e_value_offs as usize;
        if value_size == 0 && value_offs != 0 {
            return Err(Error::new(ErrorKind::InvalidInput, "invalid value offset"));
        }
        if value_size > 0 {
            if value_offs as u64 + value_size as u64 > end as u64 {
                return Err(Error::new(ErrorKind::InvalidInput, "value out of bounds"));
            }
            if value_offs < min_offs {
                min_offs = value_offs;
            }
        }
        let next_offset = next_entry_offset(entry_offset, entry.e_name_len as usize);
        if next_offset + 4 > end {
            return Err(Error::new(ErrorKind::InvalidInput, "next entry out of bounds"));
        }
        entry_offset = next_offset;
    }
    if entry_offset > min_offs {
        return Err(Error::new(ErrorKind::InvalidInput, "entry and value regions overlap"));
    }
    Ok(())
}

/// Initialises an empty attribute block: all zero, then the magic number,
/// a reference count of 1 and a block count of 1. `InvalidInput` when the
/// buffer is shorter than a header.
pub fn initialize_block(block_data: &mut [u8]) -> (r: Result<()>)
    ensures
        old(block_data)@.len() < HEADER_SIZE ==> (r matches Err(e) && e.spec_kind() == ErrorKind::InvalidInput
            && final(block_data)@ == old(block_data)@),
        old(block_data)@.len() >= HEADER_SIZE ==> r is Ok && final(block_data)@ == le32(EXT4_XATTR_MAGIC)
            + le32(1) + le32(1) + crate::bytes::zeros((old(block_data)@.len() - 12) as nat),
{
    if block_data.len() < HEADER_SIZE {
        return Err(Error::new(ErrorKind::InvalidInput, "block too small"));
    }
    let n = block_data.len();
    let mut i: usize = 0;
    while i < n
        invariant
            n == block_data@.len(),
            i <= n,
            forall|k: int| 0 <= k < i ==> block_data@[k] == 0,
        decreases n - i,
    {
        block_data[i] = 0;
        i = i + 1;
    }
    let ghost zeroed = block_data@;
    write_u32_le(block_data, 0, EXT4_XATTR_MAGIC);
    write_u32_le(block_data, 4, 1);
    write_u32_le(block_data, 8, 1);
    assert(block_data@ =~= le32(EXT4_XATTR_MAGIC) + le32(1) + le32(1) + crate::bytes::zeros((n - 12) as nat));
    Ok(())
}

/// Validates the block, then looks up the entry with namespace
/// `name_index` and name `name` among the entries after the header.
pub fn find_block_entry(sb: &Superblock, block_data: &[u8], name_index: u8, name: &[u8]) -> (r: Result<Option<(usize, usize, u32)>>)
    requires
        sb@.log_block_size < 32,
        block_data@.len() + 1024 <= usize::MAX,
    ensures
        r is Ok <==> spec_block_valid(sb@, block_data@),
        r matches Err(e) ==> e.spec_kind() == ErrorKind::InvalidInput,
        r matches Ok(found) ==> match spec_find(block_data@, block_data@.len() as int, HEADER_SIZE as int, name_index, name@) {
            None => found is None,
            Some(off) => {
                let e = ext4_xattr_entry::spec_at(block_data@, off);
                found == Some((
                    off as usize,
                    (if e.e_value_size > 0 { e.e_value_offs as usize } else { 0usize }),
                    e.e_value_size,
                ))
            },
        },
{
    match validate_block(sb, block_data) {
        Ok(()) => {},
        Err(e) => { return Err(e); },
    }
    let mut search = XattrSearch::new(block_data, HEADER_SIZE);
    Ok(search.find_entry(name_index, name))
}

/// The reference count in the header.
pub fn get_refcount(block_data: &[u8]) -> (r: Result<u32>)
    ensures
        block_data@.len() < HEADER_SIZE ==> (r matches Err(e) && e.spec_kind() == ErrorKind::InvalidInput),
        block_data@.len() >= HEADER_SIZE ==> r == Ok::<u32, Error>(u32_at(block_data@, 4)),
{
    let header = match get_block_header(block_data) {
        Ok(h) => h,
        Err(e) => { return Err(e); },
    };
    Ok(header.h_refcount)
}

/// Stores a reference count; `InvalidInput` when the buffer is shorter
/// than 8 bytes.
pub fn set_refcount(block_data: &mut [u8], refcount: u32) -> (r: Result<()>)
    ensures
        old(block_data)@.len() < 8 ==> (r matches Err(e) && e.spec_kind() == ErrorKind::InvalidInput
            && final(block_data)@ == old(block_data)@),
        old(block_data)@.len() >= 8 ==> r is Ok && final(block_data)@ == old(block_data)@.take(4) + le32(refcount)
            + old(block_data)@.skip(8),
{
    if block_data.len() < 8 {
        return Err(Error::new(ErrorKind::InvalidInput, "block too small"));
    }
    write_u32_le(block_data, 4, refcount);
    Ok(())
}

/// Adds one reference; `InvalidInput` at the maximum count or for a
/// buffer shorter than a header. Returns the new count.
pub fn inc_refcount(block_data: &mut [u8]) -> (r: Result<u32>)
    ensures
        (old(block_data)@.len() < HEADER_SIZE || u32_at(old(block_data)@, 4) >= EXT4_XATTR_REFCOUNT_MAX)
            ==> (r matches Err(e) && e.spec_kind() == ErrorKind::InvalidInput && final(block_data)@ == old(block_data)@),
        (old(block_data)@.len() >= HEADER_SIZE && u32_at(old(block_data)@, 4) < EXT4_XATTR_REFCOUNT_MAX) ==> ({
            let n = (u32_at(old(block_data)@, 4) + 1) as u32;
            r == Ok::<u32, Error>(n) && final(block_data)@ == old(block_data)@.take(4) + le32(n) + old(block_data)@.skip(8)
        }),
{
    let current = match get_refcount(block_data) {
        Ok(c) => c,
        Err(e) => { return Err(e); },
    };
    if current >= EXT4_XATTR_REFCOUNT_MAX {
        return Err(Error::new(ErrorKind::InvalidInput, "refcount overflow"));
    }
    let new_refcount = current + 1;
    match set_refcount(block_data, new_refcount) {
        Ok(()) => {},
        Err(e) => { return Err(e); },
    }
    Ok(new_refcount)
}

/// Drops one reference; `InvalidInput` at zero or for a buffer shorter
/// than a header. Returns the new count.
pub fn dec_refcount(block_data: &mut [u8]) -> (r: Result<u32>)
    ensures
        (old(block_data)@.len() < HEADER_SIZE || u32_at(old(block_data)@, 4) == 0)
            ==> (r matches Err(e) && e.spec_kind() == ErrorKind::InvalidInput && final(block_data)@ == old(block_data)@),
        (old(block_data)@.len() >= HEADER_SIZE && u32_at(old(block_data)@, 4) > 0) ==> ({
            let n = (u32_at(old(block_data)@, 4) - 1) as u32;
            r == Ok::<u32, Error>(n) && final(block_data)@ == old(block_data)@.take(4) + le32(n) + old(block_data)@.skip(8)
        }),
{
    let current = match get_refcount(block_data) {
        Ok(c) => c,
        Err(e) => { return Err(e); },
    };
    if current == 0 {
        return Err(Error::new(ErrorKind::InvalidInput, "refcount underflow"));
    }
    let new_refcount = current - 1;
    match set_refcount(block_data, new_refcount) {
        Ok(()) => {},
        Err(e) => { return Err(e); },
    }
    Ok(new_refcount)
}

/// Reading the count back after storing it gives the stored count.
pub proof fn lemma_refcount_roundtrip(data: Seq<u8>, refcount: u32)
    requires
        data.len() >= 8,
    ensures
        u32_at(data.take(4) + le32(refcount) + data.skip(8), 4) == refcount,
{
    let s = data.take(4) + le32(refcount) + data.skip(8);
    crate::bytes::lemma_u32_roundtrip(refcount);
    assert(s.subrange(4, 8) =~= le32(refcount));
    assert(u32_at(s, 4) == u32_at(le32(refcount), 0));
}

} // verus!
