//! Reading an attribute by its full name: first among the attributes in
//! the inode record, then in the inode's attribute block.
//!
//! The caller hands over the raw inode record and, when the inode has an
//! attribute block, that block's bytes.

use vstd::prelude::*;
use vstd::string::StringSliceAdditionalSpecFns;
use crate::error::{Error, ErrorKind, Result};
use crate::fs::inode_ref::{spec_xattr_block, InodeRef};
use crate::xattr::block::HEADER_SIZE;
use crate::xattr::block::{dec_refcount, initialize_block, set_refcount};
use crate::xattr::ibody::{
    find_ibody_entry, ibody_edit_allowed, initialize_ibody_xattr, validate_ibody_xattr, set_ibody_entry, spec_ibody_header_offset, spec_ibody_initialized,
    spec_ibody_set_ok, spec_ibody_set_outcome, spec_ibody_valid, IBODY_HEADER_SIZE,
};
use crate::xattr::prefix::{extract_xattr_name, spec_split_name};
use crate::xattr::search::{spec_find, XattrSearch};
use crate::xattr::write::{
    edit_allowed, lemma_find_bounds, lemma_insert_bytes, lemma_remove_keeps_others, lemma_remove_keeps_prefix,
    lemma_replace_keeps_others, lemma_replace_keeps_prefix, lemma_set_keeps_others,
    lemma_walk_ends_after, set_entry_in_memory, spec_dropped_size, spec_lookup_value, spec_edit_target, spec_found_triple, spec_free,
    spec_layout, spec_required, spec_set_entry, spec_set_in_bounds, spec_set_writes, spec_splice, spec_walk_to,
};
use crate::types::ext4_xattr_entry;
use crate::bytes::{le32, read_u32_le, u32_at, zeros};
use crate::consts::EXT4_XATTR_MAGIC;

verus! {

/// The value of `size` bytes at `off` in `src`, for a buffer of
/// `buffer_len` bytes: `InvalidInput` when it does not fit in the buffer,
/// `Io` when it runs past `src`.
pub open spec fn spec_read_value(src: Seq<u8>, off: int, size: int, buffer_len: int) -> core::result::Result<Seq<u8>, ErrorKind> {
    if buffer_len < size {
        Err(ErrorKind::InvalidInput)
    } else if off + size > src.len() {
        Err(ErrorKind::Io)
    } else {
        Ok(src.subrange(off, off + size))
    }
}

/// The in-inode lookup: nothing without extra fields or without a valid
/// in-inode attribute header (an inode that never held attributes there),
/// else the entry found after the header.
pub open spec fn spec_ibody_lookup(inode_ref: InodeRef, inode_data: Seq<u8>, idx: u8, name: Seq<u8>) -> Option<(usize, usize, u32)> {
    match spec_ibody_header_offset(inode_ref.inode.extra_isize) {
        None => None,
        Some(h) => if spec_ibody_valid(inode_data, h, inode_ref.sb@.spec_inode_size() as int) {
            spec_found_triple(inode_data, spec_find(inode_data, inode_data.len() as int, h + IBODY_HEADER_SIZE, idx, name))
        } else {
            None
        },
    }
}

/// The value of the attribute named `name` (prefix included): from the
/// inode record when it holds the attribute, else from the attribute
/// block `block`. `InvalidInput` for a name that does not parse or a
/// value longer than the buffer, `NotFound` when neither holds it.
pub open spec fn spec_get(inode_ref: InodeRef, inode_data: Seq<u8>, block: Option<Seq<u8>>, name: Seq<u8>, buffer_len: int) -> core::result::Result<Seq<u8>, ErrorKind> {
    match spec_split_name(name) {
        None => Err(ErrorKind::InvalidInput),
        Some((idx, nm)) => match spec_ibody_lookup(inode_ref, inode_data, idx, nm) {
            Some((_eo, vo, vs)) => spec_read_value(inode_data, vo as int, vs as int, buffer_len),
            None => match block {
                None => Err(ErrorKind::NotFound),
                Some(b) => match spec_found_triple(b, spec_find(b, b.len() as int, HEADER_SIZE as int, idx, nm)) {
                    None => Err(ErrorKind::NotFound),
                    Some((_eo, vo, vs)) => spec_read_value(b, vo as int, vs as int, buffer_len),
                },
            },
        },
    }
}

/// Copies the value of `size` bytes at `off` in `src` to the front of
/// `buffer`.
fn copy_value(src: &[u8], off: usize, size: u32, buffer: &mut [u8]) -> (r: Result<usize>)
    requires
        src@.len() + 1024 <= usize::MAX,
    ensures
        match spec_read_value(src@, off as int, size as int, old(buffer)@.len() as int) {
            Ok(v) => r == Ok::<usize, Error>(v.len() as usize) && final(buffer)@ == spec_splice(old(buffer)@, 0, v),
            Err(k) => (r matches Err(e) && e.spec_kind() == k) && final(buffer)@ == old(buffer)@,
        },
{
    let value_len = size as usize;
    if buffer.len() < value_len {
        return Err(Error::new(ErrorKind::InvalidInput, "buffer too small"));
    }
    if off > src.len() || src.len() - off < value_len {
        return Err(Error::new(ErrorKind::Io, "value out of bounds"));
    }
    let ghost b0 = buffer@;
    let blen = buffer.len();
    let mut i: usize = 0;
    while i < value_len
        invariant
            i <= value_len,
            value_len <= blen,
            blen == b0.len(),
            off + value_len <= src@.len(),
            src@.len() + 1024 <= usize::MAX,
            buffer@ == spec_splice(b0, 0, src@.subrange(off as int, off + i)),
        decreases value_len - i,
    {
        buffer[i] = src[off + i];
        i = i + 1;
        assert(buffer@ =~= spec_splice(b0, 0, src@.subrange(off as int, off + i)));
    }
    Ok(value_len)
}

/// Reads the attribute named `name` (prefix included) into `buffer` and
/// returns the value's length. `inode_data` is the raw inode record;
/// `block_data` the inode's attribute block, present exactly when the
/// inode has one.
pub fn get(inode_ref: &InodeRef, inode_data: &[u8], block_data: Option<&[u8]>, name: &str, buffer: &mut [u8]) -> (r: Result<usize>)
    requires
        inode_ref.sb@.spec_inode_size() <= inode_data@.len(),
        inode_data@.len() + 1024 <= usize::MAX,
        block_data matches Some(b) ==> b@.len() + 1024 <= usize::MAX,
        (block_data is Some) == (spec_xattr_block(inode_ref.sb@, inode_ref.inode) != 0),
    ensures
        match spec_get(*inode_ref, inode_data@, match block_data { Some(b) => Some(b@), None => None }, name.spec_bytes(), old(buffer)@.len() as int) {
            Ok(v) => r == Ok::<usize, Error>(v.len() as usize) && final(buffer)@ == spec_splice(old(buffer)@, 0, v),
            Err(k) => (r matches Err(e) && e.spec_kind() == k) && final(buffer)@ == old(buffer)@,
        },
{
    let (name_index, name_str, _name_len) = match extract_xattr_name(name) {
        Some(parts) => parts,
        None => { return Err(Error::new(ErrorKind::InvalidInput, "invalid xattr name")); },
    };
    let name_bytes = name_str.as_bytes();
    match find_ibody_entry(inode_ref, inode_data, name_index, name_bytes) {
        // no valid in-inode header: no attribute is stored in the inode
        Err(_) => {},
        Ok(Some((_entry_offset, value_offset, value_size))) => {
            return copy_value(inode_data, value_offset, value_size, buffer);
        },
        Ok(None) => {},
    }
    let xattr_block_addr = match inode_ref.get_xattr_block_addr() {
        Ok(a) => a,
        Err(e) => { return Err(e); },
    };
    if xattr_block_addr == 0 {
        return Err(Error::new(ErrorKind::NotFound, "xattr not found"));
    }
    let block = match block_data {
        Some(b) => b,
        None => { return Err(Error::new(ErrorKind::NotFound, "xattr not found")); },
    };
    let mut search = XattrSearch::new(block, HEADER_SIZE);
    match search.find_entry(name_index, name_bytes) {
        Some((_entry_offset, value_offset, value_size)) => copy_value(block, value_offset, value_size, buffer),
        None => Err(Error::new(ErrorKind::NotFound, "xattr not found")),
    }
}

/// The inode record made ready to hold in-inode attributes: unchanged
/// without extra fields or when its in-inode header is valid (the
/// attributes already there stay), else with the in-inode area prepared by
/// `initialize_ibody_xattr`.
pub open spec fn spec_ibody_prepared(inode_ref: InodeRef, data: Seq<u8>) -> Seq<u8> {
    match spec_ibody_header_offset(inode_ref.inode.extra_isize) {
        None => data,
        Some(h) => if spec_ibody_valid(data, h, inode_ref.sb@.spec_inode_size() as int) {
            data
        } else {
            spec_ibody_initialized(inode_ref, data)
        },
    }
}

/// Whether `set` may be called to store attribute `name` with `value` in
/// the inode record `inode_data`: the in-inode edit, made on the record
/// once prepared, stays inside the record.
pub fn set_allowed(inode_ref: &InodeRef, inode_data: &[u8], name: &str, value: &[u8]) -> (r: bool)
    requires
        inode_ref.sb@.spec_inode_size() <= inode_data@.len(),
        inode_data@.len() + 0x10000 <= usize::MAX,
        name.spec_bytes().len() + value@.len() + 1024 <= usize::MAX,
        spec_ibody_header_offset(inode_ref.inode.extra_isize) matches Some(h)
            ==> (h < inode_ref.sb@.spec_inode_size() ==> h + IBODY_HEADER_SIZE <= inode_data@.len()),
    ensures
        r == (spec_split_name(name.spec_bytes()) matches Some((idx, nm)) ==> spec_ibody_set_ok(
            *inode_ref,
            spec_ibody_prepared(*inode_ref, inode_data@),
            idx,
            nm,
            Some(value@),
        )),
{
    let (name_index, name_str, _name_len) = match extract_xattr_name(name) {
        Some(parts) => parts,
        None => { return true; },
    };
    let mut record = vstd::slice::slice_to_vec(inode_data);
    if validate_ibody_xattr(inode_ref, record.as_slice()).is_err() {
        let _ = initialize_ibody_xattr(inode_ref, record.as_mut_slice());
    }
    ibody_edit_allowed(inode_ref, record.as_slice(), name_index, name_str.as_bytes(), Some(value))
}

/// Whether `remove` may be called to remove attribute `name` from the
/// inode record `inode_data`: the in-inode edit stays inside the record.
pub fn remove_allowed(inode_ref: &InodeRef, inode_data: &[u8], name: &str) -> (r: bool)
    requires
        inode_ref.sb@.spec_inode_size() <= inode_data@.len(),
        inode_data@.len() + 0x10000 <= usize::MAX,
        name.spec_bytes().len() + 1024 <= usize::MAX,
    ensures
        r == (spec_split_name(name.spec_bytes()) matches Some((idx, nm)) ==> spec_ibody_set_ok(
            *inode_ref,
            inode_data@,
            idx,
            nm,
            None,
        )),
{
    let (name_index, name_str, _name_len) = match extract_xattr_name(name) {
        Some(parts) => parts,
        None => { return true; },
    };
    ibody_edit_allowed(inode_ref, inode_data, name_index, name_str.as_bytes(), None)
}

/// Whether `set_block_entry` may be called to store attribute `name` of
/// namespace `name_index` with `value` in the attribute block `block`
/// (initialised first when `fresh`).
pub fn set_block_entry_allowed(block: &[u8], block_size: usize, fresh: bool, name_index: u8, name: &[u8], value: &[u8]) -> (r: bool)
    requires
        block_size <= block@.len(),
        block@.len() + 0x10000 <= usize::MAX,
        name@.len() + value@.len() + 1024 <= usize::MAX,
        fresh ==> block@.len() >= HEADER_SIZE,
    ensures
        r == ({
            let d = spec_block_prepared(block@, fresh);
            spec_set_writes(d, HEADER_SIZE as int, block_size as int, name_index, name@, Some(value@), false)
                ==> spec_set_in_bounds(d, HEADER_SIZE as int, block_size as int, name_index, name@, Some(value@))
        }),
{
    let mut copy = vstd::slice::slice_to_vec(block);
    if fresh {
        let _ = initialize_block(copy.as_mut_slice());
    }
    edit_allowed(copy.as_slice(), HEADER_SIZE, block_size, name_index, name, Some(value))
}

/// Whether `remove_block_entry` may be called to remove attribute `name`
/// of namespace `name_index` from the attribute block `block`.
pub fn remove_block_entry_allowed(block: &[u8], block_size: usize, name_index: u8, name: &[u8]) -> (r: bool)
    requires
        block_size <= block@.len(),
        block@.len() + 0x10000 <= usize::MAX,
        name@.len() + 1024 <= usize::MAX,
    ensures
        r == (spec_set_writes(block@, HEADER_SIZE as int, block_size as int, name_index, name@, None, false)
            ==> spec_set_in_bounds(block@, HEADER_SIZE as int, block_size as int, name_index, name@, None)),
{
    edit_allowed(block, HEADER_SIZE, block_size, name_index, name, None)
}

/// Stores the attribute named `name` (prefix included) with `value` in the
/// inode record: an in-inode area without a valid header is first prepared
/// (cleared, with its magic number); one with a valid header keeps its
/// attributes. Then the attribute is stored there. `true` when it is;
/// `false` when the inode has no extra fields or no room, and the caller
/// stores it in the attribute block (`set_block_entry`) and then removes
/// it from the record. `InvalidInput`, with nothing changed, for a name
/// that does not parse.
pub fn set(inode_ref: &InodeRef, inode_data: &mut [u8], name: &str, value: &[u8]) -> (r: Result<bool>)
    requires
        inode_ref.sb@.spec_inode_size() <= old(inode_data)@.len(),
        old(inode_data)@.len() + 0x10000 <= usize::MAX,
        name.spec_bytes().len() + value@.len() + 1024 <= usize::MAX,
        spec_ibody_header_offset(inode_ref.inode.extra_isize) matches Some(h)
            ==> (h < inode_ref.sb@.spec_inode_size() ==> h + IBODY_HEADER_SIZE <= old(inode_data)@.len()),
        spec_split_name(name.spec_bytes()) matches Some((idx, nm)) ==> spec_ibody_set_ok(
            *inode_ref,
            spec_ibody_prepared(*inode_ref, old(inode_data)@),
            idx,
            nm,
            Some(value@),
        ),
    ensures
        match spec_split_name(name.spec_bytes()) {
            None => (r matches Err(e) && e.spec_kind() == ErrorKind::InvalidInput) && final(inode_data)@ == old(inode_data)@,
            Some((idx, nm)) => {
                let (stored, d) = spec_ibody_set_outcome(
                    *inode_ref,
                    spec_ibody_prepared(*inode_ref, old(inode_data)@),
                    idx,
                    nm,
                    Some(value@),
                );
                r == Ok::<bool, Error>(stored) && final(inode_data)@ == d
            },
        },
{
    let (name_index, name_str, _name_len) = match extract_xattr_name(name) {
        Some(parts) => parts,
        None => { return Err(Error::new(ErrorKind::InvalidInput, "invalid xattr name")); },
    };
    let name_bytes = name_str.as_bytes();
    if validate_ibody_xattr(inode_ref, inode_data).is_err() {
        match initialize_ibody_xattr(inode_ref, inode_data) {
            Ok(()) => {},
            Err(e) => { return Err(e); },
        }
    }
    set_ibody_entry(inode_ref, inode_data, name_index, name_bytes, Some(value))
}

/// Removes the attribute named `name` (prefix included) from the inode
/// record: `true` when that was done (removing an absent attribute counts
/// as done); `false` when the inode has no extra fields and has an
/// attribute block, from which the caller removes it
/// (`remove_block_entry`). `NotFound` when it has neither;
/// `InvalidInput` for a name that does not parse.
pub fn remove(inode_ref: &InodeRef, inode_data: &mut [u8], name: &str) -> (r: Result<bool>)
    requires
        inode_ref.sb@.spec_inode_size() <= old(inode_data)@.len(),
        old(inode_data)@.len() + 0x10000 <= usize::MAX,
        name.spec_bytes().len() + 1024 <= usize::MAX,
        spec_split_name(name.spec_bytes()) matches Some((idx, nm)) ==> spec_ibody_set_ok(
            *inode_ref,
            old(inode_data)@,
            idx,
            nm,
            None,
        ),
    ensures
        match spec_split_name(name.spec_bytes()) {
            None => (r matches Err(e) && e.spec_kind() == ErrorKind::InvalidInput) && final(inode_data)@ == old(inode_data)@,
            Some((idx, nm)) => {
                let (done, d) = spec_ibody_set_outcome(*inode_ref, old(inode_data)@, idx, nm, None);
                &&& final(inode_data)@ == d
                &&& if done {
                    r == Ok::<bool, Error>(true)
                } else if spec_xattr_block(inode_ref.sb@, inode_ref.inode) == 0 {
                    r matches Err(e) && e.spec_kind() == ErrorKind::NotFound
                } else {
                    r == Ok::<bool, Error>(false)
                }
            },
        },
{
    let (name_index, name_str, _name_len) = match extract_xattr_name(name) {
        Some(parts) => parts,
        None => { return Err(Error::new(ErrorKind::InvalidInput, "invalid xattr name")); },
    };
    let name_bytes = name_str.as_bytes();
    let removed = match set_ibody_entry(inode_ref, inode_data, name_index, name_bytes, None) {
        Ok(b) => b,
        Err(e) => { return Err(e); },
    };
    if removed {
        return Ok(true);
    }
    let xattr_block_addr = match inode_ref.get_xattr_block_addr() {
        Ok(a) => a,
        Err(e) => { return Err(e); },
    };
    if xattr_block_addr == 0 {
        return Err(Error::new(ErrorKind::NotFound, "xattr not found"));
    }
    Ok(false)
}

/// An attribute block buffer once prepared: a fresh block is initialised
/// (as `initialize_block` does), an existing one kept.
pub open spec fn spec_block_prepared(block: Seq<u8>, fresh: bool) -> Seq<u8> {
    if fresh {
        le32(EXT4_XATTR_MAGIC) + le32(1) + le32(1) + zeros((block.len() - 12) as nat)
    } else {
        block
    }
}

/// Stores attribute `name` of namespace `name_index` with `value` in an
/// attribute block of `block_size` bytes, initialising it first when
/// `fresh`. `InvalidInput` for a fresh buffer shorter than a block
/// header, `NoSpace` when the value does not fit.
pub fn set_block_entry(block: &mut [u8], block_size: usize, fresh: bool, name_index: u8, name: &[u8], value: &[u8]) -> (r: Result<()>)
    requires
        block_size <= old(block)@.len(),
        old(block)@.len() + 0x10000 <= usize::MAX,
        name@.len() + value@.len() + 1024 <= usize::MAX,
        fresh ==> old(block)@.len() >= HEADER_SIZE,
        ({
            let d = spec_block_prepared(old(block)@, fresh);
            spec_set_writes(d, HEADER_SIZE as int, block_size as int, name_index, name@, Some(value@), false)
                ==> spec_set_in_bounds(d, HEADER_SIZE as int, block_size as int, name_index, name@, Some(value@))
        }),
    ensures
        ({
            let d = spec_block_prepared(old(block)@, fresh);
            let found = spec_edit_target(d, HEADER_SIZE as int, block_size as int, name_index, name@);
            if spec_free(d, HEADER_SIZE as int, block_size as int, found) < spec_required(name@.len() as int, value@.len() as int) {
                (r matches Err(e) && e.spec_kind() == ErrorKind::NoSpace) && final(block)@ == d
            } else {
                r is Ok && final(block)@ == spec_set_entry(d, HEADER_SIZE as int, block_size as int, name_index, name@, Some(value@))
            }
        }),
{
    if fresh {
        match initialize_block(block) {
            Ok(()) => {},
            Err(e) => { return Err(e); },
        }
    }
    set_entry_in_memory(block, HEADER_SIZE, block_size, name_index, name, Some(value), false)
}

/// Removes attribute `name` of namespace `name_index` from an attribute
/// block of `block_size` bytes; returns whether the block then holds no
/// entry, so that the caller can free it.
pub fn remove_block_entry(block: &mut [u8], block_size: usize, name_index: u8, name: &[u8]) -> (r: Result<bool>)
    requires
        block_size <= old(block)@.len(),
        old(block)@.len() + 0x10000 <= usize::MAX,
        name@.len() + 1024 <= usize::MAX,
        spec_set_writes(old(block)@, HEADER_SIZE as int, block_size as int, name_index, name@, None, false)
            ==> spec_set_in_bounds(old(block)@, HEADER_SIZE as int, block_size as int, name_index, name@, None),
    ensures
        ({
            let d = spec_set_entry(old(block)@, HEADER_SIZE as int, block_size as int, name_index, name@, None);
            let found = spec_edit_target(old(block)@, HEADER_SIZE as int, block_size as int, name_index, name@);
            let after = if found is None { old(block)@ } else { d };
            &&& final(block)@ == after
            &&& r == Ok::<bool, Error>(HEADER_SIZE + 4 > after.len() || u32_at(after, HEADER_SIZE as int) == 0)
        }),
{
    match set_entry_in_memory(block, HEADER_SIZE, block_size, name_index, name, None, false) {
        Ok(()) => {},
        Err(e) => { return Err(e); },
    }
    if HEADER_SIZE + 4 > block.len() {
        return Ok(true);
    }
    Ok(read_u32_le(block, HEADER_SIZE) == 0)
}

/// Separates a shared attribute block: the first `block_size` bytes of
/// `old_block` go to `new_block`, which takes a reference count of 1,
/// and `old_block` loses one reference. The errors of `dec_refcount`.
pub fn cow_block(old_block: &mut [u8], new_block: &mut [u8], block_size: usize) -> (r: Result<()>)
    requires
        block_size <= old(old_block)@.len(),
        block_size <= old(new_block)@.len(),
        block_size >= HEADER_SIZE,
    ensures
        ({
            let copied = spec_splice(old(new_block)@, 0, old(old_block)@.take(block_size as int));
            final(new_block)@ == copied.take(4) + le32(1) + copied.skip(8)
        }),
        u32_at(old(old_block)@, 4) > 0 ==> r is Ok && final(old_block)@ == old(old_block)@.take(4)
            + le32((u32_at(old(old_block)@, 4) - 1) as u32) + old(old_block)@.skip(8),
        u32_at(old(old_block)@, 4) == 0 ==> (r matches Err(e) && e.spec_kind() == ErrorKind::InvalidInput)
            && final(old_block)@ == old(old_block)@,
{
    let ghost n0 = new_block@;
    let mut i: usize = 0;
    while i < block_size
        invariant
            i <= block_size,
            block_size <= old_block@.len(),
            block_size <= new_block@.len(),
            new_block@ == spec_splice(n0, 0, old_block@.take(i as int)),
            new_block@.len() == n0.len(),
            n0 == old(new_block)@,
            old_block@ == old(old_block)@,
        decreases block_size - i,
    {
        new_block[i] = old_block[i];
        i = i + 1;
        assert(new_block@ =~= spec_splice(n0, 0, old_block@.take(i as int)));
    }
    match set_refcount(new_block, 1) {
        Ok(()) => {},
        Err(e) => { return Err(e); },
    }
    match dec_refcount(old_block) {
        Ok(_) => Ok(()),
        Err(e) => Err(e),
    }
}


/// Where an attribute that does not fit in the inode record is stored.
#[derive(Debug, Clone, Copy, PartialEq, Eq, Structural)]
pub enum BlockTarget {
    /// The inode has no attribute block: a new one is allocated and
    /// initialised.
    Allocate,
    /// The attribute block is shared with other inodes: it is copied to a
    /// newly allocated block (`cow_block`) and the copy is changed.
    CopyShared,
    /// The attribute block is the inode's own and is changed in place.
    InPlace,
}

/// Where a change to the attribute block goes, for an inode whose block is
/// at `block_addr` (0 for none) with reference count `refcount`.
pub fn block_target(block_addr: u64, refcount: u32) -> (r: BlockTarget)
    ensures
        block_addr == 0 ==> r == BlockTarget::Allocate,
        block_addr != 0 && refcount > 1 ==> r == BlockTarget::CopyShared,
        block_addr != 0 && refcount <= 1 ==> r == BlockTarget::InPlace,
{
    if block_addr == 0 {
        BlockTarget::Allocate
    } else if refcount > 1 {
        BlockTarget::CopyShared
    } else {
        BlockTarget::InPlace
    }
}


/// Storing an attribute in the inode record keeps every other attribute
/// held there: reading another attribute afterwards gives what it gave
/// before. For an inode record of the inode's size with a valid in-inode
/// header, whose entry list runs intact to its terminator below the
/// values, when the new value fits in the record and the other
/// attribute's value lies inside the record, apart from a value that is
/// replaced.
#[verifier::spinoff_prover]
#[verifier::rlimit(100)]
pub proof fn lemma_set_keeps_other_attributes(
    inode_ref: InodeRef,
    data: Seq<u8>,
    block: Option<Seq<u8>>,
    name: Seq<u8>,
    value: Seq<u8>,
    name2: Seq<u8>,
    buffer_len: int,
)
    requires
        spec_ibody_header_offset(inode_ref.inode.extra_isize) is Some,
        spec_ibody_valid(data, spec_ibody_header_offset(inode_ref.inode.extra_isize)->0, inode_ref.sb@.spec_inode_size() as int),
        data.len() == inode_ref.sb@.spec_inode_size(),
        data.len() <= 0x10000,
        value.len() <= 0xffff_ffff,
        spec_split_name(name) is Some,
        ({
            let (_idx, nm) = spec_split_name(name)->0;
            0 < nm.len() < 256
        }),
        spec_split_name(name2) is Some,
        spec_split_name(name2) != spec_split_name(name),
        ({
            let first = spec_ibody_header_offset(inode_ref.inode.extra_isize)->0 + IBODY_HEADER_SIZE;
            let end = data.len() as int;
            let (idx, nm) = spec_split_name(name)->0;
            let (idx2, nm2) = spec_split_name(name2)->0;
            let found = spec_edit_target(data, first, end, idx, nm);
            let (m, last) = spec_layout(data, end, first, end, first);
            &&& spec_walk_to(data, end, first, last)
            &&& u32_at(data, last) == 0
            &&& last + 4 <= m
            &&& (found matches Some(eo) ==> (ext4_xattr_entry::spec_at(data, eo).e_value_size > 0
                ==> ext4_xattr_entry::spec_at(data, eo).e_value_offs > 0))
            &&& spec_free(data, first, end, found) >= spec_required(nm.len() as int, value.len() as int)
            &&& spec_set_in_bounds(data, first, end, idx, nm, Some(value))
            &&& spec_edit_target(data, first, end, idx2, nm2) is Some
            &&& ({
                let e2 = ext4_xattr_entry::spec_at(data, spec_edit_target(data, first, end, idx2, nm2)->0);
                e2.e_value_size > 0 ==> {
                    &&& e2.e_value_offs + e2.e_value_size <= data.len()
                    &&& (found matches Some(eo) ==> {
                        let o = ext4_xattr_entry::spec_at(data, eo).e_value_offs as int;
                        e2.e_value_offs + e2.e_value_size <= o || e2.e_value_offs >= o + spec_dropped_size(data, found)
                    })
                }
            })
        }),
    ensures
        ({
            let (idx, nm) = spec_split_name(name)->0;
            let after = spec_ibody_set_outcome(inode_ref, spec_ibody_prepared(inode_ref, data), idx, nm, Some(value));
            &&& after.0
            &&& spec_get(inode_ref, after.1, block, name2, buffer_len) == spec_get(inode_ref, data, block, name2, buffer_len)
        }),
{
    let h = spec_ibody_header_offset(inode_ref.inode.extra_isize)->0;
    let first = h + IBODY_HEADER_SIZE;
    let end = data.len() as int;
    let (idx, nm) = spec_split_name(name)->0;
    let (idx2, nm2) = spec_split_name(name2)->0;
    assert(idx2 != idx || nm2 != nm);
    assert(spec_ibody_prepared(inode_ref, data) == data);
    let found = spec_edit_target(data, first, end, idx, nm);
    let stored = spec_set_entry(data, first, end, idx, nm, Some(value));
    assert(spec_ibody_set_outcome(inode_ref, data, idx, nm, Some(value)) == (true, stored));
    let (m, last) = spec_layout(data, end, first, end, first);
    lemma_walk_ends_after(data, end, first, last);
    let x = spec_edit_target(data, first, end, idx2, nm2)->0;
    let e2 = ext4_xattr_entry::spec_at(data, x);
    lemma_find_bounds(data.take(end), end, first, idx2, nm2);
    if found is None {
        lemma_set_keeps_others(data, first, end, idx, nm, value, idx2, nm2);
        lemma_insert_bytes(data, first, end, idx, nm, value);
        assert(stored.subrange(x, x + 16) == data.subrange(x, x + 16));
        assert(ext4_xattr_entry::spec_at(stored, x) == e2) by {
            assert forall|j: int| 0 <= j < 16 implies #[trigger] stored[x + j] == data[x + j] by {
                assert(stored.subrange(x, x + 16)[j] == data.subrange(x, x + 16)[j]);
            }
            assert(stored[x] == data[x] && stored[x + 1] == data[x + 1]);
            assert(stored[x + 2] == data[x + 2] && stored[x + 3] == data[x + 3]);
            assert(stored[x + 4] == data[x + 4] && stored[x + 5] == data[x + 5] && stored[x + 6] == data[x + 6] && stored[x + 7] == data[x + 7]);
            assert(stored[x + 8] == data[x + 8] && stored[x + 9] == data[x + 9] && stored[x + 10] == data[x + 10] && stored[x + 11] == data[x + 11]);
            assert(stored[x + 12] == data[x + 12] && stored[x + 13] == data[x + 13] && stored[x + 14] == data[x + 14] && stored[x + 15] == data[x + 15]);
        }
    } else {
        lemma_replace_keeps_others(data, first, end, idx, nm, value, idx2, nm2);
        lemma_replace_keeps_prefix(data, first, end, idx, nm, value);
    }
    let f = ext4_xattr_entry::spec_at(stored, x);
    assert(f.e_value_size == e2.e_value_size);
    assert(stored.len() == data.len());
    assert(u32_at(stored, h) == u32_at(data, h)) by {
        assert(stored[h] == data[h] && stored[h + 1] == data[h + 1] && stored[h + 2] == data[h + 2] && stored[h + 3] == data[h + 3]);
    }
    if e2.e_value_size > 0 {
        assert(stored.subrange(f.e_value_offs as int, f.e_value_offs + f.e_value_size)
            == data.subrange(e2.e_value_offs as int, e2.e_value_offs + e2.e_value_size));
    }
    lemma_get_same_entry(inode_ref, stored, data, block, name2, buffer_len, x, x);
}

/// Two inode records of the inode's size, both with a valid in-inode
/// header, in which the search for an attribute finds the same entry with
/// the same value size and value bytes, give the same read of it.
#[verifier::spinoff_prover]
#[verifier::rlimit(100)]
proof fn lemma_get_same_entry(inode_ref: InodeRef, d1: Seq<u8>, d2: Seq<u8>, block: Option<Seq<u8>>, name2: Seq<u8>, buffer_len: int, x1: int, x2: int)
    requires
        spec_ibody_header_offset(inode_ref.inode.extra_isize) is Some,
        spec_ibody_valid(d1, spec_ibody_header_offset(inode_ref.inode.extra_isize)->0, inode_ref.sb@.spec_inode_size() as int),
        spec_ibody_valid(d2, spec_ibody_header_offset(inode_ref.inode.extra_isize)->0, inode_ref.sb@.spec_inode_size() as int),
        d1.len() == inode_ref.sb@.spec_inode_size(),
        d2.len() == d1.len(),
        spec_split_name(name2) is Some,
        ({
            let first = spec_ibody_header_offset(inode_ref.inode.extra_isize)->0 + IBODY_HEADER_SIZE;
            let end = d1.len() as int;
            let (idx2, nm2) = spec_split_name(name2)->0;
            let f1 = ext4_xattr_entry::spec_at(d1, x1);
            let f2 = ext4_xattr_entry::spec_at(d2, x2);
            &&& spec_edit_target(d1, first, end, idx2, nm2) == Some(x1)
            &&& spec_edit_target(d2, first, end, idx2, nm2) == Some(x2)
            &&& f1.e_value_size == f2.e_value_size
            &&& (f1.e_value_size > 0 ==> {
                &&& f1.e_value_offs + f1.e_value_size <= d1.len()
                &&& f2.e_value_offs + f2.e_value_size <= d2.len()
                &&& d1.subrange(f1.e_value_offs as int, f1.e_value_offs + f1.e_value_size)
                    == d2.subrange(f2.e_value_offs as int, f2.e_value_offs + f2.e_value_size)
            })
        }),
    ensures
        spec_get(inode_ref, d1, block, name2, buffer_len) == spec_get(inode_ref, d2, block, name2, buffer_len),
{
    let end = d1.len() as int;
    assert(d1.take(end) =~= d1);
    assert(d2.take(end) =~= d2);
    let f1 = ext4_xattr_entry::spec_at(d1, x1);
    if f1.e_value_size == 0 {
        assert(d1.subrange(0, 0) =~= d2.subrange(0, 0));
    }
}

/// Removing an attribute from the inode record keeps every other
/// attribute held there: reading another attribute afterwards gives what
/// it gave before. For an inode record of the inode's size with a valid
/// in-inode header, whose entry list runs intact to its terminator below
/// the values, when the removal stays inside the record and the other
/// attribute's value lies inside the record, apart from the removed value.
#[verifier::spinoff_prover]
#[verifier::rlimit(100)]
pub proof fn lemma_remove_keeps_other_attributes(
    inode_ref: InodeRef,
    data: Seq<u8>,
    block: Option<Seq<u8>>,
    name: Seq<u8>,
    name2: Seq<u8>,
    buffer_len: int,
)
    requires
        spec_ibody_header_offset(inode_ref.inode.extra_isize) is Some,
        spec_ibody_valid(data, spec_ibody_header_offset(inode_ref.inode.extra_isize)->0, inode_ref.sb@.spec_inode_size() as int),
        data.len() == inode_ref.sb@.spec_inode_size(),
        data.len() <= 0x10000,
        spec_split_name(name) is Some,
        spec_split_name(name2) is Some,
        spec_split_name(name2) != spec_split_name(name),
        ({
            let first = spec_ibody_header_offset(inode_ref.inode.extra_isize)->0 + IBODY_HEADER_SIZE;
            let end = data.len() as int;
            let (idx, nm) = spec_split_name(name)->0;
            let (idx2, nm2) = spec_split_name(name2)->0;
            let found = spec_edit_target(data, first, end, idx, nm);
            let (m, last) = spec_layout(data, end, first, end, first);
            &&& spec_walk_to(data, end, first, last)
            &&& u32_at(data, last) == 0
            &&& last + 4 <= m
            &&& spec_edit_target(data, first, end, idx2, nm2) is Some
            &&& (found matches Some(eo) ==> {
                let e = ext4_xattr_entry::spec_at(data, eo);
                let e2 = ext4_xattr_entry::spec_at(data, spec_edit_target(data, first, end, idx2, nm2)->0);
                let o = e.e_value_offs as int;
                &&& (e.e_value_size > 0 ==> e.e_value_offs > 0)
                &&& spec_set_in_bounds(data, first, end, idx, nm, None)
                &&& (e2.e_value_size > 0 ==> {
                    &&& e2.e_value_offs + e2.e_value_size <= data.len()
                    &&& (e2.e_value_offs + e2.e_value_size <= o || e2.e_value_offs >= o + spec_dropped_size(data, found))
                })
            })
        }),
    ensures
        ({
            let (idx, nm) = spec_split_name(name)->0;
            let after = spec_ibody_set_outcome(inode_ref, data, idx, nm, None);
            &&& after.0
            &&& spec_get(inode_ref, after.1, block, name2, buffer_len) == spec_get(inode_ref, data, block, name2, buffer_len)
        }),
{
    let h = spec_ibody_header_offset(inode_ref.inode.extra_isize)->0;
    let first = h + IBODY_HEADER_SIZE;
    let end = data.len() as int;
    let (idx, nm) = spec_split_name(name)->0;
    let (idx2, nm2) = spec_split_name(name2)->0;
    assert(idx2 != idx || nm2 != nm);
    let found = spec_edit_target(data, first, end, idx, nm);
    if found is Some {
        let stored = spec_set_entry(data, first, end, idx, nm, None);
        assert(spec_ibody_set_outcome(inode_ref, data, idx, nm, None) == (true, stored));
        lemma_remove_keeps_others(data, first, end, idx, nm, idx2, nm2);
        lemma_remove_keeps_prefix(data, first, end, idx, nm);
        let x = spec_edit_target(data, first, end, idx2, nm2)->0;
        let y = spec_edit_target(stored, first, end, idx2, nm2)->0;
        assert(spec_lookup_value(stored, first, end, idx2, nm2) == spec_lookup_value(data, first, end, idx2, nm2));
        assert(u32_at(stored, h) == u32_at(data, h)) by {
            assert(stored[h] == data[h] && stored[h + 1] == data[h + 1] && stored[h + 2] == data[h + 2] && stored[h + 3] == data[h + 3]);
        }
        lemma_get_same_entry(inode_ref, stored, data, block, name2, buffer_len, y, x);
    } else {
        assert(spec_ibody_set_outcome(inode_ref, data, idx, nm, None) == (true, data));
    }
}

} // verus!
