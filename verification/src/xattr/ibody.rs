//! Attributes stored inside the inode record, after the 128-byte base
//! record and the inode's extra fields: a 4-byte header holding the magic
//! number, then an entry list like that of an attribute block.
//!
//! The functions take the inode reference, for the extra field size and
//! the superblock's inode size, and the raw bytes of the inode record.

use vstd::prelude::*;
use crate::bytes::{le32, read_u32_le, u32_at, write_u32_le, zeros};
use crate::consts::{EXT4_GOOD_OLD_INODE_SIZE, EXT4_XATTR_MAGIC};
use crate::error::{Error, ErrorKind, Result};
use crate::fs::inode_ref::InodeRef;
use crate::xattr::search::{spec_find, XattrSearch};
use crate::xattr::write::{
    edit_allowed, set_entry_in_memory, spec_edit_target, spec_free, spec_found_triple, spec_opt_view, spec_required,
    spec_set_entry, spec_set_in_bounds, spec_set_writes, spec_splice,
};

verus! {

/// Size of the in-inode attribute header.
pub const IBODY_HEADER_SIZE: usize = 4;

/// Offset of the in-inode attribute header in the inode record: after the
/// base record and the extra fields; `None` when the inode has no extra
/// fields.
pub open spec fn spec_ibody_header_offset(extra_isize: u16) -> Option<int> {
    if extra_isize == 0 {
        None
    } else {
        Some(EXT4_GOOD_OLD_INODE_SIZE + extra_isize as int)
    }
}

/// Whether the in-inode attribute header at `h` fits in an inode of
/// `inode_size` bytes and carries the magic number.
pub open spec fn spec_ibody_valid(data: Seq<u8>, h: int, inode_size: int) -> bool {
    h + IBODY_HEADER_SIZE <= inode_size && u32_at(data, h) == EXT4_XATTR_MAGIC
}

/// Offset of the in-inode attribute header of the inode.
fn get_ibody_header_offset(inode_ref: &InodeRef) -> (r: Option<usize>)
    ensures
        match spec_ibody_header_offset(inode_ref.inode.extra_isize) {
            None => r is None,
            Some(h) => r == Some(h as usize),
        },
{
    let extra_isize = inode_ref.inode.extra_isize as usize;
    if extra_isize == 0 {
        None
    } else {
        Some(EXT4_GOOD_OLD_INODE_SIZE + extra_isize)
    }
}

/// Offset of the first in-inode entry, after the header at
/// `header_offset`.
fn get_first_entry_offset(header_offset: usize) -> (r: usize)
    requires
        header_offset + IBODY_HEADER_SIZE <= usize::MAX,
    ensures
        r == header_offset + IBODY_HEADER_SIZE,
{
    header_offset + IBODY_HEADER_SIZE
}

/// Checks the in-inode attribute header of the inode record
/// `inode_data`: `Ok` when the inode has no extra fields; `Io` when the
/// header does not fit in the inode or lacks the magic number.
pub fn validate_ibody_xattr(inode_ref: &InodeRef, inode_data: &[u8]) -> (r: Result<()>)
    requires
        inode_ref.sb@.spec_inode_size() <= inode_data@.len(),
    ensures
        match spec_ibody_header_offset(inode_ref.inode.extra_isize) {
            None => r is Ok,
            Some(h) => if spec_ibody_valid(inode_data@, h, inode_ref.sb@.spec_inode_size() as int) {
                r is Ok
            } else {
                r matches Err(e) && e.spec_kind() == ErrorKind::Io
            },
        },
{
    let header_offset = match get_ibody_header_offset(inode_ref) {
        Some(offset) => offset,
        None => { return Ok(()); },
    };
    let inode_size = inode_ref.sb.inode_size() as usize;
    if header_offset + IBODY_HEADER_SIZE > inode_size {
        return Err(Error::new(ErrorKind::Io, "ibody xattr header out of bounds"));
    }
    if read_u32_le(inode_data, header_offset) != EXT4_XATTR_MAGIC {
        return Err(Error::new(ErrorKind::Io, "invalid ibody xattr magic"));
    }
    Ok(())
}

/// Looks up the in-inode attribute with namespace `name_index` and name
/// `name`: its entry offset, value offset (0 without a value) and value
/// size. `None` when the inode has no extra fields or no such entry; the
/// errors of `validate_ibody_xattr` otherwise.
pub fn find_ibody_entry(inode_ref: &InodeRef, inode_data: &[u8], name_index: u8, name: &[u8]) -> (r: Result<Option<(usize, usize, u32)>>)
    requires
        inode_ref.sb@.spec_inode_size() <= inode_data@.len(),
        inode_data@.len() + 1024 <= usize::MAX,
    ensures
        match spec_ibody_header_offset(inode_ref.inode.extra_isize) {
            None => r == Ok::<Option<(usize, usize, u32)>, Error>(None),
            Some(h) => if spec_ibody_valid(inode_data@, h, inode_ref.sb@.spec_inode_size() as int) {
                r == Ok::<Option<(usize, usize, u32)>, Error>(spec_found_triple(
                    inode_data@,
                    spec_find(inode_data@, inode_data@.len() as int, h + IBODY_HEADER_SIZE, name_index, name@),
                ))
            } else {
                r matches Err(e) && e.spec_kind() == ErrorKind::Io
            },
        },
{
    let header_offset = match get_ibody_header_offset(inode_ref) {
        Some(offset) => offset,
        None => { return Ok(None); },
    };
    match validate_ibody_xattr(inode_ref, inode_data) {
        Ok(()) => {},
        Err(e) => { return Err(e); },
    }
    let first_entry_offset = get_first_entry_offset(header_offset);
    let mut search = XattrSearch::new(inode_data, first_entry_offset);
    Ok(search.find_entry(name_index, name))
}

/// What storing (`Some`) or removing (`None`) an in-inode attribute gives:
/// whether it was done (`false` without extra fields or without room) and
/// the inode record afterwards.
pub open spec fn spec_ibody_set_outcome(inode_ref: InodeRef, data: Seq<u8>, name_index: u8, name: Seq<u8>, value: Option<Seq<u8>>) -> (bool, Seq<u8>) {
    match spec_ibody_header_offset(inode_ref.inode.extra_isize) {
        None => (false, data),
        Some(h) => {
            let first = h + IBODY_HEADER_SIZE;
            let end = inode_ref.sb@.spec_inode_size() as int;
            let found = spec_edit_target(data, first, end, name_index, name);
            if value is None && found is None {
                (true, data)
            } else if value is Some && spec_free(data, first, end, found) < spec_required(name.len() as int, value->0.len() as int) {
                (false, data)
            } else {
                (true, spec_set_entry(data, first, end, name_index, name, value))
            }
        },
    }
}

/// Whether an in-inode edit stays inside the record (see
/// `spec_set_in_bounds`).
pub open spec fn spec_ibody_set_ok(inode_ref: InodeRef, data: Seq<u8>, name_index: u8, name: Seq<u8>, value: Option<Seq<u8>>) -> bool {
    spec_ibody_header_offset(inode_ref.inode.extra_isize) matches Some(h) ==> {
        let first = h + IBODY_HEADER_SIZE;
        let end = inode_ref.sb@.spec_inode_size() as int;
        spec_set_writes(data, first, end, name_index, name, value, false) ==> spec_set_in_bounds(data, first, end, name_index, name, value)
    }
}

/// Whether `set_ibody_entry` may be called for this edit of the inode
/// record `inode_data` (see `spec_ibody_set_ok`).
pub fn ibody_edit_allowed(inode_ref: &InodeRef, inode_data: &[u8], name_index: u8, name: &[u8], value: Option<&[u8]>) -> (r: bool)
    requires
        inode_ref.sb@.spec_inode_size() <= inode_data@.len(),
        inode_data@.len() + 0x10000 <= usize::MAX,
        name@.len() + 1024 <= usize::MAX,
        value matches Some(v) ==> name@.len() + v@.len() + 1024 <= usize::MAX,
    ensures
        r == spec_ibody_set_ok(*inode_ref, inode_data@, name_index, name@, spec_opt_view(value)),
{
    let header_offset = match get_ibody_header_offset(inode_ref) {
        Some(offset) => offset,
        None => { return true; },
    };
    let inode_size = inode_ref.sb.inode_size() as usize;
    let first_entry_offset = get_first_entry_offset(header_offset);
    edit_allowed(inode_data, first_entry_offset, inode_size, name_index, name, value)
}

/// Stores (`Some`) or removes (`None`) an in-inode attribute, in the
/// entry area from the first entry to the end of the inode record.
/// `false` when the inode has no extra fields or the value does not fit;
/// `true` once the area was changed, or when there was nothing to remove.
pub fn set_ibody_entry(inode_ref: &InodeRef, inode_data: &mut [u8], name_index: u8, name: &[u8], value: Option<&[u8]>) -> (r: Result<bool>)
    requires
        inode_ref.sb@.spec_inode_size() <= old(inode_data)@.len(),
        old(inode_data)@.len() + 0x10000 <= usize::MAX,
        name@.len() + 1024 <= usize::MAX,
        value matches Some(v) ==> name@.len() + v@.len() + 1024 <= usize::MAX,
        spec_ibody_set_ok(*inode_ref, old(inode_data)@, name_index, name@, spec_opt_view(value)),
    ensures
        ({
            let (stored, d) = spec_ibody_set_outcome(*inode_ref, old(inode_data)@, name_index, name@, spec_opt_view(value));
            r == Ok::<bool, Error>(stored) && final(inode_data)@ == d
        }),
{
    let header_offset = match get_ibody_header_offset(inode_ref) {
        Some(offset) => offset,
        None => { return Ok(false); },
    };
    let inode_size = inode_ref.sb.inode_size() as usize;
    let first_entry_offset = get_first_entry_offset(header_offset);
    set_entry_impl(inode_data, first_entry_offset, inode_size, name_index, name, value)
}

/// Edits the area and reports a lack of room as `false`.
fn set_entry_impl(data: &mut [u8], first_entry_offset: usize, data_end: usize, name_index: u8, name: &[u8], value: Option<&[u8]>) -> (r: Result<bool>)
    requires
        data_end <= old(data)@.len(),
        old(data)@.len() + 0x10000 <= usize::MAX,
        name@.len() + 1024 <= usize::MAX,
        value matches Some(v) ==> name@.len() + v@.len() + 1024 <= usize::MAX,
        spec_set_writes(old(data)@, first_entry_offset as int, data_end as int, name_index, name@, spec_opt_view(value), false)
            ==> spec_set_in_bounds(old(data)@, first_entry_offset as int, data_end as int, name_index, name@, spec_opt_view(value)),
    ensures
        ({
            let d = old(data)@;
            let first = first_entry_offset as int;
            let end = data_end as int;
            let found = spec_edit_target(d, first, end, name_index, name@);
            let vs = spec_opt_view(value);
            if vs is None && found is None {
                r == Ok::<bool, Error>(true) && final(data)@ == d
            } else if vs is Some && spec_free(d, first, end, found) < spec_required(name@.len() as int, vs->0.len() as int) {
                r == Ok::<bool, Error>(false) && final(data)@ == d
            } else {
                r == Ok::<bool, Error>(true) && final(data)@ == spec_set_entry(d, first, end, name_index, name@, vs)
            }
        }),
{
    match set_entry_in_memory(data, first_entry_offset, data_end, name_index, name, value, false) {
        Ok(()) => Ok(true),
        Err(e) => {
            if e.kind() == ErrorKind::NoSpace {
                Ok(false)
            } else {
                Err(e)
            }
        },
    }
}

/// The inode record once its in-inode attribute area is prepared: from
/// the header to the end of the record all zero but the magic number in
/// the header; unchanged without extra fields or when the header lies at
/// or past the end of the record.
pub open spec fn spec_ibody_initialized(inode_ref: InodeRef, data: Seq<u8>) -> Seq<u8> {
    match spec_ibody_header_offset(inode_ref.inode.extra_isize) {
        None => data,
        Some(h) => {
            let size = inode_ref.sb@.spec_inode_size() as int;
            if h < size {
                spec_splice(spec_splice(data, h, zeros((size - h) as nat)), h, le32(EXT4_XATTR_MAGIC))
            } else {
                data
            }
        },
    }
}

/// Prepares the in-inode attribute area: from the header to the end of
/// the inode record all bytes become zero, then the header takes the magic
/// number. Nothing changes when the inode has no extra fields or the
/// header lies at or past the end of the record.
pub fn initialize_ibody_xattr(inode_ref: &InodeRef, inode_data: &mut [u8]) -> (r: Result<()>)
    requires
        inode_ref.sb@.spec_inode_size() <= old(inode_data)@.len(),
        spec_ibody_header_offset(inode_ref.inode.extra_isize) matches Some(h)
            ==> (h < inode_ref.sb@.spec_inode_size() ==> h + IBODY_HEADER_SIZE <= old(inode_data)@.len()),
    ensures
        r is Ok,
        final(inode_data)@ == spec_ibody_initialized(*inode_ref, old(inode_data)@),
{
    let header_offset = match get_ibody_header_offset(inode_ref) {
        Some(offset) => offset,
        None => { return Ok(()); },
    };
    let inode_size = inode_ref.sb.inode_size() as usize;
    if header_offset < inode_size {
        let ghost d = inode_data@;
        let dlen = inode_data.len();
        let mut i = header_offset;
        while i < inode_size
            invariant
                header_offset <= i <= inode_size,
                inode_size <= d.len(),
                dlen == d.len(),
                inode_data@ == spec_splice(d, header_offset as int, zeros((i - header_offset) as nat)),
            decreases inode_size - i,
        {
            inode_data[i] = 0;
            i = i + 1;
            assert(inode_data@ =~= spec_splice(d, header_offset as int, zeros((i - header_offset) as nat)));
        }
        write_u32_le(inode_data, header_offset, EXT4_XATTR_MAGIC);
    }
    Ok(())
}

} // verus!
