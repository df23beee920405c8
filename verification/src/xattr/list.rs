//! Listing attribute names: each entry with a known namespace gives its
//! prefix, its name and a zero byte.

use vstd::prelude::*;
use crate::bytes::{read_u32_le, u32_at, write_bytes_at};
use crate::error::{Error, ErrorKind, Result};
use crate::fs::inode_ref::InodeRef;
use crate::superblock::Superblock;
use crate::types::ext4_xattr_entry;
use crate::xattr::block::{spec_block_valid, validate_block, HEADER_SIZE};
use crate::xattr::ibody::{spec_ibody_header_offset, spec_ibody_valid, validate_ibody_xattr, IBODY_HEADER_SIZE};
use crate::xattr::prefix::{prefix_of_index, spec_index_prefix};
use crate::xattr::search::{next_entry_offset, spec_entry_len};
use crate::xattr::write::spec_splice;

verus! {

/// What the entry at `off` lists: its prefix, its name and a zero byte,
/// when its name lies before `end` and its namespace is known; else
/// nothing.
pub open spec fn spec_entry_item(data: Seq<u8>, end: int, off: int) -> Seq<u8> {
    let e = ext4_xattr_entry::spec_at(data, off);
    let nl = e.e_name_len as int;
    if off + 16 + nl <= end {
        match spec_index_prefix(e.e_name_index) {
            Some(p) => p + data.subrange(off + 16, off + 16 + nl) + seq![0u8],
            None => Seq::empty(),
        }
    } else {
        Seq::empty()
    }
}

/// The names listed from the entries at `off` on, in a buffer with `room`
/// bytes left: a name that does not fit is left out and the walk goes on.
pub open spec fn spec_list_skipping(data: Seq<u8>, end: int, off: int, room: int) -> Seq<u8>
    decreases end + 300 - off,
{
    if off < 0 || off + 4 > end || u32_at(data, off) == 0 || off + 16 > end {
        Seq::empty()
    } else {
        let e = ext4_xattr_entry::spec_at(data, off);
        let item = spec_entry_item(data, end, off);
        let next = off + spec_entry_len(e.e_name_len as int);
        proof {
            assert(spec_entry_len(e.e_name_len as int) >= 16);
        }
        if item.len() > 0 && item.len() <= room {
            item + spec_list_skipping(data, end, next, room - item.len())
        } else {
            spec_list_skipping(data, end, next, room)
        }
    }
}

/// The names listed fit in the room given.
proof fn lemma_list_skipping_len(data: Seq<u8>, end: int, off: int, room: int)
    requires
        room >= 0,
    ensures
        spec_list_skipping(data, end, off, room).len() <= room,
    decreases end + 300 - off,
{
    if off < 0 || off + 4 > end || u32_at(data, off) == 0 || off + 16 > end {
    } else {
        let e = ext4_xattr_entry::spec_at(data, off);
        let item = spec_entry_item(data, end, off);
        let next = off + spec_entry_len(e.e_name_len as int);
        assert(spec_entry_len(e.e_name_len as int) >= 16);
        if item.len() > 0 && item.len() <= room {
            lemma_list_skipping_len(data, end, next, room - item.len());
        } else {
            lemma_list_skipping_len(data, end, next, room);
        }
    }
}

/// Writes the item of the entry at `off` (prefix `p`) at `buffer[pos..]`.
fn write_item(buffer: &mut [u8], pos: usize, p: &Vec<u8>, data: &[u8], name_off: usize, name_len: usize)
    requires
        name_off + name_len <= data@.len(),
        pos + p@.len() + name_len + 1 <= old(buffer)@.len(),
        old(buffer)@.len() <= usize::MAX,
        data@.len() <= usize::MAX,
    ensures
        final(buffer)@ == spec_splice(old(buffer)@, pos as int, p@ + data@.subrange(name_off as int, name_off + name_len) + seq![0u8]),
{
    let ghost b0 = buffer@;
    write_bytes_at(buffer, pos, p.as_slice());
    let name = vstd::slice::slice_subrange(data, name_off, name_off + name_len);
    write_bytes_at(buffer, pos + p.len(), name);
    buffer[pos + p.len() + name_len] = 0;
    assert(buffer@ =~= spec_splice(b0, pos as int, p@ + data@.subrange(name_off as int, name_off + name_len) + seq![0u8]));
}

/// Lists the names of the entries from `first` on, in `data[..end]`, into
/// `buffer` from `start` on, leaving out those that do not fit; returns
/// the bytes written.
fn list_entries_skipping(data: &[u8], end: usize, first: usize, buffer: &mut [u8], start: usize) -> (written: usize)
    requires
        end <= data@.len(),
        data@.len() + 1024 <= usize::MAX,
        first <= end + 300,
        start <= old(buffer)@.len(),
        old(buffer)@.len() + 1024 <= usize::MAX,
    ensures
        ({
            let listed = spec_list_skipping(data@, end as int, first as int, old(buffer)@.len() - start);
            &&& written == listed.len()
            &&& final(buffer)@ == spec_splice(old(buffer)@, start as int, listed)
        }),
{
    let ghost target = spec_list_skipping(data@, end as int, first as int, buffer@.len() - start);
    let ghost mut acc: Seq<u8> = Seq::empty();
    let blen = buffer.len();
    let mut off = first;
    let mut pos = start;
    loop
        invariant
            end <= data@.len(),
            data@.len() + 1024 <= usize::MAX,
            off <= end + 300,
            blen == old(buffer)@.len(),
            buffer@.len() == blen,
            blen + 1024 <= usize::MAX,
            pos == start + acc.len(),
            pos <= blen,
            buffer@ == spec_splice(old(buffer)@, start as int, acc),
            acc + spec_list_skipping(data@, end as int, off as int, blen - pos) == target,
        ensures
            acc == target,
            pos == start + acc.len(),
            buffer@ == spec_splice(old(buffer)@, start as int, acc),
        decreases end + 300 - off,
    {
        if off > end || end - off < 4 {
            assert(acc =~= acc + Seq::<u8>::empty());
            break;
        }
        if read_u32_le(data, off) == 0 {
            assert(acc =~= acc + Seq::<u8>::empty());
            break;
        }
        if end - off < 16 {
            assert(acc =~= acc + Seq::<u8>::empty());
            break;
        }
        let e = ext4_xattr_entry::read_at(data, off);
        let name_len = e.e_name_len as usize;
        let name_off = off + 16;
        let ghost item = spec_entry_item(data@, end as int, off as int);
        if name_off + name_len <= end {
            match prefix_of_index(e.e_name_index) {
                Some(p) => {
                    let total = p.len() + name_len + 1;
                    if total <= blen - pos {
                        let ghost before = buffer@;
                        write_item(buffer, pos, &p, data, name_off, name_len);
                        proof {
                            assert(item =~= p@ + data@.subrange(name_off as int, name_off + name_len) + seq![0u8]);
                            assert(buffer@ =~= spec_splice(old(buffer)@, start as int, acc + item));
                            assert((acc + item) + spec_list_skipping(data@, end as int, next_entry_spec(off as int, name_len as int), blen - pos - item.len()) =~= acc + (item + spec_list_skipping(data@, end as int, next_entry_spec(off as int, name_len as int), blen - pos - item.len())));
                            acc = acc + item;
                        }
                        pos = pos + total;
                    }
                },
                None => {},
            }
        }
        off = next_entry_offset(off, name_len);
    }
    assert(acc.len() == pos - start);
    pos - start
}

/// Offset of the entry after one at `off` with a name of `name_len` bytes.
pub open spec fn next_entry_spec(off: int, name_len: int) -> int {
    off + spec_entry_len(name_len)
}

/// Lists the names in an attribute block: validates it, then writes each
/// entry's prefix, name and a zero byte into `buffer`, leaving out names
/// that do not fit; returns the bytes written. The errors of
/// `validate_block`.
pub fn list_block_xattr(sb: &Superblock, block_data: &[u8], buffer: &mut [u8]) -> (r: Result<usize>)
    requires
        sb@.log_block_size < 32,
        sb@.spec_block_size() <= block_data@.len(),
        block_data@.len() + 1024 <= usize::MAX,
        old(buffer)@.len() + 1024 <= usize::MAX,
    ensures
        spec_block_valid(sb@, block_data@) ==> ({
            let listed = spec_list_skipping(block_data@, sb@.spec_block_size() as int, HEADER_SIZE as int, old(buffer)@.len() as int);
            r == Ok::<usize, Error>(listed.len() as usize) && final(buffer)@ == spec_splice(old(buffer)@, 0, listed)
        }),
        !spec_block_valid(sb@, block_data@) ==> (r matches Err(e) && e.spec_kind() == ErrorKind::InvalidInput
            && final(buffer)@ == old(buffer)@),
{
    match validate_block(sb, block_data) {
        Ok(()) => {},
        Err(e) => { return Err(e); },
    }
    let block_size = sb.block_size() as usize;
    Ok(list_entries_skipping(block_data, block_size, HEADER_SIZE, buffer, 0))
}

/// The names listed from the in-inode entries at `off` on, one item per
/// entry with a known namespace, up to the terminator, the end of `data`
/// or an entry whose name runs past it.
pub open spec fn spec_ibody_items(data: Seq<u8>, off: int) -> Seq<Seq<u8>>
    decreases data.len() + 300 - off,
{
    if off < 0 || off + 16 > data.len() || u32_at(data, off) == 0 {
        Seq::empty()
    } else {
        let e = ext4_xattr_entry::spec_at(data, off);
        let nl = e.e_name_len as int;
        if off + 16 + nl > data.len() {
            Seq::empty()
        } else {
            proof {
                assert(spec_entry_len(nl) >= 16);
            }
            let rest = spec_ibody_items(data, off + spec_entry_len(nl));
            match spec_index_prefix(e.e_name_index) {
                Some(p) => seq![p + data.subrange(off + 16, off + 16 + nl) + seq![0u8]] + rest,
                None => rest,
            }
        }
    }
}

/// The items one after another.
pub open spec fn spec_flatten(items: Seq<Seq<u8>>) -> Seq<u8>
    decreases items.len(),
{
    if items.len() == 0 {
        Seq::empty()
    } else {
        spec_flatten(items.drop_last()) + items.last()
    }
}

/// A prefix of the items is no longer than all of them.
proof fn lemma_flatten_prefix_len(items: Seq<Seq<u8>>, k: int)
    requires
        0 <= k <= items.len(),
    ensures
        spec_flatten(items.take(k)).len() <= spec_flatten(items).len(),
    decreases items.len(),
{
    if k < items.len() {
        lemma_flatten_prefix_len(items.drop_last(), k);
        assert(items.drop_last().take(k) =~= items.take(k));
    } else {
        assert(items.take(k) =~= items);
    }
}

/// How many of the first items fit in `cap` bytes, counting on from `k`.
pub open spec fn spec_fit_count(items: Seq<Seq<u8>>, cap: int, k: int) -> int
    decreases items.len() - k,
{
    if 0 <= k < items.len() && spec_flatten(items.take(k + 1)).len() <= cap {
        spec_fit_count(items, cap, k + 1)
    } else {
        k
    }
}

/// Lists the names stored in the inode record into `buffer`: each entry's
/// prefix, name and a zero byte. Nothing is listed (`Ok(0)`) when the
/// inode has no extra fields or its attribute header is bad. `NoSpace`
/// when the names do not all fit; the buffer then holds the names that
/// fit before the first one that does not.
pub fn list_ibody_xattr(inode_ref: &InodeRef, inode_data: &[u8], buffer: &mut [u8]) -> (r: Result<usize>)
    requires
        inode_ref.sb@.spec_inode_size() <= inode_data@.len(),
        inode_data@.len() + 1024 <= usize::MAX,
        old(buffer)@.len() + 1024 <= usize::MAX,
    ensures
        match spec_ibody_header_offset(inode_ref.inode.extra_isize) {
            None => r == Ok::<usize, Error>(0) && final(buffer)@ == old(buffer)@,
            Some(h) => if !spec_ibody_valid(inode_data@, h, inode_ref.sb@.spec_inode_size() as int) {
                r == Ok::<usize, Error>(0) && final(buffer)@ == old(buffer)@
            } else {
                let items = spec_ibody_items(inode_data@, h + IBODY_HEADER_SIZE);
                let all = spec_flatten(items);
                if all.len() <= old(buffer)@.len() {
                    r == Ok::<usize, Error>(all.len() as usize) && final(buffer)@ == spec_splice(old(buffer)@, 0, all)
                } else {
                    &&& r matches Err(e) && e.spec_kind() == ErrorKind::NoSpace
                    &&& final(buffer)@ == spec_splice(old(buffer)@, 0, spec_flatten(
                        items.take(spec_fit_count(items, old(buffer)@.len() as int, 0)),
                    ))
                }
            },
        },
{
    let header_offset: usize = if inode_ref.inode.extra_isize == 0 {
        return Ok(0);
    } else {
        128 + inode_ref.inode.extra_isize as usize
    };
    match validate_ibody_xattr(inode_ref, inode_data) {
        Ok(()) => {},
        Err(_) => { return Ok(0); },
    }
    let first = header_offset + IBODY_HEADER_SIZE;
    let ghost items = spec_ibody_items(inode_data@, first as int);
    let ghost mut done: Seq<Seq<u8>> = Seq::empty();
    let dlen = inode_data.len();
    let blen = buffer.len();
    let mut written: usize = 0;
    let mut off = first;
    assert(buffer@ =~= spec_splice(old(buffer)@, 0, spec_flatten(done)));
    assert(items =~= done + spec_ibody_items(inode_data@, off as int));
    loop
        invariant
            dlen == inode_data@.len(),
            dlen + 1024 <= usize::MAX,
            off <= dlen + 300,
            blen == old(buffer)@.len(),
            buffer@.len() == blen,
            blen + 1024 <= usize::MAX,
            written == spec_flatten(done).len(),
            written <= blen,
            buffer@ == spec_splice(old(buffer)@, 0, spec_flatten(done)),
            items == done + spec_ibody_items(inode_data@, off as int),
            spec_fit_count(items, blen as int, 0) == spec_fit_count(items, blen as int, done.len() as int),
            items == spec_ibody_items(inode_data@, first as int),
            inode_ref.inode.extra_isize != 0,
            header_offset == 128 + inode_ref.inode.extra_isize,
            first == header_offset + IBODY_HEADER_SIZE,
            spec_ibody_valid(inode_data@, header_offset as int, inode_ref.sb@.spec_inode_size() as int),
        ensures
            items == done,
            written == spec_flatten(done).len(),
            buffer@ == spec_splice(old(buffer)@, 0, spec_flatten(done)),
        decreases dlen + 300 - off,
    {
        if off > dlen || dlen - off < 16 {
            assert(items =~= done);
            break;
        }
        if read_u32_le(inode_data, off) == 0 {
            assert(items =~= done);
            break;
        }
        let e = ext4_xattr_entry::read_at(inode_data, off);
        let name_len = e.e_name_len as usize;
        let name_off = off + 16;
        if name_off + name_len > dlen {
            assert(items =~= done);
            break;
        }
        let ghost rest = spec_ibody_items(inode_data@, next_entry_spec(off as int, name_len as int));
        match prefix_of_index(e.e_name_index) {
            Some(p) => {
                let ghost item = p@ + inode_data@.subrange(name_off as int, name_off + name_len) + seq![0u8];
                let total = p.len() + name_len + 1;
                proof {
                    assert(items =~= done.push(item) + rest);
                    assert(items.take(done.len() + 1 as int) =~= done.push(item));
                    assert(done.push(item).drop_last() =~= done);
                }
                if total > blen - written {
                    proof {
                        assert(items.take(done.len() as int) =~= done);
                        assert(spec_flatten(items.take(done.len() + 1 as int)).len() == written + total);
                        assert(spec_fit_count(items, blen as int, done.len() as int) == done.len());
                        lemma_flatten_prefix_len(items, done.len() + 1 as int);
                        assert(spec_flatten(items).len() > blen);
                        assert(spec_fit_count(items, blen as int, 0) == done.len());
                        assert(spec_flatten(items.take(spec_fit_count(items, blen as int, 0))) == spec_flatten(done));
                        assert(items == spec_ibody_items(inode_data@, first as int));
                    }
                    return Err(Error::new(ErrorKind::NoSpace, "buffer too small for xattr list"));
                }
                write_item(buffer, written, &p, inode_data, name_off, name_len);
                proof {
                    assert(buffer@ =~= spec_splice(old(buffer)@, 0, spec_flatten(done) + item));
                    done = done.push(item);
                }
                written = written + total;
            },
            None => {},
        }
        off = next_entry_offset(off, name_len);
    }
    Ok(written)
}

/// Lists all attribute names of the inode into `buffer`: those stored in
/// the inode record (as `list_ibody_xattr`, whose errors it passes on),
/// then those of the attribute block `block_data`, present exactly when
/// the inode has one, leaving out the block's names that do not fit.
/// Returns the bytes written.
pub fn list(inode_ref: &InodeRef, inode_data: &[u8], block_data: Option<&[u8]>, buffer: &mut [u8]) -> (r: Result<usize>)
    requires
        inode_ref.sb@.spec_inode_size() <= inode_data@.len(),
        inode_data@.len() + 1024 <= usize::MAX,
        old(buffer)@.len() + 1024 <= usize::MAX,
        block_data matches Some(b) ==> b@.len() + 1024 <= usize::MAX,
        (block_data is Some) == (crate::fs::inode_ref::spec_xattr_block(inode_ref.sb@, inode_ref.inode) != 0),
    ensures
        ({
            let in_inode = match spec_ibody_header_offset(inode_ref.inode.extra_isize) {
                None => Some(Seq::<u8>::empty()),
                Some(h) => if !spec_ibody_valid(inode_data@, h, inode_ref.sb@.spec_inode_size() as int) {
                    Some(Seq::<u8>::empty())
                } else {
                    let all = spec_flatten(spec_ibody_items(inode_data@, h + IBODY_HEADER_SIZE));
                    if all.len() <= old(buffer)@.len() { Some(all) } else { None }
                },
            };
            match in_inode {
                None => r matches Err(e) && e.spec_kind() == ErrorKind::NoSpace,
                Some(names) => {
                    let from_block = match block_data {
                        Some(b) => spec_list_skipping(b@, b@.len() as int, HEADER_SIZE as int, old(buffer)@.len() - names.len()),
                        None => Seq::<u8>::empty(),
                    };
                    &&& r == Ok::<usize, Error>((names.len() + from_block.len()) as usize)
                    &&& final(buffer)@ == spec_splice(old(buffer)@, 0, names + from_block)
                },
            }
        }),
{
    let ghost b0 = buffer@;
    let ibody_len = match list_ibody_xattr(inode_ref, inode_data, buffer) {
        Ok(n) => n,
        Err(e) => { return Err(e); },
    };
    let ghost b1 = buffer@;
    let ghost names: Seq<u8> = match spec_ibody_header_offset(inode_ref.inode.extra_isize) {
        None => Seq::<u8>::empty(),
        Some(h) => if !spec_ibody_valid(inode_data@, h, inode_ref.sb@.spec_inode_size() as int) {
            Seq::<u8>::empty()
        } else {
            spec_flatten(spec_ibody_items(inode_data@, h + IBODY_HEADER_SIZE))
        },
    };
    assert(b1 == spec_splice(b0, 0, names) && ibody_len == names.len());
    let xattr_block_addr = match inode_ref.get_xattr_block_addr() {
        Ok(a) => a,
        Err(e) => { return Err(e); },
    };
    if xattr_block_addr == 0 {
        proof {
            assert(Seq::<u8>::empty() + Seq::<u8>::empty() =~= Seq::<u8>::empty());
            assert(names + Seq::<u8>::empty() =~= names);
        }
        return Ok(ibody_len);
    }
    match block_data {
        Some(block) => {
            let block_len = list_entries_skipping(block, block.len(), HEADER_SIZE, buffer, ibody_len);
            proof {
                lemma_list_skipping_len(block@, block@.len() as int, HEADER_SIZE as int, b0.len() - ibody_len);
                let listed = spec_list_skipping(block@, block@.len() as int, HEADER_SIZE as int, b0.len() - ibody_len);
                assert(buffer@ =~= spec_splice(b0, 0, names + listed));
            }
            Ok(ibody_len + block_len)
        },
        None => Ok(ibody_len),
    }
}

} // verus!
