//! Editing an attribute area in memory: adding, replacing and removing an
//! entry together with its value.
//!
//! Entries grow upwards from the first entry offset; values grow
//! downwards from the end of the area. The free space is what lies between
//! the entry list's terminator and the lowest value.

use vstd::prelude::*;
use crate::bytes::{le16, le32, push_range, read_u32_le, u32_at, write_bytes_at, write_u16_le, write_u32_le, zeros};
use crate::error::{Error, ErrorKind, Result};
use crate::types::ext4_xattr_entry;
use crate::xattr::search::{next_entry_offset, spec_entry_len, spec_find, XattrSearch};

verus! {

/// Bytes an entry with a name of `name_len` bytes takes: 16 plus the name,
/// rounded up to a multiple of 4.
pub fn entry_len(name_len: usize) -> (r: usize)
    requires
        name_len + 19 <= usize::MAX,
    ensures
        r == spec_entry_len(name_len as int),
{
    let x = name_len + 3 + 16;
    let r = x & !3usize;
    assert(x & !3usize == (x / 4) * 4) by (bit_vector);
    r
}

/// A value length rounded up to a multiple of 4.
pub fn value_size(value_len: usize) -> (r: usize)
    requires
        value_len + 3 <= usize::MAX,
    ensures
        r == spec_value_size(value_len as int),
{
    let x = value_len + 3;
    let r = x & !3usize;
    assert(x & !3usize == (x / 4) * 4) by (bit_vector);
    r
}

/// A value length rounded up to a multiple of 4, in 64 bits.
fn value_size_u64(value_len: u64) -> (r: u64)
    requires
        value_len + 3 <= u64::MAX,
    ensures
        r == spec_value_size(value_len as int),
{
    let x = value_len + 3;
    let r = x & !3u64;
    assert(x & !3u64 == (x / 4) * 4) by (bit_vector);
    r
}

/// A value length rounded up to a multiple of 4.
pub open spec fn spec_value_size(len: int) -> int {
    (len + 3) / 4 * 4
}

/// `s` with `bytes` written from `off` on.
pub open spec fn spec_splice(s: Seq<u8>, off: int, bytes: Seq<u8>) -> Seq<u8> {
    s.take(off) + bytes + s.skip(off + bytes.len())
}

/// The walk the writer makes over the entry list from `off` on: the lowest
/// value offset among entries with a value (starting from `min_offs`), and
/// the offset of the list's terminator, or of the last entry read when the
/// area ends first (starting from `last`).
pub open spec fn spec_layout(data: Seq<u8>, end: int, off: int, min_offs: int, last: int) -> (int, int)
    decreases end + 300 - off,
{
    if off < 0 || off + 4 > end {
        (min_offs, last)
    } else if u32_at(data, off) == 0 {
        (min_offs, off)
    } else if off + 16 > end {
        (min_offs, last)
    } else {
        let e = ext4_xattr_entry::spec_at(data, off);
        let m = if e.e_value_size > 0 && (e.e_value_offs as int) < min_offs {
            e.e_value_offs as int
        } else {
            min_offs
        };
        proof {
            assert(spec_entry_len(e.e_name_len as int) >= 16);
        }
        spec_layout(data, end, off + spec_entry_len(e.e_name_len as int), m, off)
    }
}

/// The entry list from `off` on with `delta` added to every value offset
/// that is non-zero and below `limit`.
pub open spec fn spec_shift_offsets(data: Seq<u8>, end: int, off: int, limit: int, delta: int) -> Seq<u8>
    decreases end + 300 - off,
{
    if off < 0 || off + 4 > end || u32_at(data, off) == 0 || off + 16 > end {
        data
    } else {
        let e = ext4_xattr_entry::spec_at(data, off);
        let d = if e.e_value_offs > 0 && (e.e_value_offs as int) < limit {
            spec_splice(data, off + 2, le16((e.e_value_offs + delta) as u16))
        } else {
            data
        };
        proof {
            assert(spec_entry_len(e.e_name_len as int) >= 16);
        }
        spec_shift_offsets(d, end, off + spec_entry_len(e.e_name_len as int), limit, delta)
    }
}

/// Removing the value of `a` bytes at `old_off` from the value area whose
/// lowest value is at `floor`: the values below it move up by `a`, the
/// vacated bytes at the bottom are zeroed, and the entries pointing at
/// moved values follow them.
pub open spec fn spec_drop_value(data: Seq<u8>, first: int, end: int, floor: int, old_off: int, a: int) -> Seq<u8> {
    let moved = if old_off > floor {
        spec_splice(data, floor + a, data.subrange(floor, old_off))
    } else {
        data
    };
    spec_shift_offsets(spec_splice(moved, floor, zeros(a as nat)), end, first, old_off, a)
}

/// The slice's contents, if there is one.
pub open spec fn spec_opt_view(value: Option<&[u8]>) -> Option<Seq<u8>> {
    match value {
        Some(v) => Some(v@),
        None => None,
    }
}

/// The entry the edit finds: the one with the namespace and name among the
/// entries of the area `data[..end]` from `first` on.
pub open spec fn spec_edit_target(data: Seq<u8>, first: int, end: int, idx: u8, name: Seq<u8>) -> Option<int> {
    spec_find(data.take(end), end, first, idx, name)
}

/// Bytes the edit may use: the gap between the terminator (and its four
/// bytes) and the lowest value, plus, for an entry being replaced, its own
/// entry and value.
#[verifier::opaque]
pub open spec fn spec_free(data: Seq<u8>, first: int, end: int, found: Option<int>) -> int {
    let (m, last) = spec_layout(data, end, first, end, first);
    let base = if m - last > 4 { m - last - 4 } else { 0 };
    match found {
        Some(eo) => {
            let e = ext4_xattr_entry::spec_at(data, eo);
            base + spec_value_size(e.e_value_size as int) + spec_entry_len(e.e_name_len as int)
        },
        None => base,
    }
}

/// Bytes a new entry needs: its entry and its value.
pub open spec fn spec_required(name_len: int, value_len: int) -> int {
    spec_value_size(value_len) + spec_entry_len(name_len)
}

/// Size of the value that the edit removes first: the found entry's value
/// when it has one at a non-zero offset, else 0.
pub open spec fn spec_dropped_size(data: Seq<u8>, found: Option<int>) -> int {
    match found {
        Some(eo) => {
            let e = ext4_xattr_entry::spec_at(data, eo);
            if e.e_value_size > 0 && e.e_value_offs > 0 {
                spec_value_size(e.e_value_size as int)
            } else {
                0
            }
        },
        None => 0,
    }
}

/// The area once the found entry's old value is removed.
pub open spec fn spec_after_drop(data: Seq<u8>, first: int, end: int, found: Option<int>) -> Seq<u8> {
    let (m, last) = spec_layout(data, end, first, end, first);
    if spec_dropped_size(data, found) > 0 {
        let e = ext4_xattr_entry::spec_at(data, found->0);
        spec_drop_value(data, first, end, m, e.e_value_offs as int, spec_dropped_size(data, found))
    } else {
        data
    }
}

/// Offset at which a new value of `len` bytes goes below the value area
/// floor `floor`; 0 for an empty value.
pub open spec fn spec_new_value_offset(floor: int, len: int) -> int {
    if len > 0 {
        floor - spec_value_size(len)
    } else {
        0
    }
}

/// The entry header written for a new attribute.
pub open spec fn spec_new_entry(name_len: int, idx: u8, value_off: int, value_len: int) -> ext4_xattr_entry {
    ext4_xattr_entry {
        e_name_len: name_len as u8,
        e_name_index: idx,
        e_value_offs: value_off as u16,
        e_value_block: 0,
        e_value_size: value_len as u32,
        e_hash: 0,
    }
}

/// Storing value `v`: the found entry takes the new value offset and size,
/// or a new entry with its name and a terminator goes where the list ended;
/// then the value, zero-padded to a multiple of 4, goes below `floor`.
pub open spec fn spec_put(data: Seq<u8>, found: Option<int>, last: int, end: int, floor: int, idx: u8, name: Seq<u8>, v: Seq<u8>) -> Seq<u8> {
    let vo = spec_new_value_offset(floor, v.len() as int);
    let with_entry = match found {
        Some(eo) => spec_splice(spec_splice(data, eo + 2, le16(vo as u16)), eo + 8, le32(v.len() as u32)),
        None => {
            let e = spec_new_entry(name.len() as int, idx, vo, v.len() as int);
            let named = spec_splice(spec_splice(data, last, e.spec_to_bytes()), last + 16, name);
            let next = last + spec_entry_len(name.len() as int);
            if next + 4 <= end {
                spec_splice(named, next, zeros(4))
            } else {
                named
            }
        },
    };
    if vo > 0 && v.len() > 0 {
        spec_splice(spec_splice(with_entry, vo, v), vo + v.len(), zeros((spec_value_size(v.len() as int) - v.len()) as nat))
    } else {
        with_entry
    }
}

/// Removing the entry at `eo`: the entries after it, up to and including
/// the terminator at `last`, move down over it and the bytes freed at the
/// top of the list are zeroed.
pub open spec fn spec_unlink(data: Seq<u8>, eo: int, last: int) -> Seq<u8> {
    let total = spec_entry_len(data[eo] as int);
    let next = eo + total;
    let mv = last + 4 - next;
    let moved = if mv > 0 {
        spec_splice(data, eo, data.subrange(next, next + mv))
    } else {
        data
    };
    spec_splice(moved, eo + mv, zeros(total as nat))
}

/// The area after storing (`Some`) or removing (`None`) the attribute.
#[verifier::opaque]
pub open spec fn spec_set_entry(data: Seq<u8>, first: int, end: int, idx: u8, name: Seq<u8>, value: Option<Seq<u8>>) -> Seq<u8> {
    let found = spec_edit_target(data, first, end, idx, name);
    let (m, last) = spec_layout(data, end, first, end, first);
    let dropped = spec_after_drop(data, first, end, found);
    let floor = m + spec_dropped_size(data, found);
    match value {
        Some(v) => spec_put(dropped, found, last, end, floor, idx, name, v),
        None => match found {
            Some(eo) => spec_unlink(dropped, eo, last),
            None => dropped,
        },
    }
}

/// Whether the edit changes the area: something to remove, or room for
/// the new value, and no dry run.
pub open spec fn spec_set_writes(data: Seq<u8>, first: int, end: int, idx: u8, name: Seq<u8>, value: Option<Seq<u8>>, dry_run: bool) -> bool {
    let found = spec_edit_target(data, first, end, idx, name);
    &&& !(value is None && found is None)
    &&& !(value is Some && spec_free(data, first, end, found) < spec_required(name.len() as int, value->0.len() as int))
    &&& !dry_run
}

/// Whether every byte the edit moves or writes lies inside `data`, and the
/// new value fits below the value area floor.
#[verifier::opaque]
pub open spec fn spec_set_in_bounds(data: Seq<u8>, first: int, end: int, idx: u8, name: Seq<u8>, value: Option<Seq<u8>>) -> bool {
    let found = spec_edit_target(data, first, end, idx, name);
    let (m, last) = spec_layout(data, end, first, end, first);
    let a = spec_dropped_size(data, found);
    let floor = m + a;
    &&& (a > 0 ==> {
        let o = ext4_xattr_entry::spec_at(data, found->0).e_value_offs as int;
        &&& m + a <= data.len()
        &&& (o > m ==> o + a <= data.len())
    })
    &&& match value {
        Some(v) => {
            &&& (v.len() > 0 ==> floor >= spec_value_size(v.len() as int))
            &&& (found is None ==> last + 16 + name.len() <= data.len())
        },
        None => match found {
            Some(eo) => {
                let total = spec_entry_len(spec_after_drop(data, first, end, found)[eo] as int);
                &&& eo + total <= last + 4
                &&& last + 4 <= data.len()
            },
            None => true,
        },
    }
}


/// Copies `len` bytes from `src` to `dst` within `data`, through a copy so
/// that overlapping ranges are handled.
fn move_bytes(data: &mut [u8], src: usize, dst: usize, len: usize)
    requires
        src + len <= old(data)@.len(),
        dst + len <= old(data)@.len(),
        old(data)@.len() <= usize::MAX,
    ensures
        final(data)@.len() == old(data)@.len(),
        final(data)@ == spec_splice(old(data)@, dst as int, old(data)@.subrange(src as int, src + len)),
{
    let mut tmp: Vec<u8> = Vec::new();
    push_range(&mut tmp, data, src, src + len);
    assert(tmp@ =~= old(data)@.subrange(src as int, src + len));
    write_bytes_at(data, dst, tmp.as_slice());
}

/// Zeroes `data[off..off + n]`.
fn fill_zero(data: &mut [u8], off: usize, n: usize)
    requires
        off + n <= old(data)@.len(),
        old(data)@.len() <= usize::MAX,
    ensures
        final(data)@.len() == old(data)@.len(),
        final(data)@ == spec_splice(old(data)@, off as int, zeros(n as nat)),
{
    let mut i: usize = 0;
    while i < n
        invariant
            i <= n,
            off + n <= old(data)@.len(),
            old(data)@.len() <= usize::MAX,
            data@ == spec_splice(old(data)@, off as int, zeros(i as nat)),
        decreases n - i,
    {
        data[off + i] = 0;
        i = i + 1;
        assert(data@ =~= spec_splice(old(data)@, off as int, zeros(i as nat)));
    }
}

/// The writer's walk over the entry list: lowest value offset and end of
/// the list.
fn value_layout(data: &[u8], first: usize, end: usize) -> (r: (usize, usize))
    requires
        first <= end <= data@.len(),
        data@.len() + 1024 <= usize::MAX,
    ensures
        (r.0 as int, r.1 as int) == spec_layout(data@, end as int, first as int, end as int, first as int),
        r.0 <= end,
        r.1 <= end,
{
    let mut min_offs = end;
    let mut last = first;
    let mut off = first;
    let ghost target = spec_layout(data@, end as int, first as int, end as int, first as int);
    loop
        invariant
            first <= end <= data@.len(),
            data@.len() + 1024 <= usize::MAX,
            off <= end + 300,
            min_offs <= end,
            last <= end,
            spec_layout(data@, end as int, off as int, min_offs as int, last as int) == target,
        ensures
            (min_offs as int, last as int) == target,
            min_offs <= end,
            last <= end,
        decreases end + 300 - off,
    {
        if off > end || end - off < 4 {
            break;
        }
        if read_u32_le(data, off) == 0 {
            last = off;
            break;
        }
        if end - off < 16 {
            break;
        }
        let e = ext4_xattr_entry::read_at(data, off);
        if e.e_value_size > 0 && (e.e_value_offs as usize) < min_offs {
            min_offs = e.e_value_offs as usize;
        }
        last = off;
        off = next_entry_offset(off, e.e_name_len as usize);
    }
    (min_offs, last)
}

/// Adds `delta` to the value offset of every entry from `first` on whose
/// offset is non-zero and below `limit`.
fn shift_value_offsets(data: &mut [u8], first: usize, end: usize, limit: usize, delta: u64)
    requires
        first <= end <= old(data)@.len(),
        old(data)@.len() + 1024 <= usize::MAX,
        delta + 0x10000 <= u64::MAX,
    ensures
        final(data)@.len() == old(data)@.len(),
        final(data)@ == spec_shift_offsets(old(data)@, end as int, first as int, limit as int, delta as int),
{
    let mut off = first;
    let ghost target = spec_shift_offsets(data@, end as int, first as int, limit as int, delta as int);
    loop
        invariant
            first <= end <= data@.len(),
            data@.len() == old(data)@.len(),
            data@.len() + 1024 <= usize::MAX,
            delta + 0x10000 <= u64::MAX,
            off <= end + 300,
            spec_shift_offsets(data@, end as int, off as int, limit as int, delta as int) == target,
            target == spec_shift_offsets(old(data)@, end as int, first as int, limit as int, delta as int),
        ensures
            data@ == target,
        decreases end + 300 - off,
    {
        if off > end || end - off < 4 {
            break;
        }
        if read_u32_le(data, off) == 0 {
            break;
        }
        if end - off < 16 {
            break;
        }
        let e = ext4_xattr_entry::read_at(data, off);
        let offs = e.e_value_offs as usize;
        if offs > 0 && offs < limit {
            let new_offs = (e.e_value_offs as u64 + delta) as u16;
            write_u16_le(data, off + 2, new_offs);
        }
        off = next_entry_offset(off, e.e_name_len as usize);
    }
}


/// Removes the value of `a` bytes at `old_off` from the value area whose
/// lowest value is at `floor`.
fn drop_value(data: &mut [u8], first: usize, end: usize, floor: usize, old_off: usize, a: usize)
    requires
        first <= end <= old(data)@.len(),
        old(data)@.len() + 0x10000 <= usize::MAX,
        floor + a <= old(data)@.len(),
        old_off > floor ==> old_off + a <= old(data)@.len(),
    ensures
        final(data)@.len() == old(data)@.len(),
        final(data)@ == spec_drop_value(old(data)@, first as int, end as int, floor as int, old_off as int, a as int),
{
    if old_off > floor {
        move_bytes(data, floor, floor + a, old_off - floor);
        assert(old(data)@.subrange(floor as int, floor + (old_off - floor)) =~= old(data)@.subrange(floor as int, old_off as int));
    }
    fill_zero(data, floor, a);
    shift_value_offsets(data, first, end, old_off, a as u64);
}

/// Stores value `v` for the found entry, or as a new entry at `last`.
fn put_entry(data: &mut [u8], found: Option<usize>, last: usize, end: usize, floor: usize, idx: u8, name: &[u8], v: &[u8])
    requires
        end <= old(data)@.len(),
        old(data)@.len() + 1024 <= usize::MAX,
        name@.len() + 1024 <= usize::MAX,
        v@.len() + 1024 <= usize::MAX,
        floor <= old(data)@.len(),
        v@.len() > 0 ==> floor >= spec_value_size(v@.len() as int),
        found matches Some(eo) ==> eo + 16 <= end,
        found is None ==> last + 16 + name@.len() <= old(data)@.len(),
    ensures
        final(data)@.len() == old(data)@.len(),
        final(data)@ == spec_put(old(data)@, match found { Some(eo) => Some(eo as int), None => None }, last as int, end as int, floor as int, idx, name@, v@),
{
    let vlen = v.len();
    let vo: usize = if vlen > 0 { floor - value_size(vlen) } else { 0 };
    match found {
        Some(eo) => {
            write_u16_le(data, eo + 2, vo as u16);
            write_u32_le(data, eo + 8, vlen as u32);
        },
        None => {
            let e = ext4_xattr_entry {
                e_name_len: name.len() as u8,
                e_name_index: idx,
                e_value_offs: vo as u16,
                e_value_block: 0,
                e_value_size: vlen as u32,
                e_hash: 0,
            };
            e.write_at(data, last);
            write_bytes_at(data, last + 16, name);
            let next = last + entry_len(name.len());
            if next <= end && end - next >= 4 {
                fill_zero(data, next, 4);
            }
        },
    }
    if vo > 0 && vlen > 0 {
        write_bytes_at(data, vo, v);
        let aligned = value_size(vlen);
        fill_zero(data, vo + vlen, aligned - vlen);
    }
}

/// Removes the entry at `eo` from a list whose terminator is at `last`.
fn unlink_entry(data: &mut [u8], eo: usize, last: usize)
    requires
        eo < old(data)@.len(),
        old(data)@.len() + 1024 <= usize::MAX,
        eo + spec_entry_len(old(data)@[eo as int] as int) <= last + 4,
        last + 4 <= old(data)@.len(),
    ensures
        final(data)@ == spec_unlink(old(data)@, eo as int, last as int),
{
    let total = entry_len(data[eo] as usize);
    let next = eo + total;
    let mv = last + 4 - next;
    if mv > 0 {
        move_bytes(data, next, eo, mv);
    }
    fill_zero(data, eo + mv, total);
}



/// The found-entry triple that a search reports for the spec-level result.
pub open spec fn spec_found_triple(data: Seq<u8>, found: Option<int>) -> Option<(usize, usize, u32)> {
    match found {
        None => None,
        Some(off) => {
            let e = ext4_xattr_entry::spec_at(data, off);
            Some((off as usize, (if e.e_value_size > 0 { e.e_value_offs as usize } else { 0usize }), e.e_value_size))
        },
    }
}

/// First change of an edit: the found entry's old value leaves the value
/// area. Returns the new floor of the value area.
fn drop_old_value(
    data: &mut [u8],
    first_offset: usize,
    end_offset: usize,
    found: Option<(usize, usize, u32)>,
    fs: Ghost<Option<int>>,
    min_offs: usize,
    last: usize,
) -> (floor: usize)
    requires
        first_offset <= end_offset <= old(data)@.len(),
        old(data)@.len() + 0x10000 <= usize::MAX,
        found == spec_found_triple(old(data)@, fs@),
        found matches Some(t) ==> t.0 + 16 <= end_offset,
        (min_offs as int, last as int) == spec_layout(old(data)@, end_offset as int, first_offset as int, end_offset as int, first_offset as int),
        min_offs <= end_offset,
        spec_dropped_size(old(data)@, fs@) > 0 ==> {
            let o = ext4_xattr_entry::spec_at(old(data)@, fs@->0).e_value_offs as int;
            let a = spec_dropped_size(old(data)@, fs@);
            &&& min_offs + a <= old(data)@.len()
            &&& (o > min_offs ==> o + a <= old(data)@.len())
        },
    ensures
        final(data)@ == spec_after_drop(old(data)@, first_offset as int, end_offset as int, fs@),
        floor == min_offs + spec_dropped_size(old(data)@, fs@),
        floor <= old(data)@.len(),
        final(data)@.len() == old(data)@.len(),
{
    match found {
        Some((eo, old_value_offset, old_value_size)) => {
            if old_value_offset > 0 && old_value_size > 0 {
                let aligned = value_size(old_value_size as usize);
                drop_value(data, first_offset, end_offset, min_offs, old_value_offset, aligned);
                min_offs + aligned
            } else {
                min_offs
            }
        },
        None => min_offs,
    }
}

/// The changes of an edit that has room and is not a dry run.
fn apply_edit(
    data: &mut [u8],
    first_offset: usize,
    end_offset: usize,
    name_index: u8,
    name: &[u8],
    value: Option<&[u8]>,
    found: Option<(usize, usize, u32)>,
    min_offs: usize,
    last: usize,
)
    requires
        first_offset <= end_offset <= old(data)@.len(),
        old(data)@.len() + 0x10000 <= usize::MAX,
        name@.len() + 1024 <= usize::MAX,
        value matches Some(v) ==> v@.len() + 1024 <= usize::MAX,
        found == spec_found_triple(old(data)@, spec_edit_target(old(data)@, first_offset as int, end_offset as int, name_index, name@)),
        found matches Some(t) ==> t.0 + 16 <= end_offset,
        (min_offs as int, last as int) == spec_layout(old(data)@, end_offset as int, first_offset as int, end_offset as int, first_offset as int),
        min_offs <= end_offset,
        last <= end_offset,
        spec_set_in_bounds(old(data)@, first_offset as int, end_offset as int, name_index, name@, spec_opt_view(value)),
    ensures
        final(data)@ == spec_set_entry(old(data)@, first_offset as int, end_offset as int, name_index, name@, spec_opt_view(value)),
{
    let ghost d = data@;
    let ghost fs = spec_edit_target(d, first_offset as int, end_offset as int, name_index, name@);
    proof {
        reveal(spec_set_in_bounds);
        lemma_find_bounds(d.take(end_offset as int), end_offset as int, first_offset as int, name_index, name@);
    }
    let floor = drop_old_value(data, first_offset, end_offset, found, Ghost(fs), min_offs, last);
    let ghost dropped = data@;
    match value {
        Some(v) => {
            let target = match found {
                Some((eo, _, _)) => Some(eo),
                None => None,
            };
            put_entry(data, target, last, end_offset, floor, name_index, name, v);
            proof {
                reveal(spec_set_entry);
            }
        },
        None => {
            match found {
                Some((eo, _, _)) => {
                    unlink_entry(data, eo, last);
                },
                None => {},
            }
            proof {
                reveal(spec_set_entry);
            }
        },
    }
}

/// Stores (`Some`) or removes (`None`) the attribute with namespace
/// `name_index` and name `name` in the area `data[..end_offset]` whose
/// entries start at `first_offset`. With `dry_run` only the room is
/// checked.
///
/// Removing an attribute that is not there succeeds and changes nothing.
/// A value that does not fit in the free space, counting the space of the
/// entry it replaces, gives `NoSpace` and changes nothing.
#[verifier::spinoff_prover]
#[verifier::rlimit(50)]
pub fn set_entry_in_memory(
    data: &mut [u8],
    first_offset: usize,
    end_offset: usize,
    name_index: u8,
    name: &[u8],
    value: Option<&[u8]>,
    dry_run: bool,
) -> (r: Result<()>)
    requires
        end_offset <= old(data)@.len(),
        old(data)@.len() + 0x10000 <= usize::MAX,
        name@.len() + 1024 <= usize::MAX,
        value matches Some(v) ==> name@.len() + v@.len() + 1024 <= usize::MAX,
        spec_set_writes(old(data)@, first_offset as int, end_offset as int, name_index, name@, spec_opt_view(value), dry_run)
            ==> spec_set_in_bounds(old(data)@, first_offset as int, end_offset as int, name_index, name@, spec_opt_view(value)),
    ensures
        ({
            let d = old(data)@;
            let first = first_offset as int;
            let end = end_offset as int;
            let found = spec_edit_target(d, first, end, name_index, name@);
            let vs = spec_opt_view(value);
            if vs is None && found is None {
                r is Ok && final(data)@ == d
            } else if vs is Some && spec_free(d, first, end, found) < spec_required(name@.len() as int, vs->0.len() as int) {
                &&& r matches Err(e) && e.spec_kind() == ErrorKind::NoSpace
                &&& final(data)@ == d
            } else if dry_run {
                r is Ok && final(data)@ == d
            } else {
                r is Ok && final(data)@ == spec_set_entry(d, first, end, name_index, name@, vs)
            }
        }),
{
    let ghost d = data@;
    let name_len = name.len();
    proof {
        lemma_find_bounds(d.take(end_offset as int), end_offset as int, first_offset as int, name_index, name@);
    }
    if first_offset > end_offset {
        reveal(spec_free);
        assert(spec_layout(d, end_offset as int, first_offset as int, end_offset as int, first_offset as int)
            == (end_offset as int, first_offset as int));
        return match value {
            None => Ok(()),
            Some(_) => Err(Error::new(ErrorKind::NoSpace, "no space for xattr entry")),
        };
    }
    let found = {
        let area = vstd::slice::slice_subrange(&*data, 0, end_offset);
        let mut search = XattrSearch::new(area, first_offset);
        search.find_entry(name_index, name)
    };
    assert(d.subrange(0, end_offset as int) =~= d.take(end_offset as int));
    let ghost fs = spec_edit_target(d, first_offset as int, end_offset as int, name_index, name@);
    assert(found == spec_found_triple(d, fs));
    if value.is_none() && found.is_none() {
        return Ok(());
    }
    let (min_offs, last) = value_layout(data, first_offset, end_offset);
    let base: usize = if min_offs > last && min_offs - last > 4 { min_offs - last - 4 } else { 0 };
    let extra: u64 = match found {
        Some((eo, _, old_value_size)) => {
            let e = ext4_xattr_entry::read_at(data, eo);
            value_size_u64(old_value_size as u64) + entry_len(e.e_name_len as usize) as u64
        },
        None => 0,
    };
    proof {
        reveal(spec_free);
        assert(spec_free(d, first_offset as int, end_offset as int, fs) == base + extra);
    }
    match value {
        Some(v) => {
            let required = value_size_u64(v.len() as u64) + entry_len(name_len) as u64;
            if required > extra && (base as u64) < required - extra {
                return Err(Error::new(ErrorKind::NoSpace, "no space for xattr entry"));
            }
        },
        None => {},
    }
    if dry_run {
        return Ok(());
    }
    apply_edit(data, first_offset, end_offset, name_index, name, value, found, min_offs, last);
    Ok(())
}

/// Whether `set_entry_in_memory` may be called for this edit without a
/// dry run: an edit that changes the area keeps every byte it moves or
/// writes inside `data`.
pub fn edit_allowed(
    data: &[u8],
    first_offset: usize,
    end_offset: usize,
    name_index: u8,
    name: &[u8],
    value: Option<&[u8]>,
) -> (r: bool)
    requires
        end_offset <= data@.len(),
        data@.len() + 0x10000 <= usize::MAX,
        name@.len() + 1024 <= usize::MAX,
        value matches Some(v) ==> name@.len() + v@.len() + 1024 <= usize::MAX,
    ensures
        r == (spec_set_writes(data@, first_offset as int, end_offset as int, name_index, name@, spec_opt_view(value), false)
            ==> spec_set_in_bounds(data@, first_offset as int, end_offset as int, name_index, name@, spec_opt_view(value))),
{
    if edit_in_bounds(data, first_offset, end_offset, name_index, name, value) {
        return true;
    }
    proof {
        reveal(spec_set_in_bounds);
    }
    let mut copy = vstd::slice::slice_to_vec(data);
    let dry = set_entry_in_memory(copy.as_mut_slice(), first_offset, end_offset, name_index, name, value, true);
    dry.is_err()
}

/// Whether storing (`Some`) or removing (`None`) the attribute would keep
/// every byte the edit moves or writes inside `data`: the condition under
/// which `set_entry_in_memory` may be called on an area read from disk.
#[verifier::spinoff_prover]
#[verifier::rlimit(50)]
pub fn edit_in_bounds(
    data: &[u8],
    first_offset: usize,
    end_offset: usize,
    name_index: u8,
    name: &[u8],
    value: Option<&[u8]>,
) -> (r: bool)
    requires
        end_offset <= data@.len(),
        data@.len() + 0x10000 <= usize::MAX,
        value matches Some(v) ==> v@.len() + 1024 <= usize::MAX,
    ensures
        r == spec_set_in_bounds(data@, first_offset as int, end_offset as int, name_index, name@, spec_opt_view(value)),
{
    let ghost d = data@;
    let ghost first = first_offset as int;
    let ghost end = end_offset as int;
    proof {
        reveal(spec_set_in_bounds);
        lemma_find_bounds(d.take(end), end, first, name_index, name@);
    }
    let found: Option<(usize, usize, u32)> = if first_offset > end_offset {
        None
    } else {
        let area = vstd::slice::slice_subrange(data, 0, end_offset);
        let mut search = XattrSearch::new(area, first_offset);
        search.find_entry(name_index, name)
    };
    assert(d.subrange(0, end) =~= d.take(end));
    let ghost fs = spec_edit_target(d, first, end, name_index, name@);
    assert(found == spec_found_triple(d, fs));
    let (m, last) = if first_offset > end_offset {
        (end_offset, first_offset)
    } else {
        value_layout(data, first_offset, end_offset)
    };
    assert((m as int, last as int) == spec_layout(d, end, first, end, first));
    let (a, o): (u64, usize) = match found {
        Some((_, vo, vsz)) => {
            if vo > 0 && vsz > 0 {
                (value_size_u64(vsz as u64), vo)
            } else {
                (0, 0)
            }
        },
        None => (0, 0),
    };
    assert(a == spec_dropped_size(d, fs));
    if a > 0 {
        if a > (data.len() - m) as u64 {
            return false;
        }
        if o > m && (o as u64) + a > data.len() as u64 {
            return false;
        }
    }
    let floor: u64 = m as u64 + a;
    match value {
        Some(v) => {
            if v.len() > 0 && floor < value_size_u64(v.len() as u64) {
                return false;
            }
            if found.is_none() && (last > data.len() || data.len() - last < 16 || data.len() - last - 16 < name.len()) {
                return false;
            }
            true
        },
        None => match found {
            Some((eo, _, _)) => {
                let mut copy = vstd::slice::slice_to_vec(data);
                let _ = drop_old_value(copy.as_mut_slice(), first_offset, end_offset, found, Ghost(fs), m, last);
                assert(copy@ == spec_after_drop(d, first, end, fs));
                let total = entry_len(copy[eo] as usize);
                if last > data.len() || data.len() - last < 4 {
                    return false;
                }
                eo + total <= last + 4
            },
            None => true,
        },
    }
}


/// Whether the entry list walks from `off` to `target` through entries
/// that each lie, with their names, inside `data[..end]`.
pub open spec fn spec_walk_to(data: Seq<u8>, end: int, off: int, target: int) -> bool
    decreases end + 300 - off,
{
    if off == target {
        true
    } else if off < 0 || off > target || off + 16 > end || u32_at(data, off) == 0 {
        false
    } else {
        let nlen = data[off] as int;
        proof {
            assert(spec_entry_len(nlen) >= 16);
        }
        off + 16 + nlen <= end && spec_walk_to(data, end, off + spec_entry_len(nlen), target)
    }
}

/// The writer's walk stays inside the area and never raises the floor.
proof fn lemma_layout_bounds(data: Seq<u8>, end: int, off: int, min_offs: int, last: int)
    requires
        0 <= off,
        min_offs <= end,
        last <= end,
    ensures
        spec_layout(data, end, off, min_offs, last).0 <= min_offs,
        spec_layout(data, end, off, min_offs, last).1 <= end,
        spec_layout(data, end, off, min_offs, last).1 >= 0 || spec_layout(data, end, off, min_offs, last).1 == last,
    decreases end + 300 - off,
{
    if off < 0 || off + 4 > end {
    } else if u32_at(data, off) == 0 {
    } else if off + 16 > end {
    } else {
        let e = ext4_xattr_entry::spec_at(data, off);
        let m = if e.e_value_size > 0 && (e.e_value_offs as int) < min_offs {
            e.e_value_offs as int
        } else {
            min_offs
        };
        assert(spec_entry_len(e.e_name_len as int) >= 16);
        lemma_layout_bounds(data, end, off + spec_entry_len(e.e_name_len as int), m, off);
    }
}

/// Two areas that agree on the bytes of an intact entry list from `off`
/// to `target` give the same search result there, once the first finds
/// nothing before `target`.
proof fn lemma_find_agree(d1: Seq<u8>, d2: Seq<u8>, end: int, off: int, target: int, idx: u8, name: Seq<u8>)
    requires
        end <= d1.len(),
        end <= d2.len(),
        target <= end,
        spec_walk_to(d1, end, off, target),
        forall|i: int| off <= i < target ==> d1[i] == d2[i],
        spec_find(d1.take(end), end, off, idx, name) is None,
    ensures
        spec_find(d2.take(end), end, off, idx, name) == spec_find(d2.take(end), end, target, idx, name),
    decreases end + 300 - off,
{
    if off == target {
    } else {
        let t1 = d1.take(end);
        let t2 = d2.take(end);
        let nlen = d1[off] as int;
        let next = off + spec_entry_len(nlen);
        assert(spec_entry_len(nlen) >= 16 + nlen);
        assert(next <= target) by {
            lemma_walk_ends_after(d1, end, next, target);
        }
        assert(t1[off] == t2[off] && t1[off + 1] == t2[off + 1] && t1[off + 2] == t2[off + 2] && t1[off + 3] == t2[off + 3]);
        assert(u32_at(t1, off) == u32_at(t2, off));
        assert(u32_at(t1, off) == u32_at(d1, off));
        assert(t1.subrange(off + 16, off + 16 + nlen) =~= t2.subrange(off + 16, off + 16 + nlen));
        assert(ext4_xattr_entry::spec_at(t1, off).e_name_index == ext4_xattr_entry::spec_at(t2, off).e_name_index);
        lemma_find_agree(d1, d2, end, next, target, idx, name);
    }
}

/// A walk that reaches `target` starts at or before it.
pub(crate) proof fn lemma_walk_ends_after(data: Seq<u8>, end: int, off: int, target: int)
    requires
        spec_walk_to(data, end, off, target),
    ensures
        off <= target,
    decreases end + 300 - off,
{
    if off == target {
    } else {
        let nlen = data[off] as int;
        assert(spec_entry_len(nlen) >= 16);
        lemma_walk_ends_after(data, end, off + spec_entry_len(nlen), target);
    }
}


/// Storing a new attribute in an area whose entry list is intact up to
/// where it ends, with room for it: a search for the attribute then finds
/// it where the list ended, with the stored value's offset and size, and
/// the value's bytes are at that offset.
#[verifier::rlimit(80)]
#[verifier::spinoff_prover]
pub proof fn lemma_set_then_find(data: Seq<u8>, first: int, end: int, idx: u8, name: Seq<u8>, v: Seq<u8>)
    requires
        0 <= first <= end <= data.len(),
        end <= 0x10000,
        0 < name.len() < 256,
        v.len() <= 0xffff_ffff,
        spec_edit_target(data, first, end, idx, name) is None,
        spec_free(data, first, end, None) >= spec_required(name.len() as int, v.len() as int),
        spec_walk_to(data, end, first, spec_layout(data, end, first, end, first).1),
    ensures
        ({
            let stored = spec_set_entry(data, first, end, idx, name, Some(v));
            let last = spec_layout(data, end, first, end, first).1;
            let vo = spec_new_value_offset(spec_layout(data, end, first, end, first).0, v.len() as int);
            let e = ext4_xattr_entry::spec_at(stored, last);
            &&& spec_edit_target(stored, first, end, idx, name) == Some(last)
            &&& e.e_value_size == v.len()
            &&& e.e_value_offs == vo
            &&& stored.subrange(vo, vo + v.len()) == v
        }),
{
    reveal(spec_set_entry);
    reveal(spec_free);
    let (m, last) = spec_layout(data, end, first, end, first);
    lemma_layout_bounds(data, end, first, end, first);
    lemma_walk_ends_after(data, end, first, last);
    let nl = name.len() as int;
    let vl = v.len() as int;
    let elen = spec_entry_len(nl);
    let vs = spec_value_size(vl);
    assert(elen >= 16 + nl);
    assert(vs >= vl);
    assert(m - last - 4 >= vs + elen);
    let vo = spec_new_value_offset(m, vl);
    assert(spec_after_drop(data, first, end, None) == data);
    assert(spec_dropped_size(data, None) == 0);
    let e = spec_new_entry(nl, idx, vo, vl);
    let hdr = e.spec_to_bytes();
    assert(hdr.len() == 16);
    let d1 = spec_splice(data, last, hdr);
    let d2 = spec_splice(d1, last + 16, name);
    let next = last + elen;
    let d3 = if next + 4 <= end { spec_splice(d2, next, zeros(4)) } else { d2 };
    let d4 = if vo > 0 && vl > 0 {
        spec_splice(spec_splice(d3, vo, v), vo + vl, zeros((vs - vl) as nat))
    } else {
        d3
    };
    let stored = spec_set_entry(data, first, end, idx, name, Some(v));
    assert(stored == d4);
    assert(d4.len() == data.len());
    // Nothing before `last` changes.
    assert forall|i: int| first <= i < last implies data[i] == d4[i] by {
        assert(d1[i] == data[i]);
        assert(d2[i] == d1[i]);
        assert(d3[i] == d2[i]);
    }
    lemma_find_agree(data, d4, end, first, last, idx, name);
    // The new entry at `last`.
    let t4 = d4.take(end);
    assert forall|k: int| 0 <= k < 16 implies d4[last + k] == hdr[k] by {
        assert(d1[last + k] == hdr[k]);
        assert(d2[last + k] == d1[last + k]);
        assert(d3[last + k] == d2[last + k]);
    }
    assert forall|k: int| 0 <= k < nl implies d4[last + 16 + k] == name[k] by {
        assert(d2[last + 16 + k] == name[k]);
        assert(d3[last + 16 + k] == d2[last + 16 + k]);
    }
    assert(t4.subrange(last + 16, last + 16 + nl) =~= name);
    let b0 = d4[last];
    let b1 = d4[last + 1];
    let b2 = d4[last + 2];
    let b3 = d4[last + 3];
    assert(b0 == nl as u8);
    assert(b0 != 0);
    assert(((b0 as u32) | ((b1 as u32) << 8u32) | ((b2 as u32) << 16u32) | ((b3 as u32) << 24u32)) != 0) by (bit_vector)
        requires
            b0 != 0,
    ;
    assert(u32_at(t4, last) != 0);
    let got = ext4_xattr_entry::spec_at(d4, last);
    assert(d4.subrange(last, last + 16) =~= hdr);
    lemma_entry_roundtrip(e, d4, last);
    assert(got == e);
    assert(ext4_xattr_entry::spec_at(t4, last) == got);
    assert(spec_find(t4, end, last, idx, name) == Some(last));
    // The value.
    if vl > 0 {
        assert(vo >= next + 4);
        assert(d4.subrange(vo, vo + vl) =~= v);
    } else {
        assert(d4.subrange(vo, vo + vl) =~= v);
    }
}

/// Reading back an entry header written at `off` gives the entry.
proof fn lemma_entry_roundtrip(e: ext4_xattr_entry, data: Seq<u8>, off: int)
    requires
        0 <= off,
        off + 16 <= data.len(),
        data.subrange(off, off + 16) == e.spec_to_bytes(),
    ensures
        ext4_xattr_entry::spec_at(data, off) == e,
{
    let b = e.spec_to_bytes();
    crate::bytes::lemma_u16_roundtrip(e.e_value_offs);
    crate::bytes::lemma_u32_roundtrip(e.e_value_block);
    crate::bytes::lemma_u32_roundtrip(e.e_value_size);
    crate::bytes::lemma_u32_roundtrip(e.e_hash);
    assert(data[off] == b[0]);
    assert(data[off + 1] == b[1]);
    assert(b.subrange(2, 4) =~= le16(e.e_value_offs));
    assert(b.subrange(4, 8) =~= le32(e.e_value_block));
    assert(b.subrange(8, 12) =~= le32(e.e_value_size));
    assert(b.subrange(12, 16) =~= le32(e.e_hash));
    assert(crate::bytes::u16_at(data, off + 2) == crate::bytes::u16_at(le16(e.e_value_offs), 0)) by {
        assert(data[off + 2] == b[2] && data[off + 3] == b[3]);
    }
    assert(u32_at(data, off + 4) == u32_at(le32(e.e_value_block), 0)) by {
        assert(data[off + 4] == b[4] && data[off + 5] == b[5] && data[off + 6] == b[6] && data[off + 7] == b[7]);
    }
    assert(u32_at(data, off + 8) == u32_at(le32(e.e_value_size), 0)) by {
        assert(data[off + 8] == b[8] && data[off + 9] == b[9] && data[off + 10] == b[10] && data[off + 11] == b[11]);
    }
    assert(u32_at(data, off + 12) == u32_at(le32(e.e_hash), 0)) by {
        assert(data[off + 12] == b[12] && data[off + 13] == b[13] && data[off + 14] == b[14] && data[off + 15] == b[15]);
    }
}

/// A four-byte word is zero exactly when its bytes are.
proof fn lemma_u32_zero_iff(s: Seq<u8>, i: int)
    requires
        0 <= i,
        i + 4 <= s.len(),
    ensures
        (u32_at(s, i) == 0) <==> (s[i] == 0 && s[i + 1] == 0 && s[i + 2] == 0 && s[i + 3] == 0),
{
    let b0 = s[i];
    let b1 = s[i + 1];
    let b2 = s[i + 2];
    let b3 = s[i + 3];
    assert((((b0 as u32) | ((b1 as u32) << 8u32) | ((b2 as u32) << 16u32) | ((b3 as u32) << 24u32)) == 0)
        <==> (b0 == 0 && b1 == 0 && b2 == 0 && b3 == 0)) by (bit_vector);
}

/// A search from `off` reads nothing before `off`.
proof fn lemma_find_suffix(t1: Seq<u8>, t2: Seq<u8>, end: int, off: int, idx: u8, name: Seq<u8>)
    requires
        t1.len() == t2.len(),
        end <= t1.len(),
        forall|k: int| 0 <= k && off <= k < t1.len() ==> t1[k] == t2[k],
    ensures
        spec_find(t1, end, off, idx, name) == spec_find(t2, end, off, idx, name),
    decreases end + 300 - off,
{
    if off + 16 > end || off < 0 {
    } else if off + 4 > t1.len() {
    } else {
        assert(u32_at(t1, off) == u32_at(t2, off)) by {
            assert(t1[off] == t2[off] && t1[off + 1] == t2[off + 1] && t1[off + 2] == t2[off + 2] && t1[off + 3] == t2[off + 3]);
        }
        if crate::xattr::search::spec_is_last(t1, off) {
        } else {
            let e = ext4_xattr_entry::spec_at(t1, off);
            assert(t1[off] == t2[off] && t1[off + 1] == t2[off + 1]);
            let nlen = e.e_name_len as int;
            if off + 16 + nlen <= t1.len() {
                assert(t1.subrange(off + 16, off + 16 + nlen) =~= t2.subrange(off + 16, off + 16 + nlen));
            }
            assert(spec_entry_len(nlen) >= 16);
            lemma_find_suffix(t1, t2, end, off + spec_entry_len(nlen), idx, name);
        }
    }
}

/// Shifting value offsets from `off` on leaves the bytes before `off`
/// and the length as they were.
proof fn lemma_shift_prefix(d: Seq<u8>, end: int, off: int, limit: int, delta: int)
    requires
        end <= d.len(),
    ensures
        spec_shift_offsets(d, end, off, limit, delta).len() == d.len(),
        forall|k: int| 0 <= k < off ==> #[trigger] spec_shift_offsets(d, end, off, limit, delta)[k] == d[k],
    decreases end + 300 - off,
{
    if off < 0 || off + 4 > end || u32_at(d, off) == 0 || off + 16 > end {
    } else {
        let e = ext4_xattr_entry::spec_at(d, off);
        let d2 = if e.e_value_offs > 0 && (e.e_value_offs as int) < limit {
            spec_splice(d, off + 2, le16((e.e_value_offs + delta) as u16))
        } else {
            d
        };
        assert(spec_entry_len(e.e_name_len as int) >= 16);
        lemma_shift_prefix(d2, end, off + spec_entry_len(e.e_name_len as int), limit, delta);
    }
}

/// Shifting value offsets by `delta`, with no offset wrapping past 16
/// bits, changes nothing a search reads.
proof fn lemma_find_shift(d: Seq<u8>, end: int, off: int, limit: int, delta: int, idx: u8, name: Seq<u8>)
    requires
        0 <= end <= d.len(),
        delta >= 0,
        limit + delta <= 0x10000,
    ensures
        spec_find(spec_shift_offsets(d, end, off, limit, delta).take(end), end, off, idx, name)
            == spec_find(d.take(end), end, off, idx, name),
    decreases end + 300 - off,
{
    let sh = spec_shift_offsets(d, end, off, limit, delta);
    lemma_shift_prefix(d, end, off, limit, delta);
    if off < 0 || off + 4 > end || u32_at(d, off) == 0 || off + 16 > end {
        assert(sh == d);
        assert(sh.take(end) == d.take(end));
    } else {
        let e = ext4_xattr_entry::spec_at(d, off);
        let changed = e.e_value_offs > 0 && (e.e_value_offs as int) < limit;
        let new_offs = (e.e_value_offs + delta) as u16;
        let d2 = if changed { spec_splice(d, off + 2, le16(new_offs)) } else { d };
        let next = off + spec_entry_len(e.e_name_len as int);
        assert(spec_entry_len(e.e_name_len as int) >= 16 + e.e_name_len);
        assert(sh == spec_shift_offsets(d2, end, next, limit, delta));
        lemma_shift_prefix(d2, end, next, limit, delta);
        lemma_find_shift(d2, end, next, limit, delta, idx, name);
        // From `next` on, `d2` is `d`.
        assert forall|k: int| 0 <= k && next <= k < d.take(end).len() implies d2.take(end)[k] == d.take(end)[k] by {
            if changed {
                assert(d2[k] == d[k]);
            }
        }
        lemma_find_suffix(d2.take(end), d.take(end), end, next, idx, name);
        // At `off`, the entry reads the same, and stays a non-terminator.
        let t1 = d.take(end);
        let t2 = sh.take(end);
        assert(t2[off] == d2[off] && t2[off + 1] == d2[off + 1]);
        assert(d2[off] == d[off] && d2[off + 1] == d[off + 1]);
        lemma_u32_zero_iff(t1, off);
        lemma_u32_zero_iff(t2, off);
        lemma_u32_zero_iff(d, off);
        if changed {
            assert(new_offs > 0);
            assert(t2[off + 2] == d2[off + 2] && t2[off + 3] == d2[off + 3]);
            assert(d2[off + 2] == le16(new_offs)[0] && d2[off + 3] == le16(new_offs)[1]);
            assert(le16(new_offs)[0] != 0 || le16(new_offs)[1] != 0) by {
                assert((new_offs & 0xff) as u8 != 0 || (new_offs >> 8u16) as u8 != 0) by (bit_vector)
                    requires
                        new_offs > 0,
                ;
            }
        } else {
            assert(t2[off + 2] == d[off + 2] && t2[off + 3] == d[off + 3]);
        }
        assert(u32_at(t1, off) != 0);
        assert(u32_at(t2, off) != 0);
        let nlen = e.e_name_len as int;
        if off + 16 + nlen <= end {
            assert forall|k: int| off + 16 <= k < off + 16 + nlen implies t2[k] == t1[k] by {
                assert(t2[k] == d2[k]);
            }
            assert(t2.subrange(off + 16, off + 16 + nlen) =~= t1.subrange(off + 16, off + 16 + nlen));
        }
        assert(ext4_xattr_entry::spec_at(t2, off).e_name_len == e.e_name_len);
        assert(ext4_xattr_entry::spec_at(t2, off).e_name_index == e.e_name_index);
        assert(ext4_xattr_entry::spec_at(t1, off).e_name_len == e.e_name_len);
        assert(ext4_xattr_entry::spec_at(t1, off).e_name_index == e.e_name_index);
    }
}

/// A search that finds `x` finds it again in an area that agrees on the
/// entries before `x`, on `x`'s name length, namespace and name, and in
/// which `x` is not a terminator.
proof fn lemma_find_found_agree(t1: Seq<u8>, t2: Seq<u8>, end: int, off: int, x: int, idx: u8, name: Seq<u8>)
    requires
        t1.len() == t2.len(),
        spec_find(t1, end, off, idx, name) == Some(x),
        forall|k: int| off <= k < x ==> t1[k] == t2[k],
        t2[x] == t1[x],
        t2[x + 1] == t1[x + 1],
        x + 16 + name.len() <= t2.len() ==> t2.subrange(x + 16, x + 16 + name.len()) == name,
        u32_at(t2, x) != 0,
    ensures
        spec_find(t2, end, off, idx, name) == Some(x),
    decreases end + 300 - off,
{
    lemma_find_bounds(t1, end, off, idx, name);
    if off == x {
        assert(ext4_xattr_entry::spec_at(t2, x).e_name_len == ext4_xattr_entry::spec_at(t1, x).e_name_len);
    } else {
        let e = ext4_xattr_entry::spec_at(t1, off);
        let nlen = e.e_name_len as int;
        let next = off + spec_entry_len(nlen);
        assert(spec_entry_len(nlen) >= 16 + nlen);
        lemma_find_bounds(t1, end, next, idx, name);
        assert(next <= x);
        assert(u32_at(t1, off) == u32_at(t2, off)) by {
            assert(t1[off] == t2[off] && t1[off + 1] == t2[off + 1] && t1[off + 2] == t2[off + 2] && t1[off + 3] == t2[off + 3]);
        }
        assert(t1.subrange(off + 16, off + 16 + nlen) =~= t2.subrange(off + 16, off + 16 + nlen));
        assert(ext4_xattr_entry::spec_at(t2, off).e_name_len == e.e_name_len);
        assert(ext4_xattr_entry::spec_at(t2, off).e_name_index == e.e_name_index);
        lemma_find_found_agree(t1, t2, end, next, x, idx, name);
    }
}

/// On an entry list that walks to a terminator at `target`, what a search
/// finds ends before `target`.
proof fn lemma_find_before_end(d: Seq<u8>, end: int, off: int, target: int, idx: u8, name: Seq<u8>)
    requires
        end <= d.len(),
        spec_walk_to(d, end, off, target),
        0 <= target,
        target + 4 <= end ==> u32_at(d, target) == 0,
        spec_find(d.take(end), end, off, idx, name) is Some,
    ensures
        ({
            let x = spec_find(d.take(end), end, off, idx, name)->0;
            x + spec_entry_len(d[x] as int) <= target
        }),
    decreases end + 300 - off,
{
    let t = d.take(end);
    if off == target {
        if target + 4 <= end {
            assert(u32_at(t, target) == u32_at(d, target));
        }
    } else {
        let nlen = d[off] as int;
        let next = off + spec_entry_len(nlen);
        assert(spec_entry_len(nlen) >= 16);
        assert(t[off] == d[off]);
        lemma_walk_ends_after(d, end, next, target);
        if spec_find(t, end, off, idx, name) == Some(off) {
        } else {
            assert(u32_at(t, off) == u32_at(d, off));
            lemma_find_before_end(d, end, next, target, idx, name);
        }
    }
}

/// Removing the old value of the attribute found at `eo` keeps the
/// search finding it there.
#[verifier::spinoff_prover]
proof fn lemma_drop_keeps_entry(data: Seq<u8>, first: int, end: int, idx: u8, name: Seq<u8>, eo: int, m: int, last: int)
    requires
        0 <= first <= end <= data.len(),
        data.len() <= 0x10000,
        spec_edit_target(data, first, end, idx, name) == Some(eo),
        (m, last) == spec_layout(data, end, first, end, first),
        eo + 16 + name.len() <= m,
        spec_dropped_size(data, Some(eo)) > 0 ==> {
            let o = ext4_xattr_entry::spec_at(data, eo).e_value_offs as int;
            let a = spec_dropped_size(data, Some(eo));
            &&& m + a <= data.len()
            &&& (o > m ==> o + a <= data.len())
        },
    ensures
        spec_after_drop(data, first, end, Some(eo)).len() == data.len(),
        spec_find(spec_after_drop(data, first, end, Some(eo)).take(end), end, first, idx, name) == Some(eo),
{
    let t0 = data.take(end);
    lemma_find_bounds(t0, end, first, idx, name);
    let nl = name.len() as int;
    let a = spec_dropped_size(data, Some(eo));
    let d1 = spec_after_drop(data, first, end, Some(eo));
    if a > 0 {
        let e = ext4_xattr_entry::spec_at(data, eo);
        let o = e.e_value_offs as int;
        let moved = if o > m { spec_splice(data, m + a, data.subrange(m, o)) } else { data };
        let d0 = spec_splice(moved, m, zeros(a as nat));
        assert(d0.len() == data.len());
        assert forall|k: int| 0 <= k < m implies d0[k] == data[k] by {
            assert(moved[k] == data[k]);
        }
        let tz = d0.take(end);
        assert(u32_at(tz, eo) == u32_at(t0, eo)) by {
            assert(tz[eo] == t0[eo] && tz[eo + 1] == t0[eo + 1] && tz[eo + 2] == t0[eo + 2] && tz[eo + 3] == t0[eo + 3]);
        }
        assert(tz.subrange(eo + 16, eo + 16 + nl) =~= t0.subrange(eo + 16, eo + 16 + nl));
        lemma_find_found_agree(t0, tz, end, first, eo, idx, name);
        assert(o + a <= data.len());
        lemma_find_shift(d0, end, first, o, a, idx, name);
        assert(d1 == spec_shift_offsets(d0, end, first, o, a));
        lemma_shift_prefix(d0, end, first, o, a);
    } else {
        assert(d1 == data);
    }
}

/// Storing the new value for the entry at `eo`, found in `d1`, with the
/// value going at or above `bound`, past the entry and its name: the
/// search still finds the entry, which carries the new offset and size,
/// and the value's bytes are at that offset.
#[verifier::spinoff_prover]
#[verifier::rlimit(60)]
proof fn lemma_put_keeps_entry(d1: Seq<u8>, first: int, end: int, idx: u8, name: Seq<u8>, v: Seq<u8>, eo: int, last: int, floor: int)
    requires
        0 <= first <= end <= d1.len(),
        name.len() > 0 || idx != 0,
        v.len() <= 0xffff_ffff,
        spec_find(d1.take(end), end, first, idx, name) == Some(eo),
        v.len() > 0 ==> eo + 16 + name.len() + 0 <= spec_new_value_offset(floor, v.len() as int),
        v.len() > 0 ==> eo + 12 <= spec_new_value_offset(floor, v.len() as int),
        v.len() > 0 ==> spec_new_value_offset(floor, v.len() as int) + spec_value_size(v.len() as int) <= d1.len(),
        spec_new_value_offset(floor, v.len() as int) < 0x10000,
    ensures
        ({
            let stored = spec_put(d1, Some(eo), last, end, floor, idx, name, v);
            let vo = spec_new_value_offset(floor, v.len() as int);
            let e = ext4_xattr_entry::spec_at(stored, eo);
            &&& spec_find(stored.take(end), end, first, idx, name) == Some(eo)
            &&& e.e_value_size == v.len()
            &&& e.e_value_offs == vo
            &&& stored.subrange(vo, vo + v.len()) == v
        }),
{
    let t1 = d1.take(end);
    lemma_find_bounds(t1, end, first, idx, name);
    let nl = name.len() as int;
    let vl = v.len() as int;
    let vo = spec_new_value_offset(floor, vl);
    let w1 = spec_splice(spec_splice(d1, eo + 2, le16(vo as u16)), eo + 8, le32(vl as u32));
    let stored = spec_put(d1, Some(eo), last, end, floor, idx, name, v);
    assert(w1.len() == d1.len());
    assert(stored.len() == d1.len());
    assert forall|k: int| 0 <= k < stored.len() && !(eo + 2 <= k < eo + 4) && !(eo + 8 <= k < eo + 12) && !(vl > 0
        && vo <= k) implies stored[k] == d1[k] by {
        assert(w1[k] == d1[k]);
    }
    let t2 = stored.take(end);
    assert(t2[eo] == t1[eo] && t2[eo + 1] == t1[eo + 1]);
    assert(t2.subrange(eo + 16, eo + 16 + nl) =~= t1.subrange(eo + 16, eo + 16 + nl));
    lemma_u32_zero_iff(t2, eo);
    assert(t2[eo] == nl as u8);
    assert(u32_at(t2, eo) != 0);
    lemma_find_found_agree(t1, t2, end, first, eo, idx, name);
    assert(stored[eo + 2] == le16(vo as u16)[0] && stored[eo + 3] == le16(vo as u16)[1]) by {
        assert(w1[eo + 2] == le16(vo as u16)[0] && w1[eo + 3] == le16(vo as u16)[1]);
    }
    assert(stored[eo + 8] == le32(vl as u32)[0] && stored[eo + 9] == le32(vl as u32)[1]
        && stored[eo + 10] == le32(vl as u32)[2] && stored[eo + 11] == le32(vl as u32)[3]) by {
        assert(w1[eo + 8] == le32(vl as u32)[0] && w1[eo + 9] == le32(vl as u32)[1]
            && w1[eo + 10] == le32(vl as u32)[2] && w1[eo + 11] == le32(vl as u32)[3]);
    }
    crate::bytes::lemma_u16_roundtrip(vo as u16);
    crate::bytes::lemma_u32_roundtrip(vl as u32);
    assert(crate::bytes::u16_at(stored, eo + 2) == crate::bytes::u16_at(le16(vo as u16), 0));
    assert(u32_at(stored, eo + 8) == u32_at(le32(vl as u32), 0));
    assert(stored.subrange(vo, vo + vl) =~= v);
}

/// Storing a new value for an attribute that is already there, in an area
/// whose entry list is intact up to its terminator, below the values, and
/// whose entry has a value offset whenever it has a value: a search then
/// finds the attribute's entry where it was, with the new value's offset
/// and size, and the value's bytes are at that offset.
#[verifier::spinoff_prover]
#[verifier::rlimit(50)]
pub proof fn lemma_replace_then_find(data: Seq<u8>, first: int, end: int, idx: u8, name: Seq<u8>, v: Seq<u8>)
    requires
        0 <= first <= end <= data.len(),
        data.len() <= 0x10000,
        name.len() > 0 || idx != 0,
        v.len() <= 0xffff_ffff,
        spec_edit_target(data, first, end, idx, name) is Some,
        spec_walk_to(data, end, first, spec_layout(data, end, first, end, first).1),
        u32_at(data, spec_layout(data, end, first, end, first).1) == 0,
        spec_layout(data, end, first, end, first).1 + 4 <= spec_layout(data, end, first, end, first).0,
        ({
            let e = ext4_xattr_entry::spec_at(data, spec_edit_target(data, first, end, idx, name)->0);
            e.e_value_size > 0 ==> e.e_value_offs > 0
        }),
        spec_free(data, first, end, spec_edit_target(data, first, end, idx, name)) >= spec_required(
            name.len() as int,
            v.len() as int,
        ),
        spec_set_in_bounds(data, first, end, idx, name, Some(v)),
    ensures
        ({
            let found = spec_edit_target(data, first, end, idx, name);
            let stored = spec_set_entry(data, first, end, idx, name, Some(v));
            let floor = spec_layout(data, end, first, end, first).0 + spec_dropped_size(data, found);
            let vo = spec_new_value_offset(floor, v.len() as int);
            let e = ext4_xattr_entry::spec_at(stored, found->0);
            &&& spec_edit_target(stored, first, end, idx, name) == found
            &&& e.e_value_size == v.len()
            &&& e.e_value_offs == vo
            &&& stored.subrange(vo, vo + v.len()) == v
        }),
{
    let (m, last) = spec_layout(data, end, first, end, first);
    lemma_layout_bounds(data, end, first, end, first);
    let found = spec_edit_target(data, first, end, idx, name);
    let eo = found->0;
    let t0 = data.take(end);
    lemma_find_bounds(t0, end, first, idx, name);
    let e = ext4_xattr_entry::spec_at(data, eo);
    let nl = name.len() as int;
    let vl = v.len() as int;
    assert(t0[eo] == data[eo] && t0[eo + 1] == data[eo + 1]);
    lemma_find_before_end(data, end, first, last, idx, name);
    assert(spec_entry_len(nl) >= 16 + nl);
    assert(eo + 16 + nl <= m);
    let a = spec_dropped_size(data, found);
    assert(a == spec_value_size(e.e_value_size as int));
    let floor = m + a;
    let vo = spec_new_value_offset(floor, vl);
    assert(vl > 0 ==> vo >= last + 4) by {
        reveal(spec_free);
    }
    assert(spec_dropped_size(data, found) > 0 ==> {
        let o = ext4_xattr_entry::spec_at(data, eo).e_value_offs as int;
        &&& m + a <= data.len()
        &&& (o > m ==> o + a <= data.len())
    }) by {
        reveal(spec_set_in_bounds);
    }
    lemma_drop_keeps_entry(data, first, end, idx, name, eo, m, last);
    let d1 = spec_after_drop(data, first, end, found);
    assert(floor <= data.len()) by {
        reveal(spec_set_in_bounds);
    }
    lemma_put_keeps_entry(d1, first, end, idx, name, v, eo, last, floor);
    assert(spec_set_entry(data, first, end, idx, name, Some(v)) == spec_put(d1, found, last, end, floor, idx, name, v)) by {
        reveal(spec_set_entry);
    }
}

/// What a search over `data` from `off` finds lies after `off`, inside the
/// area, and carries the namespace and the name searched for.
pub proof fn lemma_find_bounds(data: Seq<u8>, end: int, off: int, idx: u8, name: Seq<u8>)
    ensures
        spec_find(data, end, off, idx, name) matches Some(x) ==> {
            &&& off <= x
            &&& x + 16 <= end
            &&& x + 16 + name.len() <= data.len()
            &&& ext4_xattr_entry::spec_at(data, x).e_name_len == name.len()
            &&& ext4_xattr_entry::spec_at(data, x).e_name_index == idx
            &&& data.subrange(x + 16, x + 16 + name.len()) == name
            &&& u32_at(data, x) != 0
        },
    decreases end + 300 - off,
{
    if off + 16 > end || off < 0 {
    } else if crate::xattr::search::spec_is_last(data, off) {
    } else {
        let e = ext4_xattr_entry::spec_at(data, off);
        let nlen = e.e_name_len as int;
        if off + 16 + nlen > data.len() {
        } else if nlen == name.len() && e.e_name_index == idx && data.subrange(off + 16, off + 16 + nlen) == name {
        } else {
            assert(spec_entry_len(nlen) >= 16);
            lemma_find_bounds(data, end, off + spec_entry_len(nlen), idx, name);
        }
    }
}


/// A walk over an entry list reads only the bytes from its start to its
/// target, inside the area.
proof fn lemma_walk_agree(d1: Seq<u8>, d2: Seq<u8>, end: int, off: int, q: int)
    requires
        spec_walk_to(d1, end, off, q),
        forall|k: int| off <= k < q && k < end ==> d1[k] == d2[k],
    ensures
        spec_walk_to(d2, end, off, q),
    decreases end + 300 - off,
{
    if off != q {
        let nlen = d1[off] as int;
        let next = off + spec_entry_len(nlen);
        assert(spec_entry_len(nlen) >= 16);
        lemma_walk_ends_after(d1, end, next, q);
        assert(u32_at(d1, off) == u32_at(d2, off)) by {
            assert(d1[off] == d2[off] && d1[off + 1] == d2[off + 1] && d1[off + 2] == d2[off + 2]
                && d1[off + 3] == d2[off + 3]);
        }
        lemma_walk_agree(d1, d2, end, next, q);
    }
}

/// A search over an entry list that walks to a terminator at `q` reads
/// only the bytes from its start to the end of the terminator.
proof fn lemma_find_agree_term(d1: Seq<u8>, d2: Seq<u8>, end: int, off: int, q: int, idx: u8, name: Seq<u8>)
    requires
        end <= d1.len(),
        end <= d2.len(),
        spec_walk_to(d1, end, off, q),
        0 <= q,
        q + 4 <= end,
        u32_at(d1, q) == 0,
        forall|k: int| off <= k < q + 4 ==> d1[k] == d2[k],
    ensures
        spec_find(d1.take(end), end, off, idx, name) == spec_find(d2.take(end), end, off, idx, name),
    decreases end + 300 - off,
{
    let t1 = d1.take(end);
    let t2 = d2.take(end);
    assert(u32_at(t1, off) == u32_at(t2, off)) by {
        if 0 <= off && off + 4 <= end {
            assert(t1[off] == t2[off] && t1[off + 1] == t2[off + 1] && t1[off + 2] == t2[off + 2]
                && t1[off + 3] == t2[off + 3]);
        }
    }
    if off == q {
        assert(u32_at(t1, q) == u32_at(d1, q)) by {
            assert(t1[q] == d1[q] && t1[q + 1] == d1[q + 1] && t1[q + 2] == d1[q + 2] && t1[q + 3] == d1[q + 3]);
        }
    } else {
        let nlen = d1[off] as int;
        let next = off + spec_entry_len(nlen);
        assert(spec_entry_len(nlen) >= 16 + nlen);
        lemma_walk_ends_after(d1, end, next, q);
        assert(t1[off] == t2[off] && t1[off + 1] == t2[off + 1]);
        assert(t1.subrange(off + 16, off + 16 + nlen) =~= t2.subrange(off + 16, off + 16 + nlen));
        lemma_find_agree_term(d1, d2, end, next, q, idx, name);
    }
}

/// A search that finds `x` on an entry list walking from `off` to `q`
/// splits the walk at `x` and at the entry after `x`.
proof fn lemma_walk_split(d: Seq<u8>, end: int, off: int, q: int, idx: u8, name: Seq<u8>)
    requires
        end <= d.len(),
        spec_walk_to(d, end, off, q),
        0 <= q,
        q + 4 <= end ==> u32_at(d, q) == 0,
        spec_find(d.take(end), end, off, idx, name) is Some,
    ensures
        ({
            let x = spec_find(d.take(end), end, off, idx, name)->0;
            &&& spec_walk_to(d, end, off, x)
            &&& spec_walk_to(d, end, x + spec_entry_len(d[x] as int), q)
            &&& x < q
        }),
    decreases end + 300 - off,
{
    let t = d.take(end);
    let x = spec_find(t, end, off, idx, name)->0;
    lemma_find_bounds(t, end, off, idx, name);
    if off == q {
        // the search stops at the terminator or past the area
        if off + 16 <= end {
            assert(u32_at(t, off) == u32_at(d, off)) by {
                assert(t[off] == d[off] && t[off + 1] == d[off + 1] && t[off + 2] == d[off + 2] && t[off + 3] == d[off + 3]);
            }
        }
        assert(spec_walk_to(d, end, off, q));
    } else {
        let nlen = d[off] as int;
        let next = off + spec_entry_len(nlen);
        assert(spec_entry_len(nlen) >= 16);
        assert(t[off] == d[off]);
        assert(u32_at(t, off) == u32_at(d, off)) by {
            assert(t[off] == d[off] && t[off + 1] == d[off + 1] && t[off + 2] == d[off + 2] && t[off + 3] == d[off + 3]);
        }
        if x == off {
            assert(spec_walk_to(d, end, off, off));
        } else {
            lemma_walk_split(d, end, next, q, idx, name);
        }
    }
}


/// Shifting the value offsets of an entry list that walks to a terminator
/// at `q` keeps the walk and the terminator, and changes nothing from `q`
/// on.
proof fn lemma_shift_walk(d: Seq<u8>, end: int, off: int, q: int, limit: int, delta: int)
    requires
        end <= d.len(),
        spec_walk_to(d, end, off, q),
        0 <= q,
        q + 4 <= end,
        u32_at(d, q) == 0,
        delta >= 0,
        limit + delta <= 0x10000,
    ensures
        ({
            let sh = spec_shift_offsets(d, end, off, limit, delta);
            &&& sh.len() == d.len()
            &&& spec_walk_to(sh, end, off, q)
            &&& forall|k: int| q <= k < d.len() ==> #[trigger] sh[k] == d[k]
            &&& u32_at(sh, q) == 0
        }),
    decreases end + 300 - off,
{
    let sh = spec_shift_offsets(d, end, off, limit, delta);
    lemma_shift_prefix(d, end, off, limit, delta);
    if off == q {
        assert(sh == d);
    } else {
        let e = ext4_xattr_entry::spec_at(d, off);
        let changed = e.e_value_offs > 0 && (e.e_value_offs as int) < limit;
        let new_offs = (e.e_value_offs + delta) as u16;
        let d2 = if changed { spec_splice(d, off + 2, le16(new_offs)) } else { d };
        let nlen = e.e_name_len as int;
        let next = off + spec_entry_len(nlen);
        assert(spec_entry_len(nlen) >= 16 + nlen);
        lemma_walk_ends_after(d, end, next, q);
        assert(sh == spec_shift_offsets(d2, end, next, limit, delta));
        assert(d2.len() == d.len());
        assert forall|k: int| 0 <= k < d.len() && k != off + 2 && k != off + 3 implies d2[k] == d[k] by {}
        lemma_walk_agree(d, d2, end, next, q);
        assert(u32_at(d2, q) == u32_at(d, q)) by {
            assert(d2[q] == d[q] && d2[q + 1] == d[q + 1] && d2[q + 2] == d[q + 2] && d2[q + 3] == d[q + 3]);
        }
        lemma_shift_walk(d2, end, next, q, limit, delta);
        lemma_shift_prefix(d2, end, next, limit, delta);
        // the entry at `off` keeps its name and stays a non-terminator
        assert(sh[off] == d[off] && sh[off + 1] == d[off + 1]);
        lemma_u32_zero_iff(d, off);
        lemma_u32_zero_iff(sh, off);
        if changed {
            assert(new_offs > 0);
            assert(sh[off + 2] == le16(new_offs)[0] && sh[off + 3] == le16(new_offs)[1]);
            assert(le16(new_offs)[0] != 0 || le16(new_offs)[1] != 0) by {
                assert((new_offs & 0xff) as u8 != 0 || (new_offs >> 8u16) as u8 != 0) by (bit_vector)
                    requires
                        new_offs > 0,
                ;
            }
        } else {
            assert(sh[off + 2] == d[off + 2] && sh[off + 3] == d[off + 3]);
        }
        assert(u32_at(sh, off) != 0);
        lemma_walk_agree(sh, sh, end, next, q);
    }
}

/// Shifting the value offsets of an entry list from `off` on changes
/// nothing a search from an entry on the walk reads.
proof fn lemma_find_shift_at(d: Seq<u8>, end: int, off: int, q: int, limit: int, delta: int, idx: u8, name: Seq<u8>)
    requires
        0 <= end <= d.len(),
        spec_walk_to(d, end, off, q),
        delta >= 0,
        limit + delta <= 0x10000,
    ensures
        spec_find(spec_shift_offsets(d, end, off, limit, delta).take(end), end, q, idx, name)
            == spec_find(d.take(end), end, q, idx, name),
    decreases end + 300 - off,
{
    if off == q {
        lemma_find_shift(d, end, q, limit, delta, idx, name);
    } else {
        let e = ext4_xattr_entry::spec_at(d, off);
        let changed = e.e_value_offs > 0 && (e.e_value_offs as int) < limit;
        let new_offs = (e.e_value_offs + delta) as u16;
        let d2 = if changed { spec_splice(d, off + 2, le16(new_offs)) } else { d };
        let nlen = e.e_name_len as int;
        let next = off + spec_entry_len(nlen);
        assert(spec_entry_len(nlen) >= 16 + nlen);
        lemma_walk_ends_after(d, end, next, q);
        assert(spec_shift_offsets(d, end, off, limit, delta) == spec_shift_offsets(d2, end, next, limit, delta));
        assert(d2.len() == d.len());
        assert forall|k: int| 0 <= k < d.len() && k != off + 2 && k != off + 3 implies d2[k] == d[k] by {}
        lemma_walk_agree(d, d2, end, next, q);
        lemma_find_shift_at(d2, end, next, q, limit, delta, idx, name);
        lemma_find_suffix(d2.take(end), d.take(end), end, q, idx, name);
    }
}


/// A search that first finds `target` reads, before `target`, only the
/// entries on the walk there: an area agreeing on those bytes searches on
/// from `target` after them.
proof fn lemma_find_agree_to(d1: Seq<u8>, d2: Seq<u8>, end: int, off: int, target: int, idx: u8, name: Seq<u8>)
    requires
        end <= d1.len(),
        end <= d2.len(),
        spec_walk_to(d1, end, off, target),
        spec_find(d1.take(end), end, off, idx, name) == Some(target),
        forall|k: int| off <= k < target ==> d1[k] == d2[k],
    ensures
        spec_find(d2.take(end), end, off, idx, name) == spec_find(d2.take(end), end, target, idx, name),
    decreases end + 300 - off,
{
    if off != target {
        let t1 = d1.take(end);
        let t2 = d2.take(end);
        let nlen = d1[off] as int;
        let next = off + spec_entry_len(nlen);
        assert(spec_entry_len(nlen) >= 16 + nlen);
        lemma_walk_ends_after(d1, end, next, target);
        assert(t1[off] == t2[off] && t1[off + 1] == t2[off + 1] && t1[off + 2] == t2[off + 2] && t1[off + 3] == t2[off + 3]);
        assert(u32_at(t1, off) == u32_at(t2, off));
        assert(u32_at(t1, off) == u32_at(d1, off));
        assert(t1.subrange(off + 16, off + 16 + nlen) =~= t2.subrange(off + 16, off + 16 + nlen));
        lemma_find_agree_to(d1, d2, end, next, target, idx, name);
    }
}

/// An entry list copied `delta` bytes lower, up to and including its
/// terminator at `q`: a search over the copy finds what a search over the
/// source list finds, `delta` bytes lower.
proof fn lemma_find_moved(d: Seq<u8>, u: Seq<u8>, end: int, p: int, delta: int, q: int, idx: u8, name: Seq<u8>)
    requires
        end <= d.len(),
        end <= u.len(),
        delta >= 0,
        p >= 0,
        spec_walk_to(d, end, p + delta, q),
        0 <= q,
        q + 4 <= end,
        u32_at(d, q) == 0,
        forall|k: int| p <= k < q + 4 - delta ==> u[k] == d[k + delta],
    ensures
        spec_find(u.take(end), end, p, idx, name) == (match spec_find(d.take(end), end, p + delta, idx, name) {
            Some(x) => Some(x - delta),
            None => None,
        }),
    decreases end + 300 - p,
{
    let tu = u.take(end);
    let td = d.take(end);
    let o = p + delta;
    if o == q {
        assert(u32_at(tu, p) == u32_at(td, q)) by {
            assert(tu[p] == td[q] && tu[p + 1] == td[q + 1] && tu[p + 2] == td[q + 2] && tu[p + 3] == td[q + 3]);
        }
        assert(u32_at(td, q) == u32_at(d, q)) by {
            assert(td[q] == d[q] && td[q + 1] == d[q + 1] && td[q + 2] == d[q + 2] && td[q + 3] == d[q + 3]);
        }
    } else {
        let nlen = d[o] as int;
        let next = o + spec_entry_len(nlen);
        assert(spec_entry_len(nlen) >= 16 + nlen);
        lemma_walk_ends_after(d, end, next, q);
        assert(tu[p] == td[o] && tu[p + 1] == td[o + 1] && tu[p + 2] == td[o + 2] && tu[p + 3] == td[o + 3]);
        assert(u32_at(tu, p) == u32_at(td, o));
        assert(u32_at(td, o) == u32_at(d, o));
        assert forall|k: int| 0 <= k < nlen implies #[trigger] tu.subrange(p + 16, p + 16 + nlen)[k]
            == td.subrange(o + 16, o + 16 + nlen)[k] by {
            assert(tu[p + 16 + k] == u[p + 16 + k]);
            assert(u[p + 16 + k] == d[o + 16 + k]);
        }
        assert(tu.subrange(p + 16, p + 16 + nlen) =~= td.subrange(o + 16, o + 16 + nlen));
        lemma_find_moved(d, u, end, p + spec_entry_len(nlen), delta, q, idx, name);
    }
}


/// Two walks, one ending where the other starts, make one walk.
proof fn lemma_walk_trans(d: Seq<u8>, end: int, off: int, x: int, q: int)
    requires
        spec_walk_to(d, end, off, x),
        spec_walk_to(d, end, x, q),
    ensures
        spec_walk_to(d, end, off, q),
    decreases end + 300 - off,
{
    if off != x {
        let nlen = d[off] as int;
        let next = off + spec_entry_len(nlen);
        assert(spec_entry_len(nlen) >= 16);
        lemma_walk_ends_after(d, end, next, x);
        lemma_walk_ends_after(d, end, x, q);
        lemma_walk_trans(d, end, next, x, q);
    }
}

/// One entry is a walk of one step.
proof fn lemma_walk_step(d: Seq<u8>, end: int, off: int)
    requires
        0 <= off,
        off + 16 <= end,
        u32_at(d, off) != 0,
        off + 16 + d[off] <= end,
    ensures
        spec_walk_to(d, end, off, off + spec_entry_len(d[off] as int)),
{
    let next = off + spec_entry_len(d[off] as int);
    assert(spec_entry_len(d[off] as int) >= 16);
    assert(spec_walk_to(d, end, next, next));
}

/// Removing the old value of the attribute found at `eo` keeps the entry
/// list: it walks to the same terminator, and still holds no other entry
/// for the attribute after `eo`.
#[verifier::spinoff_prover]
#[verifier::rlimit(60)]
proof fn lemma_drop_keeps_list(data: Seq<u8>, first: int, end: int, idx: u8, name: Seq<u8>, eo: int, m: int, last: int)
    requires
        0 <= first <= end <= data.len(),
        data.len() <= 0x10000,
        spec_edit_target(data, first, end, idx, name) == Some(eo),
        (m, last) == spec_layout(data, end, first, end, first),
        spec_walk_to(data, end, first, last),
        0 <= last,
        u32_at(data, last) == 0,
        last + 4 <= m,
        m <= end,
        spec_walk_to(data, end, eo + spec_entry_len(name.len() as int), last),
        spec_find(data.take(end), end, eo + spec_entry_len(name.len() as int), idx, name) is None,
        spec_dropped_size(data, Some(eo)) > 0 ==> {
            let o = ext4_xattr_entry::spec_at(data, eo).e_value_offs as int;
            let a = spec_dropped_size(data, Some(eo));
            &&& m + a <= data.len()
            &&& (o > m ==> o + a <= data.len())
        },
    ensures
        ({
            let d1 = spec_after_drop(data, first, end, Some(eo));
            &&& spec_walk_to(d1, end, first, last)
            &&& u32_at(d1, last) == 0
            &&& spec_find(d1.take(end), end, eo + spec_entry_len(name.len() as int), idx, name) is None
        }),
{
    let a = spec_dropped_size(data, Some(eo));
    let d1 = spec_after_drop(data, first, end, Some(eo));
    let next = eo + spec_entry_len(name.len() as int);
    let t0 = data.take(end);
    lemma_find_bounds(t0, end, first, idx, name);
    if a > 0 {
        let e = ext4_xattr_entry::spec_at(data, eo);
        let o = e.e_value_offs as int;
        let moved = if o > m { spec_splice(data, m + a, data.subrange(m, o)) } else { data };
        let d0 = spec_splice(moved, m, zeros(a as nat));
        assert(d0.len() == data.len());
        assert forall|k: int| 0 <= k < m implies d0[k] == data[k] by {
            assert(moved[k] == data[k]);
        }
        assert(d1 == spec_shift_offsets(d0, end, first, o, a));
        lemma_walk_agree(data, d0, end, first, last);
        assert(u32_at(d0, last) == u32_at(data, last)) by {
            assert(d0[last] == data[last] && d0[last + 1] == data[last + 1] && d0[last + 2] == data[last + 2]
                && d0[last + 3] == data[last + 3]);
        }
        assert(o + a <= 0x10000);
        lemma_shift_walk(d0, end, first, last, o, a);
        // the walk from `first` passes `eo` and the entry after it
        lemma_walk_split(data, end, first, last, idx, name);
        assert(t0[eo] == data[eo]);
        lemma_walk_step(data, end, eo);
        lemma_walk_trans(data, end, first, eo, next);
        lemma_walk_agree(data, d0, end, first, next);
        lemma_find_shift_at(d0, end, first, next, o, a, idx, name);
        lemma_find_agree_term(data, d0, end, next, last, idx, name);
    } else {
        assert(d1 == data);
    }
}

/// The bytes after unlinking the entry at `eo`: those before it stay,
/// and the rest of the list, terminator included, moves down over it.
proof fn lemma_unlink_bytes(d: Seq<u8>, eo: int, last: int)
    requires
        0 <= eo,
        eo + spec_entry_len(d[eo] as int) <= last,
        last + 4 <= d.len(),
    ensures
        ({
            let u = spec_unlink(d, eo, last);
            let total = spec_entry_len(d[eo] as int);
            &&& u.len() == d.len()
            &&& forall|k: int| 0 <= k < eo ==> #[trigger] u[k] == d[k]
            &&& forall|k: int| eo <= k < last + 4 - total ==> #[trigger] u[k] == d[k + total]
            &&& forall|k: int| last + 4 <= k < d.len() ==> #[trigger] u[k] == d[k]
        }),
{
    let total = spec_entry_len(d[eo] as int);
    let next = eo + total;
    let mv = last + 4 - next;
    let moved = spec_splice(d, eo, d.subrange(next, next + mv));
    let u = spec_unlink(d, eo, last);
    assert(u == spec_splice(moved, eo + mv, zeros(total as nat)));
    assert(moved.len() == d.len());
    assert forall|k: int| 0 <= k < eo implies #[trigger] u[k] == d[k] by {
        assert(moved[k] == d[k]);
    }
    assert forall|k: int| eo <= k < last + 4 - total implies #[trigger] u[k] == d[k + total] by {
        assert(moved[k] == d[k + total]);
    }
    assert forall|k: int| last + 4 <= k < d.len() implies #[trigger] u[k] == d[k] by {
        assert(moved[k] == d[k]);
    }
}

/// Unlinking the only entry for an attribute, at `eo`, from an entry list
/// walking to a terminator at `last`: a search then finds nothing.
#[verifier::spinoff_prover]
proof fn lemma_unlink_hides(d1: Seq<u8>, first: int, end: int, idx: u8, name: Seq<u8>, eo: int, last: int)
    requires
        0 <= first <= end <= d1.len(),
        spec_walk_to(d1, end, first, last),
        0 <= last,
        last + 4 <= end,
        u32_at(d1, last) == 0,
        spec_find(d1.take(end), end, first, idx, name) == Some(eo),
        spec_find(d1.take(end), end, eo + spec_entry_len(name.len() as int), idx, name) is None,
    ensures
        spec_find(spec_unlink(d1, eo, last).take(end), end, first, idx, name) is None,
{
    let t1 = d1.take(end);
    lemma_find_bounds(t1, end, first, idx, name);
    assert(t1[eo] == d1[eo]);
    let total = spec_entry_len(name.len() as int);
    lemma_walk_split(d1, end, first, last, idx, name);
    lemma_find_before_end(d1, end, first, last, idx, name);
    lemma_unlink_bytes(d1, eo, last);
    let u = spec_unlink(d1, eo, last);
    lemma_find_agree_to(d1, u, end, first, eo, idx, name);
    lemma_find_moved(d1, u, end, eo, total, last, idx, name);
}

/// Removing an attribute that occurs once, from an area whose entry list
/// is intact up to its terminator, below the values, and whose entry has
/// a value offset whenever it has a value: a search then no longer finds
/// the attribute.
pub proof fn lemma_remove_then_find(data: Seq<u8>, first: int, end: int, idx: u8, name: Seq<u8>)
    requires
        0 <= first <= end <= data.len(),
        data.len() <= 0x10000,
        spec_edit_target(data, first, end, idx, name) is Some,
        spec_walk_to(data, end, first, spec_layout(data, end, first, end, first).1),
        u32_at(data, spec_layout(data, end, first, end, first).1) == 0,
        spec_layout(data, end, first, end, first).1 + 4 <= spec_layout(data, end, first, end, first).0,
        ({
            let e = ext4_xattr_entry::spec_at(data, spec_edit_target(data, first, end, idx, name)->0);
            e.e_value_size > 0 ==> e.e_value_offs > 0
        }),
        spec_set_in_bounds(data, first, end, idx, name, None),
        spec_find(
            data.take(end),
            end,
            spec_edit_target(data, first, end, idx, name)->0 + spec_entry_len(name.len() as int),
            idx,
            name,
        ) is None,
    ensures
        spec_edit_target(spec_set_entry(data, first, end, idx, name, None), first, end, idx, name) is None,
{
    let (m, last) = spec_layout(data, end, first, end, first);
    lemma_layout_bounds(data, end, first, end, first);
    lemma_walk_ends_after(data, end, first, last);
    let found = spec_edit_target(data, first, end, idx, name);
    let eo = found->0;
    let t0 = data.take(end);
    lemma_find_bounds(t0, end, first, idx, name);
    let nl = name.len() as int;
    assert(spec_entry_len(nl) >= 16 + nl);
    assert(t0[eo] == data[eo]);
    lemma_walk_split(data, end, first, last, idx, name);
    lemma_find_before_end(data, end, first, last, idx, name);
    let e = ext4_xattr_entry::spec_at(data, eo);
    let o = e.e_value_offs as int;
    let a = spec_dropped_size(data, found);
    assert(a > 0 ==> m + a <= data.len() && (o > m ==> o + a <= data.len())) by {
        reveal(spec_set_in_bounds);
    }
    assert(eo + 16 + nl <= m);
    lemma_drop_keeps_entry(data, first, end, idx, name, eo, m, last);
    lemma_drop_keeps_list(data, first, end, idx, name, eo, m, last);
    let d1 = spec_after_drop(data, first, end, found);
    assert(last + 4 <= data.len()) by {
        reveal(spec_set_in_bounds);
    }
    lemma_unlink_hides(d1, first, end, idx, name, eo, last);
    assert(spec_set_entry(data, first, end, idx, name, None) == spec_unlink(d1, eo, last)) by {
        reveal(spec_set_entry);
    }
}


/// The lowest value offset of the writer's walk lies at or below the value
/// of any entry a search finds on that walk.
proof fn lemma_found_value_above_floor(data: Seq<u8>, end: int, off: int, min_offs: int, last: int, idx: u8, name: Seq<u8>)
    requires
        end <= data.len(),
        min_offs <= end,
        last <= end,
        spec_find(data.take(end), end, off, idx, name) is Some,
        ext4_xattr_entry::spec_at(data, spec_find(data.take(end), end, off, idx, name)->0).e_value_size > 0,
    ensures
        spec_layout(data, end, off, min_offs, last).0 <= ext4_xattr_entry::spec_at(
            data,
            spec_find(data.take(end), end, off, idx, name)->0,
        ).e_value_offs,
    decreases end + 300 - off,
{
    let t = data.take(end);
    let x = spec_find(t, end, off, idx, name)->0;
    assert(off + 16 <= end && off >= 0);
    assert(u32_at(t, off) == u32_at(data, off)) by {
        assert(t[off] == data[off] && t[off + 1] == data[off + 1] && t[off + 2] == data[off + 2] && t[off + 3] == data[off + 3]);
    }
    let e = ext4_xattr_entry::spec_at(data, off);
    assert(ext4_xattr_entry::spec_at(t, off).e_name_len == e.e_name_len);
    let m = if e.e_value_size > 0 && (e.e_value_offs as int) < min_offs {
        e.e_value_offs as int
    } else {
        min_offs
    };
    let next = off + spec_entry_len(e.e_name_len as int);
    assert(spec_entry_len(e.e_name_len as int) >= 16);
    assert(spec_layout(data, end, off, min_offs, last) == spec_layout(data, end, next, m, off));
    if x == off {
        assert(ext4_xattr_entry::spec_at(data, x) == e);
        lemma_layout_bounds(data, end, next, m, off);
    } else {
        lemma_found_value_above_floor(data, end, next, m, off, idx, name);
    }
}

/// Storing a new attribute writes only between the end of the entry list
/// and the lowest value: the bytes before the list's end and from the
/// lowest value on stay.
#[verifier::rlimit(60)]
#[verifier::spinoff_prover]
pub(crate) proof fn lemma_insert_bytes(data: Seq<u8>, first: int, end: int, idx: u8, name: Seq<u8>, v: Seq<u8>)
    requires
        0 <= first <= end <= data.len(),
        end <= 0x10000,
        0 < name.len() < 256,
        v.len() <= 0xffff_ffff,
        spec_edit_target(data, first, end, idx, name) is None,
        spec_free(data, first, end, None) >= spec_required(name.len() as int, v.len() as int),
        spec_walk_to(data, end, first, spec_layout(data, end, first, end, first).1),
    ensures
        ({
            let stored = spec_set_entry(data, first, end, idx, name, Some(v));
            let (m, last) = spec_layout(data, end, first, end, first);
            &&& stored.len() == data.len()
            &&& forall|i: int| 0 <= i < last ==> #[trigger] stored[i] == data[i]
            &&& forall|i: int| m <= i < data.len() ==> #[trigger] stored[i] == data[i]
        }),
{
    reveal(spec_set_entry);
    reveal(spec_free);
    let (m, last) = spec_layout(data, end, first, end, first);
    lemma_layout_bounds(data, end, first, end, first);
    lemma_walk_ends_after(data, end, first, last);
    let nl = name.len() as int;
    let vl = v.len() as int;
    let elen = spec_entry_len(nl);
    let vs = spec_value_size(vl);
    assert(elen >= 16 + nl);
    assert(vs >= vl);
    let vo = spec_new_value_offset(m, vl);
    assert(spec_after_drop(data, first, end, None) == data);
    assert(spec_dropped_size(data, None) == 0);
    let e = spec_new_entry(nl, idx, vo, vl);
    let hdr = e.spec_to_bytes();
    let d1 = spec_splice(data, last, hdr);
    let d2 = spec_splice(d1, last + 16, name);
    let next = last + elen;
    let d3 = if next + 4 <= end { spec_splice(d2, next, zeros(4)) } else { d2 };
    let d4 = if vo > 0 && vl > 0 {
        spec_splice(spec_splice(d3, vo, v), vo + vl, zeros((vs - vl) as nat))
    } else {
        d3
    };
    assert(spec_set_entry(data, first, end, idx, name, Some(v)) == d4);
    assert forall|i: int| 0 <= i < last implies #[trigger] d4[i] == data[i] by {
        assert(d1[i] == data[i]);
        assert(d2[i] == d1[i]);
        assert(d3[i] == d2[i]);
    }
    assert forall|i: int| m <= i < data.len() implies #[trigger] d4[i] == data[i] by {
        assert(d1[i] == data[i]);
        assert(d2[i] == d1[i]);
        assert(d3[i] == d2[i]);
    }
}

/// Storing a new attribute keeps every other attribute: a search for
/// another namespace and name finds the same entry, with the same header
/// (value offset and size), and its value bytes are unchanged. Under the
/// conditions of `lemma_set_then_find`, with the entry list ending in its
/// terminator.
#[verifier::rlimit(60)]
#[verifier::spinoff_prover]
pub proof fn lemma_set_keeps_others(data: Seq<u8>, first: int, end: int, idx: u8, name: Seq<u8>, v: Seq<u8>, idx2: u8, name2: Seq<u8>)
    requires
        0 <= first <= end <= data.len(),
        end <= 0x10000,
        0 < name.len() < 256,
        v.len() <= 0xffff_ffff,
        spec_edit_target(data, first, end, idx, name) is None,
        spec_free(data, first, end, None) >= spec_required(name.len() as int, v.len() as int),
        spec_walk_to(data, end, first, spec_layout(data, end, first, end, first).1),
        u32_at(data, spec_layout(data, end, first, end, first).1) == 0,
        spec_edit_target(data, first, end, idx2, name2) is Some,
    ensures
        ({
            let stored = spec_set_entry(data, first, end, idx, name, Some(v));
            let x = spec_edit_target(data, first, end, idx2, name2)->0;
            let e2 = ext4_xattr_entry::spec_at(data, x);
            &&& spec_edit_target(stored, first, end, idx2, name2) == Some(x)
            &&& stored.subrange(x, x + 16) == data.subrange(x, x + 16)
            &&& (e2.e_value_size > 0 && e2.e_value_offs + e2.e_value_size <= data.len()) ==> stored.subrange(
                e2.e_value_offs as int,
                e2.e_value_offs + e2.e_value_size,
            ) == data.subrange(e2.e_value_offs as int, e2.e_value_offs + e2.e_value_size)
        }),
{
    let (m, last) = spec_layout(data, end, first, end, first);
    lemma_layout_bounds(data, end, first, end, first);
    lemma_walk_ends_after(data, end, first, last);
    lemma_insert_bytes(data, first, end, idx, name, v);
    let stored = spec_set_entry(data, first, end, idx, name, Some(v));
    let t0 = data.take(end);
    let x = spec_edit_target(data, first, end, idx2, name2)->0;
    lemma_find_bounds(t0, end, first, idx2, name2);
    assert(t0[x] == data[x]);
    lemma_find_before_end(data, end, first, last, idx2, name2);
    let t4 = stored.take(end);
    let nl2 = name2.len() as int;
    assert(spec_entry_len(nl2) >= 16 + nl2);
    assert(x + 16 + nl2 <= last);
    assert(t4[x] == t0[x] && t4[x + 1] == t0[x + 1]);
    assert(t4.subrange(x + 16, x + 16 + nl2) =~= t0.subrange(x + 16, x + 16 + nl2));
    assert(u32_at(t4, x) == u32_at(t0, x)) by {
        assert(t4[x] == t0[x] && t4[x + 1] == t0[x + 1] && t4[x + 2] == t0[x + 2] && t4[x + 3] == t0[x + 3]);
    }
    lemma_find_found_agree(t0, t4, end, first, x, idx2, name2);
    assert(stored.subrange(x, x + 16) =~= data.subrange(x, x + 16));
    let e2 = ext4_xattr_entry::spec_at(data, x);
    if e2.e_value_size > 0 && e2.e_value_offs + e2.e_value_size <= data.len() {
        lemma_found_value_above_floor(data, end, first, end, first, idx2, name2);
        assert(stored.subrange(e2.e_value_offs as int, e2.e_value_offs + e2.e_value_size) =~= data.subrange(
            e2.e_value_offs as int,
            e2.e_value_offs + e2.e_value_size,
        ));
    }
}


/// The value bytes of the entry at `x`: empty when it has no value.
pub open spec fn spec_value_at(data: Seq<u8>, x: int) -> Seq<u8> {
    let e = ext4_xattr_entry::spec_at(data, x);
    if e.e_value_size > 0 {
        data.subrange(e.e_value_offs as int, e.e_value_offs + e.e_value_size)
    } else {
        Seq::empty()
    }
}

/// Of two points on one walk, one walks to the other.
proof fn lemma_walk_order(d: Seq<u8>, end: int, off: int, a: int, b: int)
    requires
        spec_walk_to(d, end, off, a),
        spec_walk_to(d, end, off, b),
    ensures
        spec_walk_to(d, end, a, b) || spec_walk_to(d, end, b, a),
    decreases end + 300 - off,
{
    if off != a && off != b {
        let nlen = d[off] as int;
        assert(spec_entry_len(nlen) >= 16);
        lemma_walk_order(d, end, off + spec_entry_len(nlen), a, b);
    }
}

/// Shifting the value offsets of an entry list moves the value offset of
/// an entry on it by `delta` when that offset is non-zero and below
/// `limit`, and leaves its name and value size.
#[verifier::spinoff_prover]
proof fn lemma_shift_entry(d: Seq<u8>, end: int, off: int, x: int, limit: int, delta: int)
    requires
        0 <= end <= d.len(),
        spec_walk_to(d, end, off, x),
        0 <= x,
        x + 16 <= end,
        u32_at(d, x) != 0,
        delta >= 0,
        limit + delta <= 0x10000,
    ensures
        ({
            let e = ext4_xattr_entry::spec_at(d, x);
            let f = ext4_xattr_entry::spec_at(spec_shift_offsets(d, end, off, limit, delta), x);
            &&& f.e_name_len == e.e_name_len
            &&& f.e_name_index == e.e_name_index
            &&& f.e_value_size == e.e_value_size
            &&& f.e_value_offs == (if e.e_value_offs > 0 && (e.e_value_offs as int) < limit {
                (e.e_value_offs + delta) as u16
            } else {
                e.e_value_offs
            })
        }),
    decreases end + 300 - off,
{
    let sh = spec_shift_offsets(d, end, off, limit, delta);
    let e = ext4_xattr_entry::spec_at(d, off);
    let changed = e.e_value_offs > 0 && (e.e_value_offs as int) < limit;
    let new_offs = (e.e_value_offs + delta) as u16;
    let d2 = if changed { spec_splice(d, off + 2, le16(new_offs)) } else { d };
    let next = off + spec_entry_len(e.e_name_len as int);
    assert(spec_entry_len(e.e_name_len as int) >= 16);
    assert(d2.len() == d.len());
    assert forall|k: int| 0 <= k < d.len() && k != off + 2 && k != off + 3 implies d2[k] == d[k] by {}
    assert(sh == spec_shift_offsets(d2, end, next, limit, delta));
    lemma_shift_prefix(d2, end, next, limit, delta);
    if off == x {
        assert(sh[x] == d[x] && sh[x + 1] == d[x + 1]);
        assert(sh[x + 8] == d[x + 8] && sh[x + 9] == d[x + 9] && sh[x + 10] == d[x + 10] && sh[x + 11] == d[x + 11]);
        if changed {
            crate::bytes::lemma_u16_roundtrip(new_offs);
            assert(sh[x + 2] == le16(new_offs)[0] && sh[x + 3] == le16(new_offs)[1]);
            assert(crate::bytes::u16_at(sh, x + 2) == crate::bytes::u16_at(le16(new_offs), 0));
        } else {
            assert(sh[x + 2] == d[x + 2] && sh[x + 3] == d[x + 3]);
        }
    } else {
        lemma_walk_ends_after(d, end, next, x);
        lemma_walk_agree(d, d2, end, next, x);
        assert(u32_at(d2, x) == u32_at(d, x)) by {
            assert(d2[x] == d[x] && d2[x + 1] == d[x + 1] && d2[x + 2] == d[x + 2] && d2[x + 3] == d[x + 3]);
        }
        lemma_shift_entry(d2, end, next, x, limit, delta);
        assert(d2[x] == d[x] && d2[x + 1] == d[x + 1] && d2[x + 2] == d[x + 2] && d2[x + 3] == d[x + 3]);
        assert(d2[x + 8] == d[x + 8] && d2[x + 9] == d[x + 9] && d2[x + 10] == d[x + 10] && d2[x + 11] == d[x + 11]);
    }
}

/// Changing only the value offset and size bytes of the entry at `eo`, an
/// entry on the walk from `off` to a terminator at `q`, while it stays a
/// non-terminator, changes nothing a search from `off` finds.
proof fn lemma_find_touch_header(d1: Seq<u8>, d2: Seq<u8>, end: int, off: int, eo: int, q: int, idx: u8, name: Seq<u8>)
    requires
        d1.len() == d2.len(),
        end <= d1.len(),
        spec_walk_to(d1, end, off, eo),
        0 <= eo,
        eo + 16 + d1[eo] <= end,
        spec_walk_to(d1, end, eo + spec_entry_len(d1[eo] as int), q),
        0 <= q,
        q + 4 <= end,
        u32_at(d1, q) == 0,
        forall|k: int| off <= k < q + 4 && !(eo + 2 <= k < eo + 4) && !(eo + 8 <= k < eo + 12) ==> d1[k] == d2[k],
        u32_at(d1, eo) != 0,
        u32_at(d2, eo) != 0,
    ensures
        spec_find(d1.take(end), end, off, idx, name) == spec_find(d2.take(end), end, off, idx, name),
    decreases end + 300 - off,
{
    let t1 = d1.take(end);
    let t2 = d2.take(end);
    if off == eo {
        let nlen = d1[eo] as int;
        let next = eo + spec_entry_len(nlen);
        assert(spec_entry_len(nlen) >= 16 + nlen);
        lemma_walk_ends_after(d1, end, next, q);
        assert(u32_at(t1, eo) == u32_at(d1, eo)) by {
            assert(t1[eo] == d1[eo] && t1[eo + 1] == d1[eo + 1] && t1[eo + 2] == d1[eo + 2] && t1[eo + 3] == d1[eo + 3]);
        }
        assert(u32_at(t2, eo) == u32_at(d2, eo)) by {
            assert(t2[eo] == d2[eo] && t2[eo + 1] == d2[eo + 1] && t2[eo + 2] == d2[eo + 2] && t2[eo + 3] == d2[eo + 3]);
        }
        assert(t1[eo] == t2[eo] && t1[eo + 1] == t2[eo + 1]);
        assert(t1.subrange(eo + 16, eo + 16 + nlen) =~= t2.subrange(eo + 16, eo + 16 + nlen));
        lemma_find_agree_term(d1, d2, end, next, q, idx, name);
    } else {
        let nlen = d1[off] as int;
        let next = off + spec_entry_len(nlen);
        assert(spec_entry_len(nlen) >= 16 + nlen);
        lemma_walk_ends_after(d1, end, next, eo);
        assert(t1[off] == t2[off] && t1[off + 1] == t2[off + 1] && t1[off + 2] == t2[off + 2] && t1[off + 3] == t2[off + 3]);
        assert(u32_at(t1, off) == u32_at(t2, off));
        assert(u32_at(t1, off) == u32_at(d1, off));
        assert(t1.subrange(off + 16, off + 16 + nlen) =~= t2.subrange(off + 16, off + 16 + nlen));
        lemma_find_touch_header(d1, d2, end, next, eo, q, idx, name);
    }
}


/// Removing the old value of the attribute found at `eo` keeps another
/// attribute, found at `x`, whose value lies apart from the removed one:
/// the search still finds it at `x`, its value size stays, its value
/// offset follows the value where the value moved, at or above the new
/// floor, and the value's bytes are unchanged. The entry list keeps its
/// walk and terminator.
#[verifier::spinoff_prover]
#[verifier::rlimit(80)]
proof fn lemma_drop_keeps_other(
    data: Seq<u8>,
    first: int,
    end: int,
    idx: u8,
    name: Seq<u8>,
    eo: int,
    m: int,
    last: int,
    idx2: u8,
    name2: Seq<u8>,
)
    requires
        0 <= first <= end <= data.len(),
        data.len() <= 0x10000,
        spec_edit_target(data, first, end, idx, name) == Some(eo),
        (m, last) == spec_layout(data, end, first, end, first),
        spec_walk_to(data, end, first, last),
        0 <= last,
        u32_at(data, last) == 0,
        last + 4 <= m,
        m <= end,
        spec_dropped_size(data, Some(eo)) > 0 ==> {
            let o = ext4_xattr_entry::spec_at(data, eo).e_value_offs as int;
            let a = spec_dropped_size(data, Some(eo));
            &&& m + a <= data.len()
            &&& (o > m ==> o + a <= data.len())
        },
        spec_edit_target(data, first, end, idx2, name2) is Some,
        ({
            let x = spec_edit_target(data, first, end, idx2, name2)->0;
            let e2 = ext4_xattr_entry::spec_at(data, x);
            let o = ext4_xattr_entry::spec_at(data, eo).e_value_offs as int;
            let a = spec_dropped_size(data, Some(eo));
            e2.e_value_size > 0 ==> {
                &&& e2.e_value_offs + e2.e_value_size <= data.len()
                &&& (e2.e_value_offs + e2.e_value_size <= o || e2.e_value_offs >= o + a)
            }
        }),
    ensures
        ({
            let d1 = spec_after_drop(data, first, end, Some(eo));
            let x = spec_edit_target(data, first, end, idx2, name2)->0;
            let e2 = ext4_xattr_entry::spec_at(data, x);
            let f = ext4_xattr_entry::spec_at(d1, x);
            let a = spec_dropped_size(data, Some(eo));
            &&& d1.len() == data.len()
            &&& spec_walk_to(d1, end, first, last)
            &&& u32_at(d1, last) == 0
            &&& spec_edit_target(d1, first, end, idx2, name2) == Some(x)
            &&& x + 16 <= last
            &&& f.e_value_size == e2.e_value_size
            &&& (e2.e_value_size > 0 ==> m + a <= f.e_value_offs && f.e_value_offs + f.e_value_size <= data.len())
            &&& spec_value_at(d1, x) == spec_value_at(data, x)
        }),
{
    let a = spec_dropped_size(data, Some(eo));
    let d1 = spec_after_drop(data, first, end, Some(eo));
    let t0 = data.take(end);
    let x = spec_edit_target(data, first, end, idx2, name2)->0;
    let e2 = ext4_xattr_entry::spec_at(data, x);
    let o2 = e2.e_value_offs as int;
    let s2 = e2.e_value_size as int;
    lemma_find_bounds(t0, end, first, idx2, name2);
    lemma_walk_split(data, end, first, last, idx2, name2);
    lemma_find_before_end(data, end, first, last, idx2, name2);
    assert(t0[x] == data[x]);
    assert(spec_entry_len(data[x] as int) >= 16);
    assert(u32_at(t0, x) == u32_at(data, x)) by {
        assert(t0[x] == data[x] && t0[x + 1] == data[x + 1] && t0[x + 2] == data[x + 2] && t0[x + 3] == data[x + 3]);
    }
    if s2 > 0 {
        lemma_found_value_above_floor(data, end, first, end, first, idx2, name2);
    }
    if a > 0 {
        let e = ext4_xattr_entry::spec_at(data, eo);
        let o = e.e_value_offs as int;
        lemma_find_bounds(t0, end, first, idx, name);
        lemma_found_value_above_floor(data, end, first, end, first, idx, name);
        assert(m <= o);
        assert(o + a <= data.len());
        let moved = if o > m { spec_splice(data, m + a, data.subrange(m, o)) } else { data };
        let d0 = spec_splice(moved, m, zeros(a as nat));
        assert(moved.len() == data.len());
        assert(d0.len() == data.len());
        assert forall|k: int| 0 <= k < m implies d0[k] == data[k] by {
            assert(moved[k] == data[k]);
        }
        assert(d1 == spec_shift_offsets(d0, end, first, o, a));
        lemma_walk_agree(data, d0, end, first, last);
        assert(u32_at(d0, last) == u32_at(data, last)) by {
            assert(d0[last] == data[last] && d0[last + 1] == data[last + 1] && d0[last + 2] == data[last + 2]
                && d0[last + 3] == data[last + 3]);
        }
        lemma_shift_walk(d0, end, first, last, o, a);
        lemma_find_agree_term(data, d0, end, first, last, idx2, name2);
        lemma_find_shift(d0, end, first, o, a, idx2, name2);
        lemma_walk_agree(data, d0, end, first, x);
        assert(u32_at(d0, x) == u32_at(data, x)) by {
            assert(d0[x] == data[x] && d0[x + 1] == data[x + 1] && d0[x + 2] == data[x + 2] && d0[x + 3] == data[x + 3]);
        }
        lemma_shift_entry(d0, end, first, x, o, a);
        assert(ext4_xattr_entry::spec_at(d0, x) == e2) by {
            assert(d0[x] == data[x] && d0[x + 1] == data[x + 1] && d0[x + 2] == data[x + 2] && d0[x + 3] == data[x + 3]);
            assert(d0[x + 4] == data[x + 4] && d0[x + 5] == data[x + 5] && d0[x + 6] == data[x + 6] && d0[x + 7] == data[x + 7]);
            assert(d0[x + 8] == data[x + 8] && d0[x + 9] == data[x + 9] && d0[x + 10] == data[x + 10] && d0[x + 11] == data[x + 11]);
            assert(d0[x + 12] == data[x + 12] && d0[x + 13] == data[x + 13] && d0[x + 14] == data[x + 14] && d0[x + 15] == data[x + 15]);
        }
        let f = ext4_xattr_entry::spec_at(d1, x);
        if s2 > 0 {
            if o2 + s2 <= o {
                assert(o > m);
                assert(f.e_value_offs == o2 + a);
                assert forall|k: int| 0 <= k < s2 implies #[trigger] d1[o2 + a + k] == data[o2 + k] by {
                    assert(d1[o2 + a + k] == d0[o2 + a + k]);
                    assert(moved[o2 + a + k] == data.subrange(m, o)[o2 + k - m]);
                }
                assert(d1.subrange(o2 + a, o2 + a + s2) =~= data.subrange(o2, o2 + s2));
            } else {
                assert(f.e_value_offs == o2);
                assert forall|k: int| 0 <= k < s2 implies #[trigger] d1[o2 + k] == data[o2 + k] by {
                    assert(d1[o2 + k] == d0[o2 + k]);
                    assert(moved[o2 + k] == data[o2 + k]);
                }
                assert(d1.subrange(o2, o2 + s2) =~= data.subrange(o2, o2 + s2));
            }
        }
    } else {
        assert(d1 == data);
    }
}


/// Replacing the value of one attribute keeps every other attribute whose
/// value lies apart from the replaced one: a search for another namespace
/// or name finds the same entry, with the same value size, and the value
/// bytes it points at are those it pointed at before. Under the
/// conditions of `lemma_replace_then_find`.
#[verifier::spinoff_prover]
#[verifier::rlimit(80)]
pub proof fn lemma_replace_keeps_others(data: Seq<u8>, first: int, end: int, idx: u8, name: Seq<u8>, v: Seq<u8>, idx2: u8, name2: Seq<u8>)
    requires
        0 <= first <= end <= data.len(),
        data.len() <= 0x10000,
        name.len() > 0 || idx != 0,
        v.len() <= 0xffff_ffff,
        spec_edit_target(data, first, end, idx, name) is Some,
        spec_walk_to(data, end, first, spec_layout(data, end, first, end, first).1),
        u32_at(data, spec_layout(data, end, first, end, first).1) == 0,
        spec_layout(data, end, first, end, first).1 + 4 <= spec_layout(data, end, first, end, first).0,
        ({
            let e = ext4_xattr_entry::spec_at(data, spec_edit_target(data, first, end, idx, name)->0);
            e.e_value_size > 0 ==> e.e_value_offs > 0
        }),
        spec_free(data, first, end, spec_edit_target(data, first, end, idx, name)) >= spec_required(
            name.len() as int,
            v.len() as int,
        ),
        spec_set_in_bounds(data, first, end, idx, name, Some(v)),
        idx2 != idx || name2 != name,
        spec_edit_target(data, first, end, idx2, name2) is Some,
        ({
            let found = spec_edit_target(data, first, end, idx, name);
            let e2 = ext4_xattr_entry::spec_at(data, spec_edit_target(data, first, end, idx2, name2)->0);
            let o = ext4_xattr_entry::spec_at(data, found->0).e_value_offs as int;
            let a = spec_dropped_size(data, found);
            e2.e_value_size > 0 ==> {
                &&& e2.e_value_offs + e2.e_value_size <= data.len()
                &&& (e2.e_value_offs + e2.e_value_size <= o || e2.e_value_offs >= o + a)
            }
        }),
    ensures
        ({
            let stored = spec_set_entry(data, first, end, idx, name, Some(v));
            let x = spec_edit_target(data, first, end, idx2, name2)->0;
            &&& spec_edit_target(stored, first, end, idx2, name2) == Some(x)
            &&& ext4_xattr_entry::spec_at(stored, x).e_value_size == ext4_xattr_entry::spec_at(data, x).e_value_size
            &&& spec_value_at(stored, x) == spec_value_at(data, x)
            &&& spec_lookup_value(stored, first, end, idx2, name2) == spec_lookup_value(data, first, end, idx2, name2)
            &&& (ext4_xattr_entry::spec_at(stored, x).e_value_size > 0 ==> ext4_xattr_entry::spec_at(stored, x).e_value_offs
                + ext4_xattr_entry::spec_at(stored, x).e_value_size <= data.len())
        }),
{
    let (m, last) = spec_layout(data, end, first, end, first);
    let found = spec_edit_target(data, first, end, idx, name);
    let eo = found->0;
    let t0 = data.take(end);
    lemma_find_bounds(t0, end, first, idx, name);
    lemma_find_bounds(t0, end, first, idx2, name2);
    let x = spec_edit_target(data, first, end, idx2, name2)->0;
    assert(x != eo) by {
        if x == eo {
            assert(name2 =~= name);
        }
    }
    lemma_replace_setup(data, first, end, idx, name, v);
    lemma_replace_other_steps(data, first, end, idx, name, v, idx2, name2, eo, m, last, x);
}

/// What a replacement's steps rely on: the replaced entry lies below the
/// values, and the old value's removal and the new value stay inside the
/// area, the new value above the entry list.
#[verifier::spinoff_prover]
#[verifier::rlimit(80)]
proof fn lemma_replace_setup(data: Seq<u8>, first: int, end: int, idx: u8, name: Seq<u8>, v: Seq<u8>)
    requires
        0 <= first <= end <= data.len(),
        spec_edit_target(data, first, end, idx, name) is Some,
        spec_walk_to(data, end, first, spec_layout(data, end, first, end, first).1),
        u32_at(data, spec_layout(data, end, first, end, first).1) == 0,
        spec_layout(data, end, first, end, first).1 + 4 <= spec_layout(data, end, first, end, first).0,
        ({
            let e = ext4_xattr_entry::spec_at(data, spec_edit_target(data, first, end, idx, name)->0);
            e.e_value_size > 0 ==> e.e_value_offs > 0
        }),
        spec_free(data, first, end, spec_edit_target(data, first, end, idx, name)) >= spec_required(
            name.len() as int,
            v.len() as int,
        ),
        spec_set_in_bounds(data, first, end, idx, name, Some(v)),
    ensures
        ({
            let (m, last) = spec_layout(data, end, first, end, first);
            let found = spec_edit_target(data, first, end, idx, name);
            let eo = found->0;
            let a = spec_dropped_size(data, found);
            &&& 0 <= last
            &&& m <= end
            &&& eo + 16 + name.len() <= m
            &&& (a > 0 ==> {
                let o = ext4_xattr_entry::spec_at(data, eo).e_value_offs as int;
                &&& m + a <= data.len()
                &&& (o > m ==> o + a <= data.len())
            })
            &&& m + a <= data.len()
            &&& (v.len() > 0 ==> m + a - spec_value_size(v.len() as int) >= last + 4)
        }),
{
    let (m, last) = spec_layout(data, end, first, end, first);
    lemma_layout_bounds(data, end, first, end, first);
    lemma_walk_ends_after(data, end, first, last);
    let found = spec_edit_target(data, first, end, idx, name);
    let eo = found->0;
    let t0 = data.take(end);
    lemma_find_bounds(t0, end, first, idx, name);
    let nl = name.len() as int;
    let vl = v.len() as int;
    assert(t0[eo] == data[eo] && t0[eo + 1] == data[eo + 1]);
    lemma_find_before_end(data, end, first, last, idx, name);
    assert(spec_entry_len(nl) >= 16 + nl);
    let a = spec_dropped_size(data, found);
    assert(a == spec_value_size(ext4_xattr_entry::spec_at(data, eo).e_value_size as int) || a == 0);
    assert(vl > 0 ==> m + a - spec_value_size(vl) >= last + 4) by {
        reveal(spec_free);
    }
    assert(a > 0 ==> {
        let o = ext4_xattr_entry::spec_at(data, eo).e_value_offs as int;
        &&& m + a <= data.len()
        &&& (o > m ==> o + a <= data.len())
    }) by {
        reveal(spec_set_in_bounds);
    }
    assert(m + a <= data.len()) by {
        reveal(spec_set_in_bounds);
    }
}

/// The steps of a replacement, each keeping the other attribute at `x`.
#[verifier::spinoff_prover]
#[verifier::rlimit(80)]
proof fn lemma_replace_other_steps(
    data: Seq<u8>,
    first: int,
    end: int,
    idx: u8,
    name: Seq<u8>,
    v: Seq<u8>,
    idx2: u8,
    name2: Seq<u8>,
    eo: int,
    m: int,
    last: int,
    x: int,
)
    requires
        0 <= first <= end <= data.len(),
        data.len() <= 0x10000,
        name.len() > 0 || idx != 0,
        v.len() <= 0xffff_ffff,
        spec_edit_target(data, first, end, idx, name) == Some(eo),
        (m, last) == spec_layout(data, end, first, end, first),
        spec_walk_to(data, end, first, last),
        0 <= last,
        u32_at(data, last) == 0,
        last + 4 <= m,
        m <= end,
        eo + 16 + name.len() <= m,
        spec_dropped_size(data, Some(eo)) > 0 ==> {
            let o = ext4_xattr_entry::spec_at(data, eo).e_value_offs as int;
            let a = spec_dropped_size(data, Some(eo));
            &&& m + a <= data.len()
            &&& (o > m ==> o + a <= data.len())
        },
        m + spec_dropped_size(data, Some(eo)) <= data.len(),
        v.len() > 0 ==> m + spec_dropped_size(data, Some(eo)) - spec_value_size(v.len() as int) >= last + 4,
        spec_edit_target(data, first, end, idx2, name2) == Some(x),
        x != eo,
        ({
            let e2 = ext4_xattr_entry::spec_at(data, x);
            let o = ext4_xattr_entry::spec_at(data, eo).e_value_offs as int;
            let a = spec_dropped_size(data, Some(eo));
            e2.e_value_size > 0 ==> {
                &&& e2.e_value_offs + e2.e_value_size <= data.len()
                &&& (e2.e_value_offs + e2.e_value_size <= o || e2.e_value_offs >= o + a)
            }
        }),
    ensures
        ({
            let stored = spec_set_entry(data, first, end, idx, name, Some(v));
            let f = ext4_xattr_entry::spec_at(stored, x);
            &&& spec_edit_target(stored, first, end, idx2, name2) == Some(x)
            &&& f.e_value_size == ext4_xattr_entry::spec_at(data, x).e_value_size
            &&& spec_value_at(stored, x) == spec_value_at(data, x)
            &&& (f.e_value_size > 0 ==> f.e_value_offs + f.e_value_size <= data.len())
        }),
{
    let found = Some(eo);
    let floor = m + spec_dropped_size(data, found);
    lemma_drop_keeps_entry(data, first, end, idx, name, eo, m, last);
    lemma_drop_keeps_other(data, first, end, idx, name, eo, m, last, idx2, name2);
    let d1 = spec_after_drop(data, first, end, found);
    lemma_put_keeps_other(d1, first, end, idx, name, v, eo, last, floor, idx2, name2, x);
    assert(spec_set_entry(data, first, end, idx, name, Some(v)) == spec_put(d1, found, last, end, floor, idx, name, v)) by {
        reveal(spec_set_entry);
    }
}

/// Two entries a search finds on an entry list walking to a terminator at
/// `last`: both lie, with their headers, before `last`, at least a header
/// apart, and the first is a non-terminator whose name length is the
/// name's.
#[verifier::spinoff_prover]
#[verifier::rlimit(80)]
proof fn lemma_entries_apart(
    d1: Seq<u8>,
    first: int,
    end: int,
    last: int,
    idx: u8,
    name: Seq<u8>,
    eo: int,
    idx2: u8,
    name2: Seq<u8>,
    x: int,
)
    requires
        0 <= first <= end <= d1.len(),
        spec_find(d1.take(end), end, first, idx, name) == Some(eo),
        spec_walk_to(d1, end, first, last),
        0 <= last,
        last + 4 <= end,
        u32_at(d1, last) == 0,
        spec_find(d1.take(end), end, first, idx2, name2) == Some(x),
        x != eo,
    ensures
        first <= x,
        first <= eo,
        x + 16 <= eo || eo + 16 <= x,
        eo + 16 <= last,
        x + 16 <= last,
        u32_at(d1, eo) != 0,
        d1[eo] == name.len(),
        d1[eo + 1] == idx,
        spec_walk_to(d1, end, first, eo),
        spec_walk_to(d1, end, eo + spec_entry_len(d1[eo] as int), last),
        eo + 16 + d1[eo] <= end,
{
    lemma_walk_split(d1, end, first, last, idx, name);
    lemma_walk_split(d1, end, first, last, idx2, name2);
    let t1 = d1.take(end);
    lemma_find_bounds(t1, end, first, idx, name);
    lemma_find_bounds(t1, end, first, idx2, name2);
    assert(t1[eo] == d1[eo] && t1[eo + 1] == d1[eo + 1]);
    assert(t1[x] == d1[x]);
    assert(u32_at(t1, eo) == u32_at(d1, eo)) by {
        assert(t1[eo] == d1[eo] && t1[eo + 1] == d1[eo + 1] && t1[eo + 2] == d1[eo + 2] && t1[eo + 3] == d1[eo + 3]);
    }
    lemma_find_before_end(d1, end, first, last, idx2, name2);
    lemma_find_before_end(d1, end, first, last, idx, name);
    assert(spec_entry_len(d1[x] as int) >= 16);
    assert(spec_entry_len(d1[eo] as int) >= 16);
    lemma_walk_order(d1, end, first, x, eo);
    if spec_walk_to(d1, end, x, eo) {
        lemma_walk_ends_after(d1, end, x + spec_entry_len(d1[x] as int), eo);
    } else {
        lemma_walk_ends_after(d1, end, eo + spec_entry_len(d1[eo] as int), x);
    }
}

/// Storing the new value of the attribute found at `eo`, with the value
/// going between the list's terminator and `floor`, keeps another
/// attribute found at `x`, whose value lies at or above `floor`: the
/// search still finds it, with the same header and value bytes.
#[verifier::spinoff_prover]
#[verifier::rlimit(80)]
proof fn lemma_put_keeps_other(
    d1: Seq<u8>,
    first: int,
    end: int,
    idx: u8,
    name: Seq<u8>,
    v: Seq<u8>,
    eo: int,
    last: int,
    floor: int,
    idx2: u8,
    name2: Seq<u8>,
    x: int,
)
    requires
        0 <= first <= end <= d1.len(),
        d1.len() <= 0x10000,
        name.len() > 0 || idx != 0,
        v.len() <= 0xffff_ffff,
        spec_find(d1.take(end), end, first, idx, name) == Some(eo),
        spec_walk_to(d1, end, first, last),
        0 <= last,
        last + 4 <= end,
        u32_at(d1, last) == 0,
        spec_find(d1.take(end), end, first, idx2, name2) == Some(x),
        x != eo,
        last + 4 <= floor <= d1.len(),
        v.len() > 0 ==> floor - spec_value_size(v.len() as int) >= last + 4,
        ext4_xattr_entry::spec_at(d1, x).e_value_size > 0 ==> {
            let f = ext4_xattr_entry::spec_at(d1, x);
            &&& floor <= f.e_value_offs
            &&& f.e_value_offs + f.e_value_size <= d1.len()
        },
    ensures
        ({
            let stored = spec_put(d1, Some(eo), last, end, floor, idx, name, v);
            &&& spec_find(stored.take(end), end, first, idx2, name2) == Some(x)
            &&& ext4_xattr_entry::spec_at(stored, x) == ext4_xattr_entry::spec_at(d1, x)
            &&& spec_value_at(stored, x) == spec_value_at(d1, x)
        }),
{
    let vl = v.len() as int;
    let vo = spec_new_value_offset(floor, vl);
    let vs = spec_value_size(vl);
    lemma_entries_apart(d1, first, end, last, idx, name, eo, idx2, name2, x);
    // storing writes the entry's offset and size, and the value below the floor
    let stored = spec_put(d1, Some(eo), last, end, floor, idx, name, v);
    let w1 = spec_splice(spec_splice(d1, eo + 2, le16(vo as u16)), eo + 8, le32(vl as u32));
    assert(w1.len() == d1.len());
    assert(stored.len() == d1.len());
    assert forall|k: int| 0 <= k < stored.len() && !(eo + 2 <= k < eo + 4) && !(eo + 8 <= k < eo + 12) && !(vl > 0
        && vo <= k < vo + vs) implies #[trigger] stored[k] == d1[k] by {
        assert(w1[k] == d1[k]);
    }
    assert(stored[eo] == d1[eo] && stored[eo + 1] == d1[eo + 1]);
    lemma_u32_zero_iff(d1, eo);
    lemma_u32_zero_iff(stored, eo);
    assert(u32_at(stored, eo) != 0);
    lemma_find_touch_header(d1, stored, end, first, eo, last, idx2, name2);
    // the other entry's header and value are untouched
    let f = ext4_xattr_entry::spec_at(d1, x);
    assert forall|k: int| x <= k < x + 16 implies #[trigger] stored[k] == d1[k] by {
        assert(!(vl > 0 && vo <= k < vo + vs));
    }
    assert(ext4_xattr_entry::spec_at(stored, x) == f) by {
        assert(stored[x] == d1[x] && stored[x + 1] == d1[x + 1] && stored[x + 2] == d1[x + 2] && stored[x + 3] == d1[x + 3]);
        assert(stored[x + 4] == d1[x + 4] && stored[x + 5] == d1[x + 5] && stored[x + 6] == d1[x + 6] && stored[x + 7] == d1[x + 7]);
        assert(stored[x + 8] == d1[x + 8] && stored[x + 9] == d1[x + 9] && stored[x + 10] == d1[x + 10] && stored[x + 11] == d1[x + 11]);
        assert(stored[x + 12] == d1[x + 12] && stored[x + 13] == d1[x + 13] && stored[x + 14] == d1[x + 14] && stored[x + 15] == d1[x + 15]);
    }
    if f.e_value_size > 0 {
        let fo = f.e_value_offs as int;
        let fs = f.e_value_size as int;
        assert forall|k: int| fo <= k < fo + fs implies #[trigger] stored[k] == d1[k] by {
            assert(k >= eo + 12);
            assert(!(vl > 0 && vo <= k < vo + vs));
        }
        assert(stored.subrange(fo, fo + fs) =~= d1.subrange(fo, fo + fs));
    }
}


/// The value of the attribute with namespace `idx` and name `name` in the
/// area `data[..end]` whose entries start at `first`: `None` when no entry
/// holds it.
pub open spec fn spec_lookup_value(data: Seq<u8>, first: int, end: int, idx: u8, name: Seq<u8>) -> Option<Seq<u8>> {
    match spec_edit_target(data, first, end, idx, name) {
        Some(x) => Some(spec_value_at(data, x)),
        None => None,
    }
}

/// A search that finds an entry at or after `target`, on a walk from
/// `off` to `target`, passes the entries before `target` without a match;
/// an area agreeing with it before `target` passes them too.
proof fn lemma_find_skip(d1: Seq<u8>, d2: Seq<u8>, end: int, off: int, target: int, idx: u8, name: Seq<u8>)
    requires
        end <= d1.len(),
        end <= d2.len(),
        spec_walk_to(d1, end, off, target),
        forall|k: int| off <= k < target ==> d1[k] == d2[k],
        spec_find(d1.take(end), end, off, idx, name) matches Some(x) && x >= target,
    ensures
        spec_find(d1.take(end), end, off, idx, name) == spec_find(d1.take(end), end, target, idx, name),
        spec_find(d2.take(end), end, off, idx, name) == spec_find(d2.take(end), end, target, idx, name),
    decreases end + 300 - off,
{
    if off != target {
        let t1 = d1.take(end);
        let t2 = d2.take(end);
        let nlen = d1[off] as int;
        let next = off + spec_entry_len(nlen);
        assert(spec_entry_len(nlen) >= 16 + nlen);
        lemma_walk_ends_after(d1, end, next, target);
        assert(t1[off] == t2[off] && t1[off + 1] == t2[off + 1] && t1[off + 2] == t2[off + 2] && t1[off + 3] == t2[off + 3]);
        assert(u32_at(t1, off) == u32_at(t2, off));
        assert(u32_at(t1, off) == u32_at(d1, off));
        assert(t1.subrange(off + 16, off + 16 + nlen) =~= t2.subrange(off + 16, off + 16 + nlen));
        lemma_find_skip(d1, d2, end, next, target, idx, name);
    }
}

/// Unlinking the entry found at `eo` leaves an entry for another
/// attribute found before it where it was.
#[verifier::spinoff_prover]
#[verifier::rlimit(80)]
proof fn lemma_unlink_before(
    d1: Seq<u8>,
    first: int,
    end: int,
    idx: u8,
    name: Seq<u8>,
    eo: int,
    last: int,
    idx2: u8,
    name2: Seq<u8>,
    x: int,
)
    requires
        0 <= first <= end <= d1.len(),
        spec_find(d1.take(end), end, first, idx, name) == Some(eo),
        spec_walk_to(d1, end, first, last),
        0 <= last,
        last + 4 <= end,
        u32_at(d1, last) == 0,
        spec_find(d1.take(end), end, first, idx2, name2) == Some(x),
        x < eo,
    ensures
        ({
            let u = spec_unlink(d1, eo, last);
            &&& spec_find(u.take(end), end, first, idx2, name2) == Some(x)
            &&& ext4_xattr_entry::spec_at(u, x) == ext4_xattr_entry::spec_at(d1, x)
        }),
{
    lemma_entries_apart(d1, first, end, last, idx, name, eo, idx2, name2, x);
    let t1 = d1.take(end);
    lemma_find_bounds(t1, end, first, idx2, name2);
    let total = spec_entry_len(d1[eo] as int);
    assert(total >= 16);
    lemma_walk_ends_after(d1, end, eo + total, last);
    lemma_unlink_bytes(d1, eo, last);
    let u = spec_unlink(d1, eo, last);
    let tu = u.take(end);
    lemma_walk_split(d1, end, first, last, idx2, name2);
    lemma_walk_order(d1, end, first, x, eo);
    let nl2 = name2.len() as int;
    assert(t1[x] == d1[x] && t1[x + 1] == d1[x + 1]);
    assert(spec_entry_len(nl2) >= 16 + nl2);
    if spec_walk_to(d1, end, eo, x) {
        lemma_walk_ends_after(d1, end, eo, x);
    }
    lemma_walk_ends_after(d1, end, x + spec_entry_len(nl2), eo);
    assert forall|k: int| first <= k < x implies tu[k] == t1[k] by {}
    assert(tu.subrange(x + 16, x + 16 + nl2) =~= t1.subrange(x + 16, x + 16 + nl2));
    assert(u32_at(tu, x) == u32_at(t1, x)) by {
        assert(tu[x] == t1[x] && tu[x + 1] == t1[x + 1] && tu[x + 2] == t1[x + 2] && tu[x + 3] == t1[x + 3]);
    }
    lemma_find_found_agree(t1, tu, end, first, x, idx2, name2);
    assert(u[x] == d1[x] && u[x + 1] == d1[x + 1] && u[x + 2] == d1[x + 2] && u[x + 3] == d1[x + 3]);
    assert(u[x + 4] == d1[x + 4] && u[x + 5] == d1[x + 5] && u[x + 6] == d1[x + 6] && u[x + 7] == d1[x + 7]);
    assert(u[x + 8] == d1[x + 8] && u[x + 9] == d1[x + 9] && u[x + 10] == d1[x + 10] && u[x + 11] == d1[x + 11]);
    assert(u[x + 12] == d1[x + 12] && u[x + 13] == d1[x + 13] && u[x + 14] == d1[x + 14] && u[x + 15] == d1[x + 15]);
}

/// Unlinking the entry found at `eo` moves an entry for another attribute
/// found after it down by the unlinked entry's length, where a search
/// finds it.
#[verifier::spinoff_prover]
#[verifier::rlimit(80)]
proof fn lemma_unlink_after(
    d1: Seq<u8>,
    first: int,
    end: int,
    idx: u8,
    name: Seq<u8>,
    eo: int,
    last: int,
    idx2: u8,
    name2: Seq<u8>,
    x: int,
)
    requires
        0 <= first <= end <= d1.len(),
        spec_find(d1.take(end), end, first, idx, name) == Some(eo),
        spec_walk_to(d1, end, first, last),
        0 <= last,
        last + 4 <= end,
        u32_at(d1, last) == 0,
        spec_find(d1.take(end), end, first, idx2, name2) == Some(x),
        eo < x,
        idx2 != idx || name2 != name,
    ensures
        ({
            let u = spec_unlink(d1, eo, last);
            let total = spec_entry_len(d1[eo] as int);
            &&& spec_find(u.take(end), end, first, idx2, name2) == Some(x - total)
            &&& ext4_xattr_entry::spec_at(u, x - total) == ext4_xattr_entry::spec_at(d1, x)
        }),
{
    lemma_entries_apart(d1, first, end, last, idx, name, eo, idx2, name2, x);
    let t1 = d1.take(end);
    lemma_find_bounds(t1, end, first, idx, name);
    lemma_find_bounds(t1, end, first, idx2, name2);
    let total = spec_entry_len(d1[eo] as int);
    assert(total >= 16);
    lemma_walk_ends_after(d1, end, eo + total, last);
    lemma_unlink_bytes(d1, eo, last);
    let u = spec_unlink(d1, eo, last);
    lemma_walk_split(d1, end, first, last, idx2, name2);
    lemma_walk_order(d1, end, first, x, eo);
    if spec_walk_to(d1, end, x, eo) {
        lemma_walk_ends_after(d1, end, x, eo);
    }
    lemma_walk_ends_after(d1, end, eo + total, x);
    lemma_find_skip(d1, u, end, first, eo, idx2, name2);
    lemma_find_passes(d1, end, first, idx, name, eo, idx2, name2);
    lemma_find_moved(d1, u, end, eo, total, last, idx2, name2);
    let y = x - total;
    assert(u[y] == d1[y + total] && u[y + 1] == d1[y + 1 + total] && u[y + 2] == d1[y + 2 + total] && u[y + 3] == d1[y + 3 + total]);
    assert(u[y + 4] == d1[y + 4 + total] && u[y + 5] == d1[y + 5 + total] && u[y + 6] == d1[y + 6 + total] && u[y + 7] == d1[y + 7 + total]);
    assert(u[y + 8] == d1[y + 8 + total] && u[y + 9] == d1[y + 9 + total] && u[y + 10] == d1[y + 10 + total] && u[y + 11] == d1[y + 11 + total]);
    assert(u[y + 12] == d1[y + 12 + total] && u[y + 13] == d1[y + 13 + total] && u[y + 14] == d1[y + 14 + total] && u[y + 15] == d1[y + 15 + total]);
}

/// A search for another attribute passes the entry found at `eo` for
/// this one.
proof fn lemma_find_passes(d1: Seq<u8>, end: int, first: int, idx: u8, name: Seq<u8>, eo: int, idx2: u8, name2: Seq<u8>)
    requires
        0 <= first <= end <= d1.len(),
        spec_find(d1.take(end), end, first, idx, name) == Some(eo),
        idx2 != idx || name2 != name,
    ensures
        spec_find(d1.take(end), end, eo, idx2, name2)
            == spec_find(d1.take(end), end, eo + spec_entry_len(d1[eo] as int), idx2, name2),
{
    let t1 = d1.take(end);
    lemma_find_bounds(t1, end, first, idx, name);
    lemma_find_bounds(t1, end, eo, idx2, name2);
    assert(t1[eo] == d1[eo] && t1[eo + 1] == d1[eo + 1]);
    if spec_find(t1, end, eo, idx2, name2) == Some(eo) {
        assert(name2 =~= name);
    }
}

/// Unlinking the entry found at `eo` keeps another attribute, found at
/// `x`, whose value lies above the entry list: a search finds its entry,
/// moved down when it came after `eo`, with the same value size and value
/// bytes.
#[verifier::spinoff_prover]
#[verifier::rlimit(80)]
proof fn lemma_unlink_keeps_other(
    d1: Seq<u8>,
    first: int,
    end: int,
    idx: u8,
    name: Seq<u8>,
    eo: int,
    last: int,
    idx2: u8,
    name2: Seq<u8>,
    x: int,
)
    requires
        0 <= first <= end <= d1.len(),
        spec_find(d1.take(end), end, first, idx, name) == Some(eo),
        spec_walk_to(d1, end, first, last),
        0 <= last,
        last + 4 <= end,
        u32_at(d1, last) == 0,
        spec_find(d1.take(end), end, first, idx2, name2) == Some(x),
        x != eo,
        idx2 != idx || name2 != name,
        ext4_xattr_entry::spec_at(d1, x).e_value_size > 0 ==> {
            let f = ext4_xattr_entry::spec_at(d1, x);
            &&& last + 4 <= f.e_value_offs
            &&& f.e_value_offs + f.e_value_size <= d1.len()
        },
    ensures
        ({
            let u = spec_unlink(d1, eo, last);
            &&& spec_find(u.take(end), end, first, idx2, name2) is Some
            &&& ext4_xattr_entry::spec_at(u, spec_find(u.take(end), end, first, idx2, name2)->0).e_value_size
                == ext4_xattr_entry::spec_at(d1, x).e_value_size
            &&& spec_value_at(u, spec_find(u.take(end), end, first, idx2, name2)->0) == spec_value_at(d1, x)
            &&& u.len() == d1.len()
            &&& ({
                let g = ext4_xattr_entry::spec_at(u, spec_find(u.take(end), end, first, idx2, name2)->0);
                g.e_value_size > 0 ==> g.e_value_offs + g.e_value_size <= d1.len()
            })
        }),
{
    let total = spec_entry_len(d1[eo] as int);
    let u = spec_unlink(d1, eo, last);
    lemma_entries_apart(d1, first, end, last, idx, name, eo, idx2, name2, x);
    lemma_walk_ends_after(d1, end, eo + total, last);
    lemma_unlink_bytes(d1, eo, last);
    let y = if x < eo { x } else { x - total };
    if x < eo {
        lemma_unlink_before(d1, first, end, idx, name, eo, last, idx2, name2, x);
    } else {
        lemma_unlink_after(d1, first, end, idx, name, eo, last, idx2, name2, x);
    }
    let f = ext4_xattr_entry::spec_at(d1, x);
    assert(ext4_xattr_entry::spec_at(u, y) == f);
    if f.e_value_size > 0 {
        let fo = f.e_value_offs as int;
        let fs = f.e_value_size as int;
        assert(u.subrange(fo, fo + fs) =~= d1.subrange(fo, fo + fs));
    }
}

/// Removing one attribute keeps every other attribute whose value lies
/// apart from the removed one: a search for another namespace or name
/// still finds an entry, and its value is the value it had. Under the
/// conditions of `lemma_remove_then_find`.
#[verifier::spinoff_prover]
#[verifier::rlimit(80)]
pub proof fn lemma_remove_keeps_others(data: Seq<u8>, first: int, end: int, idx: u8, name: Seq<u8>, idx2: u8, name2: Seq<u8>)
    requires
        0 <= first <= end <= data.len(),
        data.len() <= 0x10000,
        spec_edit_target(data, first, end, idx, name) is Some,
        spec_walk_to(data, end, first, spec_layout(data, end, first, end, first).1),
        u32_at(data, spec_layout(data, end, first, end, first).1) == 0,
        spec_layout(data, end, first, end, first).1 + 4 <= spec_layout(data, end, first, end, first).0,
        ({
            let e = ext4_xattr_entry::spec_at(data, spec_edit_target(data, first, end, idx, name)->0);
            e.e_value_size > 0 ==> e.e_value_offs > 0
        }),
        spec_set_in_bounds(data, first, end, idx, name, None),
        idx2 != idx || name2 != name,
        spec_edit_target(data, first, end, idx2, name2) is Some,
        ({
            let found = spec_edit_target(data, first, end, idx, name);
            let e2 = ext4_xattr_entry::spec_at(data, spec_edit_target(data, first, end, idx2, name2)->0);
            let o = ext4_xattr_entry::spec_at(data, found->0).e_value_offs as int;
            let a = spec_dropped_size(data, found);
            e2.e_value_size > 0 ==> {
                &&& e2.e_value_offs + e2.e_value_size <= data.len()
                &&& (e2.e_value_offs + e2.e_value_size <= o || e2.e_value_offs >= o + a)
            }
        }),
    ensures
        spec_lookup_value(spec_set_entry(data, first, end, idx, name, None), first, end, idx2, name2)
            == spec_lookup_value(data, first, end, idx2, name2),
        ({
            let stored = spec_set_entry(data, first, end, idx, name, None);
            let g = ext4_xattr_entry::spec_at(stored, spec_edit_target(stored, first, end, idx2, name2)->0);
            &&& stored.len() == data.len()
            &&& g.e_value_size == ext4_xattr_entry::spec_at(data, spec_edit_target(data, first, end, idx2, name2)->0).e_value_size
            &&& (g.e_value_size > 0 ==> g.e_value_offs + g.e_value_size <= data.len())
        }),
{
    let (m, last) = spec_layout(data, end, first, end, first);
    lemma_layout_bounds(data, end, first, end, first);
    lemma_walk_ends_after(data, end, first, last);
    let found = spec_edit_target(data, first, end, idx, name);
    let eo = found->0;
    let t0 = data.take(end);
    lemma_find_bounds(t0, end, first, idx, name);
    lemma_find_bounds(t0, end, first, idx2, name2);
    let x = spec_edit_target(data, first, end, idx2, name2)->0;
    assert(x != eo) by {
        if x == eo {
            assert(name2 =~= name);
        }
    }
    let nl = name.len() as int;
    assert(spec_entry_len(nl) >= 16 + nl);
    assert(t0[eo] == data[eo]);
    lemma_find_before_end(data, end, first, last, idx, name);
    let a = spec_dropped_size(data, found);
    assert(a > 0 ==> {
        let o = ext4_xattr_entry::spec_at(data, eo).e_value_offs as int;
        m + a <= data.len() && (o > m ==> o + a <= data.len())
    }) by {
        reveal(spec_set_in_bounds);
    }
    assert(eo + 16 + nl <= m);
    assert(last + 4 <= data.len()) by {
        reveal(spec_set_in_bounds);
    }
    lemma_drop_keeps_entry(data, first, end, idx, name, eo, m, last);
    lemma_drop_keeps_other(data, first, end, idx, name, eo, m, last, idx2, name2);
    let d1 = spec_after_drop(data, first, end, found);
    lemma_unlink_keeps_other(d1, first, end, idx, name, eo, last, idx2, name2, x);
    assert(spec_set_entry(data, first, end, idx, name, None) == spec_unlink(d1, eo, last)) by {
        reveal(spec_set_entry);
    }
}


/// Replacing the value of an attribute leaves the bytes before the first
/// entry as they were. Under the conditions of `lemma_replace_then_find`.
#[verifier::spinoff_prover]
#[verifier::rlimit(80)]
pub proof fn lemma_replace_keeps_prefix(data: Seq<u8>, first: int, end: int, idx: u8, name: Seq<u8>, v: Seq<u8>)
    requires
        0 <= first <= end <= data.len(),
        data.len() <= 0x10000,
        v.len() <= 0xffff_ffff,
        spec_edit_target(data, first, end, idx, name) is Some,
        spec_walk_to(data, end, first, spec_layout(data, end, first, end, first).1),
        spec_layout(data, end, first, end, first).1 + 4 <= spec_layout(data, end, first, end, first).0,
        ({
            let e = ext4_xattr_entry::spec_at(data, spec_edit_target(data, first, end, idx, name)->0);
            e.e_value_size > 0 ==> e.e_value_offs > 0
        }),
        spec_free(data, first, end, spec_edit_target(data, first, end, idx, name)) >= spec_required(
            name.len() as int,
            v.len() as int,
        ),
        spec_set_in_bounds(data, first, end, idx, name, Some(v)),
    ensures
        spec_set_entry(data, first, end, idx, name, Some(v)).len() == data.len(),
        forall|k: int| 0 <= k < first ==> #[trigger] spec_set_entry(data, first, end, idx, name, Some(v))[k] == data[k],
{
    let (m, last) = spec_layout(data, end, first, end, first);
    lemma_layout_bounds(data, end, first, end, first);
    lemma_walk_ends_after(data, end, first, last);
    let found = spec_edit_target(data, first, end, idx, name);
    let eo = found->0;
    let t0 = data.take(end);
    lemma_find_bounds(t0, end, first, idx, name);
    assert(t0[eo] == data[eo]);
    let vl = v.len() as int;
    let a = spec_dropped_size(data, found);
    assert(a == spec_value_size(ext4_xattr_entry::spec_at(data, eo).e_value_size as int));
    let floor = m + a;
    let vo = spec_new_value_offset(floor, vl);
    let vs = spec_value_size(vl);
    assert(vl > 0 ==> vo >= last + 4) by {
        reveal(spec_free);
    }
    assert(floor <= data.len() && (vl > 0 ==> floor >= vs)) by {
        reveal(spec_set_in_bounds);
    }
    let d1 = spec_after_drop(data, first, end, found);
    if a > 0 {
        let e = ext4_xattr_entry::spec_at(data, eo);
        let o = e.e_value_offs as int;
        assert(m + a <= data.len() && (o > m ==> o + a <= data.len())) by {
            reveal(spec_set_in_bounds);
        }
        let moved = if o > m { spec_splice(data, m + a, data.subrange(m, o)) } else { data };
        let d0 = spec_splice(moved, m, zeros(a as nat));
        assert(d0.len() == data.len());
        assert forall|k: int| 0 <= k < m implies d0[k] == data[k] by {
            assert(moved[k] == data[k]);
        }
        assert(d1 == spec_shift_offsets(d0, end, first, o, a));
        lemma_shift_prefix(d0, end, first, o, a);
    }
    assert(d1.len() == data.len());
    assert forall|k: int| 0 <= k < first implies #[trigger] d1[k] == data[k] by {}
    let stored = spec_put(d1, found, last, end, floor, idx, name, v);
    let w1 = spec_splice(spec_splice(d1, eo + 2, le16(vo as u16)), eo + 8, le32(vl as u32));
    assert(w1.len() == d1.len());
    assert forall|k: int| 0 <= k < first implies #[trigger] stored[k] == data[k] by {
        assert(w1[k] == d1[k]);
    }
    assert(spec_set_entry(data, first, end, idx, name, Some(v)) == stored) by {
        reveal(spec_set_entry);
    }
}


/// Removing an attribute leaves the bytes before the first entry as they
/// were. Under the conditions of `lemma_remove_then_find`.
#[verifier::spinoff_prover]
#[verifier::rlimit(80)]
pub proof fn lemma_remove_keeps_prefix(data: Seq<u8>, first: int, end: int, idx: u8, name: Seq<u8>)
    requires
        0 <= first <= end <= data.len(),
        data.len() <= 0x10000,
        spec_edit_target(data, first, end, idx, name) is Some,
        spec_walk_to(data, end, first, spec_layout(data, end, first, end, first).1),
        u32_at(data, spec_layout(data, end, first, end, first).1) == 0,
        spec_layout(data, end, first, end, first).1 + 4 <= spec_layout(data, end, first, end, first).0,
        spec_set_in_bounds(data, first, end, idx, name, None),
    ensures
        forall|k: int| 0 <= k < first ==> #[trigger] spec_set_entry(data, first, end, idx, name, None)[k] == data[k],
{
    let (m, last) = spec_layout(data, end, first, end, first);
    lemma_layout_bounds(data, end, first, end, first);
    lemma_walk_ends_after(data, end, first, last);
    let found = spec_edit_target(data, first, end, idx, name);
    let eo = found->0;
    let t0 = data.take(end);
    lemma_find_bounds(t0, end, first, idx, name);
    assert(t0[eo] == data[eo]);
    lemma_find_before_end(data, end, first, last, idx, name);
    let a = spec_dropped_size(data, found);
    let d1 = spec_after_drop(data, first, end, found);
    if a > 0 {
        let e = ext4_xattr_entry::spec_at(data, eo);
        let o = e.e_value_offs as int;
        assert(m + a <= data.len() && (o > m ==> o + a <= data.len())) by {
            reveal(spec_set_in_bounds);
        }
        let moved = if o > m { spec_splice(data, m + a, data.subrange(m, o)) } else { data };
        let d0 = spec_splice(moved, m, zeros(a as nat));
        assert(d0.len() == data.len());
        assert forall|k: int| 0 <= k < m implies d0[k] == data[k] by {
            assert(moved[k] == data[k]);
        }
        assert(d1 == spec_shift_offsets(d0, end, first, o, a));
        lemma_shift_prefix(d0, end, first, o, a);
    }
    assert(d1.len() == data.len());
    assert forall|k: int| 0 <= k < first implies #[trigger] d1[k] == data[k] by {}
    assert(last + 4 <= data.len() && eo + spec_entry_len(d1[eo] as int) <= last + 4) by {
        reveal(spec_set_in_bounds);
    }
    assert(spec_set_entry(data, first, end, idx, name, None) == spec_unlink(d1, eo, last)) by {
        reveal(spec_set_entry);
    }
    let u = spec_unlink(d1, eo, last);
    let total = spec_entry_len(d1[eo] as int);
    let mv = last + 4 - (eo + total);
    let mvd = if mv > 0 { spec_splice(d1, eo, d1.subrange(eo + total, eo + total + mv)) } else { d1 };
    assert(u == spec_splice(mvd, eo + mv, zeros(total as nat)));
    assert forall|k: int| 0 <= k < first implies #[trigger] u[k] == data[k] by {
        assert(mvd[k] == d1[k]);
    }
}

} // verus!
