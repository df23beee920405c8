//! Walking the attribute entries of an attribute area: finding an entry by
//! namespace and name, and measuring the free space between the entries
//! and the values.
//!
//! Entries follow one another from a first offset; each is 16 bytes and its
//! name, padded to 4 bytes. Four zero bytes end the list.

use vstd::prelude::*;
use crate::bytes::{read_u32_le, u32_at};
use crate::types::ext4_xattr_entry;

verus! {

/// Size of an entry header.
pub const ENTRY_SIZE: usize = 16;

/// Bytes an entry with a name of `name_len` bytes takes: 16 plus the name,
/// rounded up to 4.
pub open spec fn spec_entry_len(name_len: int) -> int {
    (name_len + 3 + 16) / 4 * 4
}

/// Whether the list ends at `off`: no room for four bytes, or four zero
/// bytes.
pub open spec fn spec_is_last(data: Seq<u8>, off: int) -> bool {
    off + 4 > data.len() || u32_at(data, off) == 0
}

/// The entry with namespace `idx` and name `name` in the list starting at
/// `off`, looking at entries that fit before `end`.
pub open spec fn spec_find(data: Seq<u8>, end: int, off: int, idx: u8, name: Seq<u8>) -> Option<int>
    decreases end + 300 - off,
{
    if off + 16 > end || off < 0 {
        None
    } else if spec_is_last(data, off) {
        None
    } else {
        let e = ext4_xattr_entry::spec_at(data, off);
        let nlen = e.e_name_len as int;
        if off + 16 + nlen > data.len() {
            None
        } else if nlen == name.len() && e.e_name_index == idx && data.subrange(
            off + 16,
            off + 16 + nlen,
        ) == name {
            Some(off)
        } else {
            proof {
                assert(spec_entry_len(nlen) >= 16);
            }
            spec_find(data, end, off + spec_entry_len(nlen), idx, name)
        }
    }
}

/// Walk for the free space: the smallest value offset of entries with an
/// in-area value, and the offset of the list end (or of the last entry
/// when the walk runs out of room first).
pub open spec fn spec_scan(data: Seq<u8>, end: int, off: int, min_value: int, last: int) -> (
    int,
    int,
)
    decreases end + 300 - off,
{
    if off + 16 > end || off < 0 {
        (min_value, last)
    } else if spec_is_last(data, off) {
        (min_value, off)
    } else {
        let e = ext4_xattr_entry::spec_at(data, off);
        let m = if e.e_value_block == 0 && e.e_value_size > 0 && e.e_value_offs < min_value {
            e.e_value_offs as int
        } else {
            min_value
        };
        proof {
            assert(spec_entry_len(e.e_name_len as int) >= 16);
        }
        spec_scan(data, end, off + spec_entry_len(e.e_name_len as int), m, off)
    }
}

/// Offset of the entry after one at `current_offset` with a name of
/// `name_len` bytes.
pub fn next_entry_offset(current_offset: usize, name_len: usize) -> (r: usize)
    requires
        name_len <= 255,
        current_offset + 276 <= usize::MAX,
    ensures
        r == current_offset + spec_entry_len(name_len as int),
{
    let x = name_len + 3 + ENTRY_SIZE;
    let len = x & !3usize;
    assert(x & !3usize == (x / 4) * 4) by (bit_vector)
        requires
            x <= 300,
    ;
    current_offset + len
}

/// Whether the entry list ends at `offset`.
pub fn is_last_entry(data: &[u8], offset: usize) -> (r: bool)
    ensures
        r == spec_is_last(data@, offset as int),
{
    if offset >= data.len() || data.len() - offset < 4 {
        return true;
    }
    read_u32_le(data, offset) == 0
}

/// A search over an attribute area.
#[derive(Debug)]
pub struct XattrSearch<'a> {
    /// Offset of the first entry.
    pub first: usize,
    /// Start of the area.
    pub base: usize,
    /// End of the area.
    pub end: usize,
    /// The entry found by the last search.
    pub here: Option<usize>,
    /// Whether the last search found nothing.
    pub not_found: bool,
    /// The area.
    pub data: &'a [u8],
}

impl<'a> XattrSearch<'a> {
    /// Offsets that stay far from the end of the address space.
    pub open spec fn wf(&self) -> bool {
        &&& self.end <= self.data@.len()
        &&& self.data@.len() + 1024 <= usize::MAX
        &&& self.first + 1024 <= usize::MAX
    }

    /// A search over `data` whose entries start at `first_offset`.
    pub fn new(data: &'a [u8], first_offset: usize) -> (r: Self)
        ensures
            r.first == first_offset,
            r.base == 0,
            r.end == data@.len(),
            r.here is None,
            r.not_found,
            r.data@ == data@,
    {
        XattrSearch { first: first_offset, base: 0, end: data.len(), here: None, not_found: true, data }
    }

    /// Finds the entry with namespace `name_index` and name `name`: its
    /// offset, its value offset (0 without a value) and its value size.
    pub fn find_entry(&mut self, name_index: u8, name: &[u8]) -> (r: Option<(usize, usize, u32)>)
        requires
            old(self).wf(),
        ensures
            final(self).first == old(self).first,
            final(self).base == old(self).base,
            final(self).end == old(self).end,
            final(self).data@ == old(self).data@,
            match spec_find(old(self).data@, old(self).end as int, old(self).first as int, name_index, name@) {
                None => r is None && final(self).here is None && final(self).not_found,
                Some(off) => {
                    let e = ext4_xattr_entry::spec_at(old(self).data@, off);
                    &&& r == Some((
                        off as usize,
                        (if e.e_value_size > 0 { e.e_value_offs as usize } else { 0usize }),
                        e.e_value_size,
                    ))
                    &&& final(self).here == Some(off as usize)
                    &&& !final(self).not_found
                },
            },
    {
        self.not_found = true;
        self.here = None;
        let mut offset = self.first;
        let ghost f0 = spec_find(self.data@, self.end as int, self.first as int, name_index, name@);
        loop
            invariant
                self.wf(),
                self.first == old(self).first,
                self.base == old(self).base,
                self.end == old(self).end,
                self.data@ == old(self).data@,
                self.here is None,
                self.not_found,
                offset <= self.end + 300 || offset == self.first,
                offset + 276 <= usize::MAX,
                spec_find(self.data@, self.end as int, offset as int, name_index, name@) == f0,
                f0 == spec_find(old(self).data@, old(self).end as int, old(self).first as int, name_index, name@),
            ensures
                f0 is None,
                self.here is None,
                self.not_found,
                self.first == old(self).first,
                self.base == old(self).base,
                self.end == old(self).end,
                self.data@ == old(self).data@,
            decreases self.end + 300 - offset,
        {
            if offset > self.end || self.end - offset < ENTRY_SIZE {
                break;
            }
            if is_last_entry(self.data, offset) {
                break;
            }
            let entry = ext4_xattr_entry::read_at(self.data, offset);
            let entry_name_len = entry.e_name_len as usize;
            let name_offset = offset + ENTRY_SIZE;
            if name_offset + entry_name_len > self.data.len() {
                break;
            }
            if entry_name_len == name.len() && entry.e_name_index == name_index {
                let mut same = true;
                let mut k: usize = 0;
                while k < entry_name_len
                    invariant
                        self.wf(),
                        k <= entry_name_len,
                        entry_name_len == name@.len(),
                        name_offset + entry_name_len <= self.data@.len(),
                        same == (forall|j: int| 0 <= j < k ==> self.data@[name_offset + j] == name@[j]),
                    decreases entry_name_len - k,
                {
                    if self.data[name_offset + k] != name[k] {
                        same = false;
                    }
                    k = k + 1;
                }
                assert(same == (self.data@.subrange(name_offset as int, name_offset + entry_name_len) =~= name@));
                if same {
                    self.here = Some(offset);
                    self.not_found = false;
                    let value_size = entry.value_size();
                    let value_offset = if value_size > 0 { entry.e_value_offs as usize } else { 0 };
                    return Some((offset, value_offset, value_size));
                }
            }
            offset = next_entry_offset(offset, entry_name_len);
        }
        None
    }

    /// Whether the area holds no entry.
    pub fn is_empty(&self) -> (r: bool)
        ensures
            r == spec_is_last(self.data@, self.first as int),
    {
        is_last_entry(self.data, self.first)
    }

    /// Bytes free between the end of the entry list (its terminator
    /// included) and the lowest value offset; 0 when they overlap.
    pub fn free_space(&self) -> (r: usize)
        requires
            self.wf(),
        ensures
            ({
                let (m, last) = spec_scan(self.data@, self.end as int, self.first as int, self.end as int, self.first as int);
                r == (if m > last + 16 { m - (last + 16) } else { 0 })
            }),
    {
        let mut min_value_offset = self.end;
        let mut last_entry_offset = self.first;
        let mut offset = self.first;
        let ghost target = spec_scan(self.data@, self.end as int, self.first as int, self.end as int, self.first as int);
        loop
            invariant
                self.wf(),
                offset <= self.end + 300 || offset == self.first,
                offset + 276 <= usize::MAX,
                min_value_offset <= self.end,
                last_entry_offset <= self.end || last_entry_offset == self.first,
                spec_scan(self.data@, self.end as int, offset as int, min_value_offset as int, last_entry_offset as int) == target,
            ensures
                (min_value_offset as int, last_entry_offset as int) == target,
                min_value_offset <= self.end,
                last_entry_offset <= self.end || last_entry_offset == self.first,
            decreases self.end + 300 - offset,
        {
            if offset > self.end || self.end - offset < ENTRY_SIZE {
                break;
            }
            if is_last_entry(self.data, offset) {
                last_entry_offset = offset;
                break;
            }
            let entry = ext4_xattr_entry::read_at(self.data, offset);
            let entry_name_len = entry.e_name_len as usize;
            if entry.e_value_block == 0 && entry.value_size() > 0 {
                let value_offset = entry.e_value_offs as usize;
                if value_offset < min_value_offset {
                    min_value_offset = value_offset;
                }
            }
            last_entry_offset = offset;
            offset = next_entry_offset(offset, entry_name_len);
        }
        let entries_end = last_entry_offset + ENTRY_SIZE;
        if min_value_offset > entries_end {
            min_value_offset - entries_end
        } else {
            0
        }
    }
}

} // verus!
