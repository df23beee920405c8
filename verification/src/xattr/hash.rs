//! Attribute hashes and attribute block checksums.

use vstd::prelude::*;
use crate::bytes::{le64, push_u64_le, read_u32_le, u32_at};
use crate::consts::{
    BLOCK_HASH_SHIFT, EXT4_CRC32_INIT, EXT4_FEATURE_RO_COMPAT_METADATA_CSUM, NAME_HASH_SHIFT,
    VALUE_HASH_SHIFT,
};
use crate::crc::{crc32c_append, spec_crc32c};
use crate::superblock::checksum::spec_has_metadata_csum;
use crate::superblock::Superblock;
use crate::types::{ext4_xattr_entry, ext4_xattr_header};
use crate::xattr::search::spec_entry_len;

verus! {

/// One hash step: rotate left by `shift` and add `x`, all modulo 2^32.
pub open spec fn spec_mix(h: u32, shift: u32, x: u32) -> u32 {
    h.wrapping_shl(shift).wrapping_add(h.wrapping_shr((32 - shift) as u32)).wrapping_add(x)
}

fn mix(h: u32, shift: u32, x: u32) -> (r: u32)
    requires
        shift <= 32,
    ensures
        r == spec_mix(h, shift, x),
{
    h.wrapping_shl(shift).wrapping_add(h.wrapping_shr(32 - shift)).wrapping_add(x)
}

/// Hash of the first `n` bytes of a name.
pub open spec fn spec_name_hash(name: Seq<u8>, n: nat) -> u32
    decreases n,
{
    if n == 0 {
        0
    } else {
        spec_mix(spec_name_hash(name, (n - 1) as nat), NAME_HASH_SHIFT, name[n - 1] as u32)
    }
}

/// Hash `h` continued over the first `k` little-endian words of a value.
pub open spec fn spec_value_hash(h: u32, value: Seq<u8>, k: nat) -> u32
    decreases k,
{
    if k == 0 {
        h
    } else {
        spec_mix(spec_value_hash(h, value, (k - 1) as nat), VALUE_HASH_SHIFT, u32_at(value, 4 * (k - 1)))
    }
}

/// Hash of an entry: its name (at most `e_name_len` bytes of it), then,
/// for a value stored in the area, the whole 4-byte words of the value
/// among its first `value_size` bytes rounded up to 4.
pub open spec fn spec_entry_hash(entry: ext4_xattr_entry, name: Seq<u8>, value: Option<Seq<u8>>) -> u32 {
    let n = if name.len() < entry.e_name_len { name.len() } else { entry.e_name_len as nat };
    let h = spec_name_hash(name, n);
    if entry.e_value_block == 0 && entry.e_value_size != 0 && value is Some {
        let v = value->Some_0;
        let aligned = (entry.e_value_size as int + 3) / 4;
        let words: int = if aligned < v.len() / 4 { aligned } else { (v.len() / 4) as int };
        spec_value_hash(h, v, words as nat)
    } else {
        h
    }
}

/// Computes the hash of an entry from its name and value.
pub fn compute_entry_hash(entry: &ext4_xattr_entry, name: &[u8], value_data: Option<&[u8]>) -> (r: u32)
    ensures
        r == spec_entry_hash(*entry, name@, match value_data {
            Some(v) => Some(v@),
            None => None,
        }),
{
    let mut hash: u32 = 0;
    let n = if name.len() < entry.e_name_len as usize { name.len() } else { entry.e_name_len as usize };
    let mut i: usize = 0;
    while i < n
        invariant
            i <= n,
            n <= name@.len(),
            hash == spec_name_hash(name@, i as nat),
        decreases n - i,
    {
        hash = mix(hash, NAME_HASH_SHIFT, name[i] as u32);
        i = i + 1;
    }
    if entry.e_value_block == 0 && entry.e_value_size != 0 {
        if let Some(value) = value_data {
            let aligned = (entry.e_value_size as u64 + 3) / 4;
            let avail = (value.len() / 4) as u64;
            let words = if aligned < avail { aligned } else { avail };
            let ghost h0 = hash;
            let mut k: u64 = 0;
            let mut pos: usize = 0;
            let vlen = value.len();
            while k < words
                invariant
                    vlen == value@.len(),
                    k <= words,
                    words <= value@.len() / 4,
                    pos == 4 * k,
                    hash == spec_value_hash(h0, value@, k as nat),
                decreases words - k,
            {
                let val = read_u32_le(value, pos);
                hash = mix(hash, VALUE_HASH_SHIFT, val);
                k = k + 1;
                pos = pos + 4;
            }
        }
    }
    hash
}

/// Hash of the entry list starting at `off`, continuing from `h`: each
/// entry's stored hash is mixed in; an entry whose hash is zero makes the
/// block hash zero.
pub open spec fn spec_block_hash(entries: Seq<u8>, off: int, h: u32) -> u32
    decreases entries.len() + 300 - off,
{
    if off < 0 || off + 4 > entries.len() {
        h
    } else if u32_at(entries, off) == 0 {
        h
    } else if off + 16 > entries.len() {
        h
    } else if u32_at(entries, off + 12) == 0 {
        0
    } else {
        proof {
            assert(spec_entry_len(entries[off] as int) >= 16);
        }
        spec_block_hash(entries, off + spec_entry_len(entries[off] as int), spec_mix(h, BLOCK_HASH_SHIFT, u32_at(entries, off + 12)))
    }
}

/// Stores the entry's hash in it, then computes the block hash over the
/// stored hashes of the entries in `all_entries` and stores it in the
/// header; returns the block hash.
pub fn rehash_block(
    header: &mut ext4_xattr_header,
    entry: &mut ext4_xattr_entry,
    name: &[u8],
    value_data: Option<&[u8]>,
    all_entries: &[u8],
) -> (r: u32)
    requires
        all_entries@.len() + 1024 <= usize::MAX,
    ensures
        *final(entry) == (ext4_xattr_entry {
            e_hash: spec_entry_hash(*old(entry), name@, match value_data {
                Some(v) => Some(v@),
                None => None,
            }),
            ..*old(entry)
        }),
        r == spec_block_hash(all_entries@, 0, 0),
        *final(header) == (ext4_xattr_header { h_hash: r, ..*old(header) }),
{
    let entry_hash = compute_entry_hash(entry, name, value_data);
    entry.e_hash = entry_hash;
    let mut block_hash: u32 = 0;
    let mut offset: usize = 0;
    let len = all_entries.len();
    loop
        invariant
            len == all_entries@.len(),
            len + 1024 <= usize::MAX,
            offset <= len + 300,
            spec_block_hash(all_entries@, offset as int, block_hash) == spec_block_hash(all_entries@, 0, 0),
        ensures
            block_hash == spec_block_hash(all_entries@, 0, 0),
        decreases len + 300 - offset,
    {
        if offset + 4 > len {
            break;
        }
        if read_u32_le(all_entries, offset) == 0 {
            break;
        }
        if offset + 16 > len {
            break;
        }
        let e_name_len = all_entries[offset];
        let e_hash = read_u32_le(all_entries, offset + 12);
        if e_hash == 0 {
            block_hash = 0;
            break;
        }
        block_hash = mix(block_hash, BLOCK_HASH_SHIFT, e_hash);
        let x = e_name_len as usize + 3;
        let rounded = x & !3usize;
        assert(x & !3usize == (x / 4) * 4) by (bit_vector)
            requires
                x <= 300,
        ;
        assert(16 + rounded == spec_entry_len(e_name_len as int));
        offset = offset + 16 + rounded;
    }
    header.h_hash = block_hash;
    block_hash
}

/// Checksum of an attribute block: 0 without metadata checksums, else
/// the CRC32C of the filesystem UUID, the little-endian block number and
/// the block bytes.
pub open spec fn spec_block_checksum(sb: crate::types::ext4_sblock, block_num: u64, data: Seq<u8>) -> u32 {
    if !spec_has_metadata_csum(sb) {
        0
    } else {
        spec_crc32c(spec_crc32c(spec_crc32c(EXT4_CRC32_INIT, sb.uuid@), le64(block_num)), data)
    }
}

/// Computes the checksum of attribute block `block_num`.
pub fn compute_block_checksum(sb: &Superblock, block_num: u64, block_data: &[u8]) -> (r: u32)
    ensures
        r == spec_block_checksum(sb@, block_num, block_data@),
{
    if !sb.has_ro_compat_feature(EXT4_FEATURE_RO_COMPAT_METADATA_CSUM) {
        return 0;
    }
    let uuid = sb.uuid();
    let mut crc = crc32c_append(EXT4_CRC32_INIT, uuid);
    let mut num: Vec<u8> = Vec::new();
    push_u64_le(&mut num, block_num);
    crc = crc32c_append(crc, num.as_slice());
    crc32c_append(crc, block_data)
}

/// Stores the block checksum in the header when metadata checksums are
/// enabled; otherwise changes nothing.
pub fn set_block_checksum(sb: &Superblock, block_num: u64, header: &mut ext4_xattr_header, block_data: &[u8])
    ensures
        spec_has_metadata_csum(sb@) ==> *final(header) == (ext4_xattr_header {
            h_checksum: spec_block_checksum(sb@, block_num, block_data@),
            ..*old(header)
        }),
        !spec_has_metadata_csum(sb@) ==> *final(header) == *old(header),
{
    if !sb.has_metadata_csum() {
        return;
    }
    header.h_checksum = 0;
    let checksum = compute_block_checksum(sb, block_num, block_data);
    header.h_checksum = checksum;
}


/// `x` rotated left by 16 bits.
pub open spec fn spec_rotl16(x: u32) -> int {
    (x as int % 0x1_0000) * 0x1_0000 + x as int / 0x1_0000
}

/// `x` rotated left by 5 bits.
pub open spec fn spec_rotl5(x: u32) -> int {
    (x as int % 0x800_0000) * 32 + x as int / 0x800_0000
}

/// One step with a 16-bit shift rotates left by 16 bits and adds, modulo
/// 2^32.
proof fn lemma_mix_16(x: u32, w: u32)
    ensures
        spec_mix(x, 16, w) as int == (spec_rotl16(x) + w as int) % 0x1_0000_0000,
{
    assert((x << 16u32) as int == (x as int % 0x1_0000) * 0x1_0000 && (x >> 16u32) as int == x as int / 0x1_0000)
        by (bit_vector);
}

/// One step with a 5-bit shift rotates left by 5 bits and adds, modulo
/// 2^32.
proof fn lemma_mix_5(x: u32, w: u32)
    ensures
        spec_mix(x, 5, w) as int == (spec_rotl5(x) + w as int) % 0x1_0000_0000,
{
    assert((x << 5u32) as int == (x as int % 0x800_0000) * 32 && (x >> 27u32) as int == x as int / 0x800_0000)
        by (bit_vector);
}

/// The name hash starts at zero, and each name byte rotates the hash left
/// by 5 bits and is added, modulo 2^32.
pub proof fn lemma_name_hash_step(name: Seq<u8>, n: nat)
    ensures
        spec_name_hash(name, 0) == 0,
        spec_name_hash(name, n + 1) as int == (spec_rotl5(spec_name_hash(name, n)) + name[n as int] as int)
            % 0x1_0000_0000,
{
    assert(spec_name_hash(name, (n + 1) as nat) == spec_mix(spec_name_hash(name, n), NAME_HASH_SHIFT, name[n as int] as u32));
    lemma_mix_5(spec_name_hash(name, n), name[n as int] as u32);
}

/// The value hash continues the name hash: each little-endian 4-byte
/// word of the value rotates the hash left by 16 bits and is added,
/// modulo 2^32.
pub proof fn lemma_value_hash_step(h: u32, value: Seq<u8>, k: nat)
    ensures
        spec_value_hash(h, value, 0) == h,
        spec_value_hash(h, value, k + 1) as int == (spec_rotl16(spec_value_hash(h, value, k)) + u32_at(
            value,
            4 * k as int,
        ) as int) % 0x1_0000_0000,
{
    assert(spec_value_hash(h, value, (k + 1) as nat) == spec_mix(spec_value_hash(h, value, k), VALUE_HASH_SHIFT, u32_at(value, 4 * k as int)));
    lemma_mix_16(spec_value_hash(h, value, k), u32_at(value, 4 * k as int));
}

/// An entry whose value, stored in the area, is one word long hashes to
/// its name hash rotated left by 16 bits plus that word, modulo 2^32.
pub proof fn lemma_entry_hash_one_word(entry: ext4_xattr_entry, name: Seq<u8>, value: Seq<u8>)
    requires
        entry.e_value_block == 0,
        0 < entry.e_value_size <= 4,
        value.len() >= 4,
        name.len() == entry.e_name_len,
    ensures
        spec_entry_hash(entry, name, Some(value)) as int == (spec_rotl16(spec_name_hash(name, name.len()))
            + u32_at(value, 0) as int) % 0x1_0000_0000,
{
    lemma_value_hash_step(spec_name_hash(name, name.len()), value, 0);
    assert(spec_value_hash(spec_name_hash(name, name.len()), value, 1) == spec_mix(
        spec_value_hash(spec_name_hash(name, name.len()), value, 0),
        VALUE_HASH_SHIFT,
        u32_at(value, 0),
    ));
}


/// The block hash runs over the entry list: an entry with a stored hash
/// rotates the block hash left by 16 bits and adds that hash, modulo 2^32;
/// an entry whose stored hash is zero makes the block hash zero.
pub proof fn lemma_block_hash_step(entries: Seq<u8>, off: int, h: u32)
    requires
        0 <= off,
        off + 16 <= entries.len(),
        u32_at(entries, off) != 0,
    ensures
        u32_at(entries, off + 12) == 0 ==> spec_block_hash(entries, off, h) == 0,
        u32_at(entries, off + 12) != 0 ==> ({
            let g = spec_mix(h, BLOCK_HASH_SHIFT, u32_at(entries, off + 12));
            &&& g as int == (spec_rotl16(h) + u32_at(entries, off + 12) as int) % 0x1_0000_0000
            &&& spec_block_hash(entries, off, h) == spec_block_hash(
                entries,
                off + spec_entry_len(entries[off] as int),
                g,
            )
        }),
{
    lemma_mix_16(h, u32_at(entries, off + 12));
}

} // verus!
