//! Inode setters and the encoding of an inode for writing back.

use vstd::prelude::*;
use vstd::arithmetic::power2::{pow2, lemma_pow2_unfold, lemma2_to64};
use crate::bytes::{split_u32, split_u64};
use crate::consts::{
    EXT4_FEATURE_RO_COMPAT_HUGE_FILE, EXT4_GOOD_OLD_INODE_SIZE, EXT4_INODE_DIRECT_BLOCKS,
    EXT4_INODE_FLAG_HUGE_FILE, EXT4_INODE_INDIRECT_BLOCK, EXT4_SUPERBLOCK_OS_LINUX,
};
use crate::error::{Error, ErrorKind, Result};
use crate::inode::checksum::{
    spec_checksum_size_ok, spec_compute_checksum, spec_get_checksum, spec_has_checksum_hi,
    spec_verify_checksum,
};
use crate::inode::{spec_gid, spec_uid, Inode};
use crate::superblock::checksum::spec_has_metadata_csum;
use crate::superblock::Superblock;
use crate::types::{ext4_inode, ext4_sblock};

verus! {

/// Bits per block address unit: 8, plus one for each halving of the block
/// size while it is above 256.
pub open spec fn spec_block_bits(size: u32) -> int
    decreases size,
{
    if size <= 256 {
        8
    } else {
        1 + spec_block_bits(size / 2)
    }
}

proof fn lemma_block_bits_bound(size: u32, n: nat)
    requires
        size < 256 * pow2(n),
    ensures
        spec_block_bits(size) <= 8 + n,
    decreases size,
{
    if size > 256 {
        if n == 0 {
            lemma2_to64();
        } else {
            lemma_pow2_unfold(n);
            lemma_block_bits_bound(size / 2, (n - 1) as nat);
        }
    }
}

/// Number of address bits of a block of `block_size` bytes.
pub fn inode_block_bits_count(block_size: u32) -> (r: u32)
    ensures
        r == spec_block_bits(block_size),
        r <= 32,
{
    let mut bits: u32 = 8;
    let mut size: u32 = block_size;
    proof {
        lemma2_to64();
        lemma_block_bits_bound(block_size, 24);
        lemma_block_bits_ge8(block_size);
    }
    while size > 256
        invariant
            bits + spec_block_bits(size) == 8 + spec_block_bits(block_size),
            spec_block_bits(block_size) <= 32,
            spec_block_bits(size) >= 8,
        decreases size,
    {
        let prev = size;
        bits = bits + 1;
        size = size >> 1;
        assert(size == prev / 2) by {
            assert(forall|x: u32| #[trigger] (x >> 1u32) == x / 2) by (bit_vector);
        }
        proof {
            lemma_block_bits_ge8(size);
        }
    }
    bits
}

proof fn lemma_block_bits_ge8(size: u32)
    ensures
        spec_block_bits(size) >= 8,
    decreases size,
{
    if size > 256 {
        lemma_block_bits_ge8(size / 2);
    }
}

/// How `set_blocks_count` stores a sector count: the value kept in
/// `blocks_count_lo` and `blocks_high`, and whether the huge-file flag is
/// set. `None` when the count needs the huge-file feature and the
/// filesystem lacks it.
pub open spec fn spec_blocks_encoding(sb: ext4_sblock, count: u64) -> Option<(int, bool)> {
    if count <= 0xFFFF_FFFF {
        Some((count as int, false))
    } else if sb.feature_ro_compat & EXT4_FEATURE_RO_COMPAT_HUGE_FILE == 0 {
        None
    } else if count <= 0xFFFF_FFFF_FFFF {
        Some((count as int, false))
    } else {
        let shift = spec_block_bits(sb.spec_block_size()) - 9;
        Some(((count >> shift as u64) as int % 0x1_0000_0000_0000, true))
    }
}

impl Inode {
    /// The raw record, for direct changes.
    pub fn inner_mut(&mut self) -> (r: &mut ext4_inode)
        ensures
            *r == old(self).inner,
            final(self).inner == *final(r),
            final(self).inode_num == old(self).inode_num,
    {
        &mut self.inner
    }

    /// Updates the checksum, then returns the record of `inode_size` bytes
    /// to write at the inode's place in the inode table.
    pub fn write(&mut self, sb: &Superblock) -> (r: Vec<u8>)
        requires
            spec_checksum_size_ok(sb@),
        ensures
            final(self).inode_num == old(self).inode_num,
            final(self).inner == ({
                let c = spec_compute_checksum(sb@, old(self).inode_num, old(self).inner) as int;
                if spec_has_checksum_hi(sb@) {
                    ext4_inode {
                        checksum_lo: (c % 0x1_0000) as u16,
                        checksum_hi: (c / 0x1_0000) as u16,
                        ..old(self).inner
                    }
                } else {
                    ext4_inode { checksum_lo: (c % 0x1_0000) as u16, ..old(self).inner }
                }
            }),
            r@ == crate::inode::checksum::spec_inode_record(
                final(self).inner,
                sb@.spec_inode_size() as nat,
            ),
    {
        self.update_checksum(sb);
        crate::inode::checksum::inode_record_bytes(&self.inner, sb.inode_size() as usize)
    }

    /// Sets the mode to the low 16 bits of `mode`.
    pub fn set_mode(&mut self, _sb: &Superblock, mode: u32)
        ensures
            *final(self) == (Inode {
                inner: ext4_inode { mode: (mode as int % 0x1_0000) as u16, ..old(self).inner },
                ..*old(self)
            }),
    {
        let (lo, _hi) = split_u32(mode);
        self.inner.mode = lo;
    }

    /// Sets the 32-bit owner user id.
    pub fn set_uid(&mut self, uid: u32)
        ensures
            *final(self) == (Inode {
                inner: ext4_inode {
                    uid: (uid as int % 0x1_0000) as u16,
                    uid_high: (uid as int / 0x1_0000) as u16,
                    ..old(self).inner
                },
                ..*old(self)
            }),
            spec_uid(final(self).inner) == uid,
    {
        let (lo, hi) = split_u32(uid);
        self.inner.uid = lo;
        self.inner.uid_high = hi;
    }

    /// Sets the 32-bit owner group id.
    pub fn set_gid(&mut self, gid: u32)
        ensures
            *final(self) == (Inode {
                inner: ext4_inode {
                    gid: (gid as int % 0x1_0000) as u16,
                    gid_high: (gid as int / 0x1_0000) as u16,
                    ..old(self).inner
                },
                ..*old(self)
            }),
            spec_gid(final(self).inner) == gid,
    {
        let (lo, hi) = split_u32(gid);
        self.inner.gid = lo;
        self.inner.gid_high = hi;
    }

    /// Sets the file size in bytes.
    pub fn set_size(&mut self, size: u64)
        ensures
            *final(self) == (Inode {
                inner: ext4_inode {
                    size_lo: (size as int % 0x1_0000_0000) as u32,
                    size_hi: (size as int / 0x1_0000_0000) as u32,
                    ..old(self).inner
                },
                ..*old(self)
            }),
            final(self).inner.spec_file_size() == size,
    {
        let (lo, hi) = split_u64(size);
        self.inner.size_lo = lo;
        self.inner.size_hi = hi;
    }

    /// Sets the last access time.
    pub fn set_access_time(&mut self, time: u32)
        ensures
            *final(self) == (Inode { inner: ext4_inode { atime: time, ..old(self).inner }, ..*old(self) }),
    {
        self.inner.atime = time;
    }

    /// Sets the inode change time.
    pub fn set_change_time(&mut self, time: u32)
        ensures
            *final(self) == (Inode { inner: ext4_inode { ctime: time, ..old(self).inner }, ..*old(self) }),
    {
        self.inner.ctime = time;
    }

    /// Sets the modification time.
    pub fn set_modification_time(&mut self, time: u32)
        ensures
            *final(self) == (Inode { inner: ext4_inode { mtime: time, ..old(self).inner }, ..*old(self) }),
    {
        self.inner.mtime = time;
    }

    /// Sets the deletion time.
    pub fn set_deletion_time(&mut self, time: u32)
        ensures
            *final(self) == (Inode { inner: ext4_inode { dtime: time, ..old(self).inner }, ..*old(self) }),
    {
        self.inner.dtime = time;
    }

    /// Sets the hard link count.
    pub fn set_links_count(&mut self, count: u16)
        ensures
            *final(self) == (Inode {
                inner: ext4_inode { links_count: count, ..old(self).inner },
                ..*old(self)
            }),
    {
        self.inner.links_count = count;
    }

    /// Sets all flags.
    pub fn set_flags(&mut self, flags: u32)
        ensures
            *final(self) == (Inode { inner: ext4_inode { flags: flags, ..old(self).inner }, ..*old(self) }),
    {
        self.inner.flags = flags;
    }

    /// Sets the bits of `flag`, keeping the others.
    pub fn set_flag(&mut self, flag: u32)
        ensures
            *final(self) == (Inode {
                inner: ext4_inode { flags: old(self).inner.flags | flag, ..old(self).inner },
                ..*old(self)
            }),
    {
        let flags = self.flags();
        self.set_flags(flags | flag);
    }

    /// Clears the bits of `flag`, keeping the others.
    pub fn clear_flag(&mut self, flag: u32)
        ensures
            *final(self) == (Inode {
                inner: ext4_inode { flags: old(self).inner.flags & !flag, ..old(self).inner },
                ..*old(self)
            }),
    {
        let flags = self.flags();
        self.set_flags(flags & !flag);
    }

    /// Sets the generation number.
    pub fn set_generation(&mut self, generation: u32)
        ensures
            *final(self) == (Inode {
                inner: ext4_inode { generation: generation, ..old(self).inner },
                ..*old(self)
            }),
    {
        self.inner.generation = generation;
    }

    /// Sets direct block pointer `index`; an index past the direct pointers
    /// changes nothing.
    pub fn set_direct_block(&mut self, index: u32, block: u32)
        ensures
            final(self).inode_num == old(self).inode_num,
            final(self).inner == (ext4_inode { blocks: final(self).inner.blocks, ..old(self).inner }),
            final(self).inner.blocks@ == (if index < EXT4_INODE_DIRECT_BLOCKS {
                old(self).inner.blocks@.update(index as int, block)
            } else {
                old(self).inner.blocks@
            }),
    {
        if (index as usize) < EXT4_INODE_DIRECT_BLOCKS {
            self.inner.blocks[index as usize] = block;
        }
    }

    /// Sets indirect pointer `index` (0 single, 1 double, 2 triple); larger
    /// indices set the triple indirect pointer.
    pub fn set_indirect_block(&mut self, index: u32, block: u32)
        ensures
            final(self).inode_num == old(self).inode_num,
            final(self).inner == (ext4_inode { blocks: final(self).inner.blocks, ..old(self).inner }),
            final(self).inner.blocks@ == old(self).inner.blocks@.update(
                if index >= 2 { 14 } else { EXT4_INODE_INDIRECT_BLOCK + index },
                block,
            ),
    {
        let idx: usize = if index >= 2 { 14 } else { EXT4_INODE_INDIRECT_BLOCK + index as usize };
        self.inner.blocks[idx] = block;
    }

    /// Sets the extra inode size, when inodes are larger than the old
    /// 128-byte format; otherwise changes nothing.
    pub fn set_extra_isize(&mut self, sb: &Superblock, size: u16)
        ensures
            *final(self) == (if sb@.spec_inode_size() > EXT4_GOOD_OLD_INODE_SIZE {
                Inode { inner: ext4_inode { extra_isize: size, ..old(self).inner }, ..*old(self) }
            } else {
                *old(self)
            }),
    {
        let inode_size = sb.inode_size();
        if inode_size as usize > EXT4_GOOD_OLD_INODE_SIZE {
            self.inner.extra_isize = size;
        }
    }

    /// Sets the extended-attribute block address: its low 32 bits always,
    /// bits 32 to 47 when the filesystem was made by Linux.
    pub fn set_file_acl(&mut self, sb: &Superblock, acl: u64)
        ensures
            *final(self) == (if sb@.creator_os == EXT4_SUPERBLOCK_OS_LINUX {
                Inode {
                    inner: ext4_inode {
                        file_acl_lo: (acl as int % 0x1_0000_0000) as u32,
                        file_acl_high: ((acl as int / 0x1_0000_0000) % 0x1_0000) as u16,
                        ..old(self).inner
                    },
                    ..*old(self)
                }
            } else {
                Inode {
                    inner: ext4_inode {
                        file_acl_lo: (acl as int % 0x1_0000_0000) as u32,
                        ..old(self).inner
                    },
                    ..*old(self)
                }
            }),
    {
        let (lo, hi) = split_u64(acl);
        self.inner.file_acl_lo = lo;
        if sb.inner().creator_os == EXT4_SUPERBLOCK_OS_LINUX {
            let (hi_lo, _hi_hi) = split_u32(hi);
            self.inner.file_acl_high = hi_lo;
        }
    }

    /// Stores a device number: in direct pointer 1 when it needs more than
    /// 16 bits, else in direct pointer 0.
    pub fn set_dev(&mut self, dev: u32)
        ensures
            final(self).inode_num == old(self).inode_num,
            final(self).inner == (ext4_inode { blocks: final(self).inner.blocks, ..old(self).inner }),
            final(self).inner.blocks@ == old(self).inner.blocks@.update(
                if dev > 0xFFFF { 1 } else { 0 },
                dev,
            ),
    {
        if dev & !0xFFFFu32 != 0 {
            assert(dev & !0xFFFFu32 != 0 ==> dev > 0xFFFF) by (bit_vector);
            self.set_direct_block(1, dev);
        } else {
            assert(dev & !0xFFFFu32 == 0 ==> dev <= 0xFFFF) by (bit_vector);
            self.set_direct_block(0, dev);
        }
    }

    /// Sets the count of 512-byte sectors. Counts above 32 bits need the
    /// huge-file feature (else `InvalidInput`); counts above 48 bits are
    /// stored in filesystem blocks with the huge-file flag set.
    pub fn set_blocks_count(&mut self, sb: &Superblock, count: u64) -> (r: Result<()>)
        requires
            count > 0xFFFF_FFFF_FFFF && sb@.feature_ro_compat & EXT4_FEATURE_RO_COMPAT_HUGE_FILE
                != 0 ==> sb@.log_block_size <= 21,
        ensures
            spec_blocks_encoding(sb@, count) is None <==> r is Err,
            r is Err ==> r->Err_0.spec_kind() == ErrorKind::InvalidInput && *final(self) == *old(self),
            spec_blocks_encoding(sb@, count) matches Some((v, huge)) ==> *final(self) == (Inode {
                inner: ext4_inode {
                    blocks_count_lo: (v % 0x1_0000_0000) as u32,
                    blocks_high: (v / 0x1_0000_0000) as u16,
                    flags: if huge {
                        old(self).inner.flags | EXT4_INODE_FLAG_HUGE_FILE
                    } else {
                        old(self).inner.flags & !EXT4_INODE_FLAG_HUGE_FILE
                    },
                    ..old(self).inner
                },
                ..*old(self)
            }),
    {
        if count <= 0xFFFF_FFFF {
            let (lo, _hi) = split_u64(count);
            self.inner.blocks_count_lo = lo;
            self.inner.blocks_high = 0;
            self.clear_flag(EXT4_INODE_FLAG_HUGE_FILE);
            return Ok(());
        }
        if !sb.has_ro_compat_feature(EXT4_FEATURE_RO_COMPAT_HUGE_FILE) {
            return Err(Error::new(
                ErrorKind::InvalidInput,
                "Filesystem does not support HUGE_FILE feature",
            ));
        }
        if count <= 0xFFFF_FFFF_FFFF {
            let (lo, hi) = split_u64(count);
            let (hi_lo, _hi_hi) = split_u32(hi);
            self.inner.blocks_count_lo = lo;
            self.inner.blocks_high = hi_lo;
            self.clear_flag(EXT4_INODE_FLAG_HUGE_FILE);
        } else {
            let block_size = sb.block_size();
            let block_bits = inode_block_bits_count(block_size);
            proof {
                lemma_block_size_bits(sb@.log_block_size);
            }
            self.set_flag(EXT4_INODE_FLAG_HUGE_FILE);
            let scaled_count = count >> ((block_bits - 9) as u64);
            let (lo, hi) = split_u64(scaled_count);
            let (hi_lo, _hi_hi) = split_u32(hi);
            self.inner.blocks_count_lo = lo;
            self.inner.blocks_high = hi_lo;
        }
        Ok(())
    }

    /// The stored checksum.
    pub fn get_checksum(&self, sb: &Superblock) -> (r: u32)
        ensures
            r == spec_get_checksum(sb@, self.inner),
    {
        crate::inode::checksum::get_checksum(sb, &self.inner)
    }

    /// Stores `checksum` (its high half only when the record has room).
    pub fn set_checksum(&mut self, sb: &Superblock, checksum: u32)
        ensures
            final(self).inode_num == old(self).inode_num,
            final(self).inner == (if spec_has_checksum_hi(sb@) {
                ext4_inode {
                    checksum_lo: (checksum as int % 0x1_0000) as u16,
                    checksum_hi: (checksum as int / 0x1_0000) as u16,
                    ..old(self).inner
                }
            } else {
                ext4_inode { checksum_lo: (checksum as int % 0x1_0000) as u16, ..old(self).inner }
            }),
    {
        crate::inode::checksum::set_checksum(sb, &mut self.inner, checksum);
    }

    /// The CRC32C checksum of this inode.
    pub fn compute_checksum(&self, sb: &Superblock) -> (r: u32)
        requires
            spec_checksum_size_ok(sb@),
        ensures
            r == spec_compute_checksum(sb@, self.inode_num, self.inner),
    {
        crate::inode::checksum::compute_checksum(sb, self.inode_num, &self.inner)
    }

    /// Whether the stored checksum is accepted.
    pub fn verify_checksum(&self, sb: &Superblock) -> (r: bool)
        requires
            spec_has_metadata_csum(sb@) ==> spec_checksum_size_ok(sb@),
        ensures
            r == spec_verify_checksum(sb@, self.inode_num, self.inner),
    {
        crate::inode::checksum::verify_checksum(sb, self.inode_num, &self.inner)
    }

    /// Computes and stores the checksum.
    pub fn update_checksum(&mut self, sb: &Superblock)
        requires
            spec_checksum_size_ok(sb@),
        ensures
            final(self).inode_num == old(self).inode_num,
            final(self).inner == ({
                let c = spec_compute_checksum(sb@, old(self).inode_num, old(self).inner) as int;
                if spec_has_checksum_hi(sb@) {
                    ext4_inode {
                        checksum_lo: (c % 0x1_0000) as u16,
                        checksum_hi: (c / 0x1_0000) as u16,
                        ..old(self).inner
                    }
                } else {
                    ext4_inode { checksum_lo: (c % 0x1_0000) as u16, ..old(self).inner }
                }
            }),
            spec_has_checksum_hi(sb@) ==> spec_verify_checksum(sb@, final(self).inode_num, final(self).inner),
    {
        let csum = self.compute_checksum(sb);
        self.set_checksum(sb, csum);
        proof {
            if spec_has_checksum_hi(sb@) {
                crate::inode::checksum::lemma_set_then_verify(sb@, old(self).inode_num, old(self).inner);
            }
        }
    }
}

/// A block of at most 2^31 bytes has at least 9 address bits.
proof fn lemma_block_size_bits(log_block_size: u32)
    requires
        log_block_size <= 21,
    ensures
        spec_block_bits(1024u32 << log_block_size) >= 9,
        spec_block_bits(1024u32 << log_block_size) <= 32,
{
    assert(log_block_size <= 21 ==> (1024u32 << log_block_size) >= 1024) by (bit_vector);
    lemma_block_bits_ge8((1024u32 << log_block_size) / 2);
    assert(spec_block_bits(1024u32 << log_block_size) == 1 + spec_block_bits(
        (1024u32 << log_block_size) / 2,
    ));
    lemma2_to64();
    lemma_block_bits_bound(1024u32 << log_block_size, 24);
}

} // verus!
