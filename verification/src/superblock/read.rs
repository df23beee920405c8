//! Reading and checking the superblock.

use vstd::prelude::*;
use crate::consts::{
    EXT4_FEATURE_INCOMPAT_64BIT, EXT4_FEATURE_INCOMPAT_EXTENTS, EXT4_FEATURE_INCOMPAT_META_BG,
    EXT4_FEATURE_RO_COMPAT_METADATA_CSUM, EXT4_FEATURE_RO_COMPAT_SPARSE_SUPER,
    EXT4_GROUP_DESC_SIZE, EXT4_GROUP_DESC_SIZE_64, EXT4_MAX_BLOCK_GROUP_DESCRIPTOR_SIZE,
    EXT4_MIN_BLOCK_GROUP_DESCRIPTOR_SIZE, EXT4_SUPERBLOCK_MAGIC, EXT4_SUPERBLOCK_SIZE,
};
use crate::error::{Error, ErrorKind, Result};
use crate::types::ext4_sblock;
use super::checksum::{spec_compute_checksum, spec_verify_checksum};
use vstd::string::StringSliceAdditionalSpecFns;
use vstd::utf8::valid_utf8;
use crate::bytes::str_from_utf8;

verus! {

/// The superblock, with the operations the filesystem needs.
#[derive(Debug, Clone, Copy)]
pub struct Superblock {
    inner: ext4_sblock,
}

impl View for Superblock {
    type V = ext4_sblock;

    closed spec fn view(&self) -> ext4_sblock {
        self.inner
    }
}


/// Length of the volume name: the bytes before the first zero byte, or
/// all 16.
pub open spec fn spec_volume_name_len(name: Seq<u8>) -> int
    decreases name.len(),
{
    if name.len() == 0 {
        0
    } else if name[0] == 0 {
        0
    } else {
        1 + spec_volume_name_len(name.skip(1))
    }
}

/// The name length is the position of the first zero byte, or the whole
/// field when there is none.
proof fn lemma_volume_name_len(name: Seq<u8>, len: int)
    requires
        0 <= len <= name.len(),
        forall|k: int| 0 <= k < len ==> name[k] != 0,
        len == name.len() || name[len] == 0,
    ensures
        spec_volume_name_len(name) == len,
    decreases len,
{
    if len > 0 {
        assert forall|k: int| 0 <= k < len - 1 implies name.skip(1)[k] != 0 by {
            assert(name.skip(1)[k] == name[k + 1]);
        }
        if len < name.len() {
            assert(name.skip(1)[len - 1] == name[len]);
        }
        lemma_volume_name_len(name.skip(1), len - 1);
    }
}

/// Decodes the superblock from its 1024 bytes, as read from byte 1024 of
/// the device, and checks its magic number: `Corrupted` when it is not
/// the ext4 one.
pub fn read_superblock(data: &[u8]) -> (r: Result<ext4_sblock>)
    requires
        data@.len() >= EXT4_SUPERBLOCK_SIZE,
    ensures
        match r {
            Ok(sb) => sb.spec_to_bytes() == data@.take(1024) && sb.magic == EXT4_SUPERBLOCK_MAGIC,
            Err(e) => e.spec_kind() == ErrorKind::Corrupted && forall|x: ext4_sblock|
                #[trigger] x.spec_to_bytes() == data@.take(1024) ==> x.magic != EXT4_SUPERBLOCK_MAGIC,
        },
{
    let sb = ext4_sblock::from_bytes(data);
    if !sb.is_valid() {
        proof {
            assert forall|x: ext4_sblock| #[trigger] x.spec_to_bytes() == data@.take(1024) implies x.magic
                != EXT4_SUPERBLOCK_MAGIC by {
                super::decode::lemma_decode_after_encode(sb, x);
            }
        }
        return Err(Error::new(ErrorKind::Corrupted, "Invalid ext4 superblock magic number"));
    }
    Ok(sb)
}

/// Size of a block group descriptor: the stored size (or 64) on 64-bit
/// filesystems, 32 otherwise.
pub open spec fn spec_group_desc_size(sb: ext4_sblock) -> int {
    if sb.feature_incompat & EXT4_FEATURE_INCOMPAT_64BIT != 0 {
        if sb.desc_size > 0 {
            sb.desc_size as int
        } else {
            EXT4_GROUP_DESC_SIZE_64 as int
        }
    } else {
        EXT4_GROUP_DESC_SIZE as int
    }
}

/// Whether `a` is a positive power of `b`, as the scan of `is_power_of`
/// decides it: repeated exact division by `b` reaches `b`.
pub open spec fn spec_is_power_of(a: u32, b: u32) -> bool
    decreases a,
{
    if b <= 1 || a < b {
        false
    } else if a == b {
        true
    } else if a % b != 0 {
        false
    } else {
        proof {
            assert(a / b < a) by (nonlinear_arith)
                requires
                    b > 1,
                    a >= b,
            ;
        }
        spec_is_power_of(a / b, b)
    }
}

/// Whether a group holds a superblock copy under the sparse-superblock
/// rule: groups 0 and 1, and the powers of 3, 5 and 7.
pub open spec fn spec_is_sparse_group(group: u32) -> bool {
    if group <= 1 {
        true
    } else if group & 1 == 0 {
        false
    } else {
        spec_is_power_of(group, 7) || spec_is_power_of(group, 5) || spec_is_power_of(group, 3)
    }
}

/// Whether a group holds a superblock copy.
pub open spec fn spec_has_super_in_bg(sb: ext4_sblock, group: u32) -> bool {
    if sb.feature_ro_compat & EXT4_FEATURE_RO_COMPAT_SPARSE_SUPER != 0 {
        spec_is_sparse_group(group)
    } else {
        true
    }
}

/// Group descriptors per block.
pub open spec fn spec_desc_per_block(sb: ext4_sblock) -> int {
    sb.spec_block_size() as int / spec_group_desc_size(sb)
}

/// Whether the superblock passes every check of `Superblock::check`.
pub open spec fn spec_check_ok(sb: ext4_sblock) -> bool {
    &&& sb.magic == EXT4_SUPERBLOCK_MAGIC
    &&& sb.inodes_count != 0
    &&& sb.spec_blocks_count() != 0
    &&& sb.blocks_per_group != 0
    &&& sb.inodes_per_group != 0
    &&& sb.spec_inode_size() >= 128
    &&& sb.first_ino >= 11
    &&& EXT4_MIN_BLOCK_GROUP_DESCRIPTOR_SIZE <= spec_group_desc_size(sb)
    &&& spec_group_desc_size(sb) <= EXT4_MAX_BLOCK_GROUP_DESCRIPTOR_SIZE
    &&& spec_verify_checksum(sb)
}

/// GDT blocks of a group in the meta_bg layout: one in the first, second
/// and last group of each meta group.
pub open spec fn spec_num_gdb_meta(sb: ext4_sblock, group: u32) -> int {
    let dpb = spec_desc_per_block(sb);
    let first = (group as int / dpb) * dpb;
    let last = first + dpb - 1;
    if group == first || group == first + 1 || group == last {
        1
    } else {
        0
    }
}

/// GDT blocks of a group in the classic layout.
pub open spec fn spec_num_gdb_nometa(sb: ext4_sblock, group: u32) -> int {
    if !spec_has_super_in_bg(sb, group) {
        0
    } else if sb.feature_incompat & EXT4_FEATURE_INCOMPAT_META_BG != 0 {
        sb.first_meta_bg as int
    } else {
        let dpb = spec_desc_per_block(sb);
        (sb.spec_block_group_count() as int + dpb - 1) / dpb
    }
}

/// GDT blocks of a group.
pub open spec fn spec_num_gdb(sb: ext4_sblock, group: u32) -> int {
    let dpb = spec_desc_per_block(sb);
    if sb.feature_incompat & EXT4_FEATURE_INCOMPAT_META_BG == 0 || group as int / dpb
        < sb.first_meta_bg {
        spec_num_gdb_nometa(sb, group)
    } else {
        spec_num_gdb_meta(sb, group)
    }
}

/// Whether `num_gdb` takes the meta_bg branch for `group`.
pub open spec fn num_gdb_uses_meta(sb: ext4_sblock, group: u32) -> bool {
    sb.feature_incompat & EXT4_FEATURE_INCOMPAT_META_BG != 0 && group as int / spec_desc_per_block(
        sb,
    ) >= sb.first_meta_bg
}

/// What the meta_bg branch needs to run without overflow.
pub open spec fn num_gdb_meta_defined(sb: ext4_sblock, group: u32) -> bool {
    (group as int / spec_desc_per_block(sb)) * spec_desc_per_block(sb) + spec_desc_per_block(sb)
        <= u32::MAX
}

/// What the classic branch needs to run without overflow or division by
/// zero.
pub open spec fn num_gdb_nometa_defined(sb: ext4_sblock, group: u32) -> bool {
    spec_has_super_in_bg(sb, group) ==> {
        &&& sb.blocks_per_group != 0
        &&& sb.spec_blocks_count() + sb.blocks_per_group <= u64::MAX
        &&& sb.spec_block_group_count() as int + spec_desc_per_block(sb) <= u32::MAX
    }
}

/// What `num_gdb` needs to run without overflow or division by zero.
pub open spec fn num_gdb_defined(sb: ext4_sblock, group: u32) -> bool {
    &&& sb.log_block_size < 32
    &&& spec_desc_per_block(sb) > 0
    &&& if num_gdb_uses_meta(sb, group) {
        num_gdb_meta_defined(sb, group)
    } else {
        num_gdb_nometa_defined(sb, group)
    }
}

/// Whether `num_base_meta_clusters` counts the superblock, GDT and reserved
/// GDT blocks (classic layout), rather than the meta_bg GDT blocks.
pub open spec fn base_meta_classic(sb: ext4_sblock, group: u32) -> bool {
    sb.feature_incompat & EXT4_FEATURE_INCOMPAT_META_BG == 0 || group < sb.first_meta_bg
        * spec_desc_per_block(sb)
}

/// Metadata blocks (superblock, GDT, reserved GDT) at the start of a group.
pub open spec fn spec_base_meta_blocks(sb: ext4_sblock, group: u32) -> int {
    let sup: int = if spec_has_super_in_bg(sb, group) {
        1
    } else {
        0
    };
    if base_meta_classic(sb, group) {
        if sup > 0 {
            sup + spec_num_gdb(sb, group) + sb.reserved_gdt_blocks
        } else {
            0
        }
    } else {
        sup + spec_num_gdb(sb, group)
    }
}

/// Those metadata blocks in clusters, rounded up.
pub open spec fn spec_num_base_meta_clusters(sb: ext4_sblock, group: u32) -> u32 {
    ((spec_base_meta_blocks(sb, group) + (1u32 << sb.log_cluster_size) - 1) as u32)
        >> sb.log_cluster_size
}

/// What `num_base_meta_clusters` needs to run without overflow.
pub open spec fn base_meta_defined(sb: ext4_sblock, group: u32) -> bool {
    &&& sb.log_block_size < 32
    &&& spec_desc_per_block(sb) > 0
    &&& sb.feature_incompat & EXT4_FEATURE_INCOMPAT_META_BG != 0 ==> sb.first_meta_bg
        * spec_desc_per_block(sb) <= u32::MAX
    &&& (!base_meta_classic(sb, group) || spec_has_super_in_bg(sb, group)) ==> num_gdb_defined(
        sb,
        group,
    )
    &&& sb.log_cluster_size < 32
    &&& spec_base_meta_blocks(sb, group) + (1u32 << sb.log_cluster_size) <= u32::MAX
}

impl Superblock {
    /// Wraps a raw superblock.
    pub fn new(inner: ext4_sblock) -> (r: Self)
        ensures
            r@ == inner,
    {
        Superblock { inner }
    }

    /// Loads the superblock from its 1024 bytes, as read from byte 1024
    /// of the device; the errors of `read_superblock`.
    pub fn load(data: &[u8]) -> (r: Result<Self>)
        requires
            data@.len() >= EXT4_SUPERBLOCK_SIZE,
        ensures
            match r {
                Ok(sb) => sb@.spec_to_bytes() == data@.take(1024) && sb@.magic == EXT4_SUPERBLOCK_MAGIC,
                Err(e) => e.spec_kind() == ErrorKind::Corrupted && forall|x: ext4_sblock|
                    #[trigger] x.spec_to_bytes() == data@.take(1024) ==> x.magic != EXT4_SUPERBLOCK_MAGIC,
            },
    {
        match read_superblock(data) {
            Ok(inner) => Ok(Superblock { inner }),
            Err(e) => Err(e),
        }
    }

    pub(crate) fn inner_mut_ref(&mut self) -> (r: &mut ext4_sblock)
        ensures
            *r == old(self)@,
            final(self)@ == *final(r),
    {
        &mut self.inner
    }

    /// The raw superblock.
    pub fn inner(&self) -> (r: &ext4_sblock)
        ensures
            *r == self@,
    {
        &self.inner
    }

    /// Block size in bytes.
    pub fn block_size(&self) -> (r: u32)
        requires
            self@.log_block_size < 32,
        ensures
            r == self@.spec_block_size(),
    {
        self.inner.block_size()
    }

    /// Inode size in bytes (128 when unset).
    pub fn inode_size(&self) -> (r: u16)
        ensures
            r == self@.spec_inode_size(),
    {
        self.inner.inode_size()
    }

    /// Total block count.
    pub fn blocks_count(&self) -> (r: u64)
        ensures
            r == self@.spec_blocks_count(),
    {
        self.inner.blocks_count()
    }

    /// Free block count.
    pub fn free_blocks_count(&self) -> (r: u64)
        ensures
            r == self@.spec_free_blocks_count(),
    {
        self.inner.free_blocks_count()
    }

    /// Total inode count.
    pub fn inodes_count(&self) -> (r: u32)
        ensures
            r == self@.inodes_count,
    {
        self.inner.inodes_count
    }

    /// Free inode count.
    pub fn free_inodes_count(&self) -> (r: u32)
        ensures
            r == self@.free_inodes_count,
    {
        self.inner.free_inodes_count
    }

    /// Blocks per group.
    pub fn blocks_per_group(&self) -> (r: u32)
        ensures
            r == self@.blocks_per_group,
    {
        self.inner.blocks_per_group
    }

    /// Inodes per group.
    pub fn inodes_per_group(&self) -> (r: u32)
        ensures
            r == self@.inodes_per_group,
    {
        self.inner.inodes_per_group
    }

    /// Number of block groups.
    pub fn block_group_count(&self) -> (r: u32)
        requires
            self@.blocks_per_group != 0,
            self@.spec_blocks_count() + self@.blocks_per_group - 1 <= u64::MAX,
        ensures
            r == self@.spec_block_group_count(),
    {
        self.inner.block_group_count()
    }

    /// First data block.
    pub fn first_data_block(&self) -> (r: u32)
        ensures
            r == self@.first_data_block,
    {
        self.inner.first_data_block
    }

    /// Whether any bit of `feature` is set among the compatible features.
    pub fn has_compat_feature(&self, feature: u32) -> (r: bool)
        ensures
            r == (self@.feature_compat & feature != 0),
    {
        (self.inner.feature_compat & feature) != 0
    }

    /// Whether any bit of `feature` is set among the incompatible features.
    pub fn has_incompat_feature(&self, feature: u32) -> (r: bool)
        ensures
            r == (self@.feature_incompat & feature != 0),
    {
        (self.inner.feature_incompat & feature) != 0
    }

    /// Whether any bit of `feature` is set among the read-only compatible
    /// features.
    pub fn has_ro_compat_feature(&self, feature: u32) -> (r: bool)
        ensures
            r == (self@.feature_ro_compat & feature != 0),
    {
        (self.inner.feature_ro_compat & feature) != 0
    }

    /// Whether any bit of `flag` is set in the superblock flags.
    pub fn has_flag(&self, flag: u32) -> (r: bool)
        ensures
            r == (self@.flags & flag != 0),
    {
        (self.inner.flags & flag) != 0
    }

    /// The HTree hash seed.
    pub fn hash_seed(&self) -> (r: [u32; 4])
        ensures
            r@ == self@.hash_seed@,
    {
        let r = [
            self.inner.hash_seed[0],
            self.inner.hash_seed[1],
            self.inner.hash_seed[2],
            self.inner.hash_seed[3],
        ];
        assert(r@ =~= self@.hash_seed@);
        r
    }

    /// Whether files may use extents.
    pub fn has_extents(&self) -> (r: bool)
        ensures
            r == (self@.feature_incompat & EXT4_FEATURE_INCOMPAT_EXTENTS != 0),
    {
        self.has_incompat_feature(EXT4_FEATURE_INCOMPAT_EXTENTS)
    }

    /// Whether block numbers are 64-bit.
    pub fn is_64bit(&self) -> (r: bool)
        ensures
            r == (self@.feature_incompat & EXT4_FEATURE_INCOMPAT_64BIT != 0),
    {
        self.has_incompat_feature(EXT4_FEATURE_INCOMPAT_64BIT)
    }

    /// Size of a block group descriptor.
    pub fn group_desc_size(&self) -> (r: usize)
        ensures
            r == spec_group_desc_size(self@),
            r > 0,
    {
        if self.is_64bit() {
            let size = self.inner.desc_size as usize;
            if size > 0 {
                size
            } else {
                EXT4_GROUP_DESC_SIZE_64
            }
        } else {
            EXT4_GROUP_DESC_SIZE
        }
    }

    /// The volume name: the bytes of the name field before its first zero
    /// byte, when they are valid UTF-8.
    pub fn volume_name(&self) -> (r: Option<&str>)
        ensures
            ({
                let bytes = self@.volume_name@.take(spec_volume_name_len(self@.volume_name@));
                &&& r is Some <==> valid_utf8(bytes)
                &&& r matches Some(s) ==> s.spec_bytes() == bytes
            }),
    {
        let name = self.inner.volume_name.as_slice();
        let mut len: usize = 0;
        while len < name.len() && name[len] != 0
            invariant
                name@ == self@.volume_name@,
                len <= name@.len(),
                forall|k: int| 0 <= k < len ==> name@[k] != 0,
            decreases name@.len() - len,
        {
            len = len + 1;
        }
        proof {
            lemma_volume_name_len(name@, len as int);
        }
        let bytes = vstd::slice::slice_subrange(name, 0, len);
        assert(bytes@ =~= name@.take(len as int));
        str_from_utf8(bytes)
    }

    /// The filesystem UUID.
    pub fn uuid(&self) -> (r: &[u8; 16])
        ensures
            r@ == self@.uuid@,
    {
        &self.inner.uuid
    }

    /// Whether metadata checksums are enabled.
    pub fn has_metadata_csum(&self) -> (r: bool)
        ensures
            r == (self@.feature_ro_compat & EXT4_FEATURE_RO_COMPAT_METADATA_CSUM != 0),
    {
        self.has_ro_compat_feature(EXT4_FEATURE_RO_COMPAT_METADATA_CSUM)
    }

    /// Whether the state marks a clean filesystem.
    pub fn is_clean(&self) -> (r: bool)
        ensures
            r == (self@.state & 0x0001 != 0),
    {
        (self.inner.state & 0x0001u16) != 0
    }

    /// Checks every field the filesystem relies on; all failures are
    /// `Corrupted`.
    pub fn check(&self) -> (r: Result<()>)
        ensures
            r is Ok <==> spec_check_ok(self@),
            r matches Err(e) ==> e.spec_kind() == ErrorKind::Corrupted,
    {
        if !self.inner.is_valid() {
            return Err(Error::new(ErrorKind::Corrupted, "Invalid ext4 superblock magic number"));
        }
        if self.inodes_count() == 0 {
            return Err(Error::new(ErrorKind::Corrupted, "Superblock inodes_count is zero"));
        }
        if self.blocks_count() == 0 {
            return Err(Error::new(ErrorKind::Corrupted, "Superblock blocks_count is zero"));
        }
        if self.blocks_per_group() == 0 {
            return Err(Error::new(ErrorKind::Corrupted, "Superblock blocks_per_group is zero"));
        }
        if self.inodes_per_group() == 0 {
            return Err(Error::new(ErrorKind::Corrupted, "Superblock inodes_per_group is zero"));
        }
        if self.inode_size() < 128 {
            return Err(
                Error::new(ErrorKind::Corrupted, "Superblock inode_size is less than 128"),
            );
        }
        if self.inner.first_ino < 11 {
            return Err(Error::new(ErrorKind::Corrupted, "Superblock first_inode is less than 11"));
        }
        let desc_size = self.group_desc_size();
        if desc_size < EXT4_MIN_BLOCK_GROUP_DESCRIPTOR_SIZE {
            return Err(Error::new(ErrorKind::Corrupted, "Block group descriptor size too small"));
        }
        if desc_size > EXT4_MAX_BLOCK_GROUP_DESCRIPTOR_SIZE {
            return Err(Error::new(ErrorKind::Corrupted, "Block group descriptor size too large"));
        }
        if !self.verify_checksum() {
            return Err(
                Error::new(ErrorKind::Corrupted, "Superblock checksum verification failed"),
            );
        }
        Ok(())
    }

    /// Checks the stored checksum.
    pub fn verify_checksum(&self) -> (r: bool)
        ensures
            r == spec_verify_checksum(self@),
    {
        super::checksum::verify_checksum(&self.inner)
    }

    /// Computes the checksum.
    pub fn compute_checksum(&self) -> (r: u32)
        ensures
            r == spec_compute_checksum(self@),
    {
        super::checksum::compute_checksum(&self.inner)
    }

    /// Blocks in group `bgid`: a full group, or what remains for the last.
    pub fn blocks_in_group_cnt(&self, bgid: u32) -> (r: u32)
        requires
            self@.blocks_per_group != 0,
            self@.spec_blocks_count() + self@.blocks_per_group <= u64::MAX,
            self@.spec_block_group_count() >= 1,
            bgid >= self@.spec_block_group_count() - 1 ==> (self@.spec_block_group_count() - 1)
                * self@.blocks_per_group <= self@.spec_blocks_count(),
        ensures
            bgid < self@.spec_block_group_count() - 1 ==> r == self@.blocks_per_group,
            bgid >= self@.spec_block_group_count() - 1 ==> r == (self@.spec_blocks_count() - (
            self@.spec_block_group_count() - 1) * self@.blocks_per_group) as u32,
    {
        let block_group_count = self.block_group_count();
        let blocks_per_group = self.blocks_per_group();
        let total_blocks = self.blocks_count();
        if bgid < block_group_count - 1 {
            blocks_per_group
        } else {
            let full = block_group_count as u64 - 1;
            assert(full * blocks_per_group as u64 <= 0xffff_ffffu64 * 0xffff_ffffu64)
                by (nonlinear_arith)
                requires
                    full <= 0xffff_ffffu64,
                    blocks_per_group <= 0xffff_ffffu32,
            ;
            (total_blocks - (full * blocks_per_group as u64)) as u32
        }
    }

    /// Inodes in group `bgid`: a full group, or what remains for the last.
    pub fn inodes_in_group_cnt(&self, bgid: u32) -> (r: u32)
        requires
            self@.blocks_per_group != 0,
            self@.spec_blocks_count() + self@.blocks_per_group <= u64::MAX,
            self@.spec_block_group_count() >= 1,
            bgid >= self@.spec_block_group_count() - 1 ==> (self@.spec_block_group_count() - 1)
                * self@.inodes_per_group <= self@.inodes_count,
        ensures
            bgid < self@.spec_block_group_count() - 1 ==> r == self@.inodes_per_group,
            bgid >= self@.spec_block_group_count() - 1 ==> r == self@.inodes_count - (
            self@.spec_block_group_count() - 1) * self@.inodes_per_group,
    {
        let block_group_count = self.block_group_count();
        let inodes_per_group = self.inodes_per_group();
        let total_inodes = self.inodes_count();
        if bgid < block_group_count - 1 {
            inodes_per_group
        } else {
            let full = block_group_count - 1;
            total_inodes - (full * inodes_per_group)
        }
    }

    /// Whether a group holds a superblock copy under the sparse rule.
    pub fn is_sparse_group(group: u32) -> (r: bool)
        ensures
            r == spec_is_sparse_group(group),
    {
        if group <= 1 {
            return true;
        }
        if (group & 1) == 0 {
            return false;
        }
        is_power_of(group, 7) || is_power_of(group, 5) || is_power_of(group, 3)
    }

    /// Whether group `group` holds a superblock copy.
    pub fn has_super_in_bg(&self, group: u32) -> (r: bool)
        ensures
            r == spec_has_super_in_bg(self@, group),
    {
        if self.has_ro_compat_feature(EXT4_FEATURE_RO_COMPAT_SPARSE_SUPER) {
            Self::is_sparse_group(group)
        } else {
            true
        }
    }

    fn desc_per_block(&self) -> (r: u32)
        requires
            self@.log_block_size < 32,
        ensures
            r == spec_desc_per_block(self@),
    {
        self.block_size() / self.group_desc_size() as u32
    }

    fn num_gdb_meta(&self, group: u32) -> (r: u32)
        requires
            self@.log_block_size < 32,
            spec_desc_per_block(self@) > 0,
            num_gdb_meta_defined(self@, group),
        ensures
            r == spec_num_gdb_meta(self@, group),
    {
        let dsc_per_block = self.desc_per_block();
        let metagroup = group / dsc_per_block;
        assert(metagroup * dsc_per_block <= group) by (nonlinear_arith)
            requires
                metagroup == group / dsc_per_block,
                dsc_per_block > 0,
        ;
        let first = metagroup * dsc_per_block;
        let last = first + dsc_per_block - 1;
        if group == first || (first < u32::MAX && group == first + 1) || group == last {
            1
        } else {
            0
        }
    }

    fn num_gdb_nometa(&self, group: u32) -> (r: u32)
        requires
            self@.log_block_size < 32,
            spec_desc_per_block(self@) > 0,
            num_gdb_nometa_defined(self@, group),
        ensures
            r == spec_num_gdb_nometa(self@, group),
    {
        if !self.has_super_in_bg(group) {
            return 0;
        }
        let dsc_per_block = self.desc_per_block();
        let db_count = (self.block_group_count() + dsc_per_block - 1) / dsc_per_block;
        if self.has_incompat_feature(EXT4_FEATURE_INCOMPAT_META_BG) {
            self.inner.first_meta_bg
        } else {
            db_count
        }
    }

    /// Blocks taken by the group descriptor table in group `group`.
    pub fn num_gdb(&self, group: u32) -> (r: u32)
        requires
            num_gdb_defined(self@, group),
        ensures
            r == spec_num_gdb(self@, group),
    {
        let dsc_per_block = self.desc_per_block();
        let first_meta_bg = self.inner.first_meta_bg;
        let metagroup = group / dsc_per_block;
        if !self.has_incompat_feature(EXT4_FEATURE_INCOMPAT_META_BG) || metagroup < first_meta_bg {
            self.num_gdb_nometa(group)
        } else {
            self.num_gdb_meta(group)
        }
    }
    /// Clusters taken by the superblock copy and the group descriptor
    /// tables at the start of group `block_group`.
    pub fn num_base_meta_clusters(&self, block_group: u32) -> (r: u32)
        requires
            base_meta_defined(self@, block_group),
        ensures
            r == spec_num_base_meta_clusters(self@, block_group),
    {
        let dsc_per_block = self.desc_per_block();
        let mut num: u32 = if self.has_super_in_bg(block_group) {
            1
        } else {
            0
        };
        let classic = !self.has_incompat_feature(EXT4_FEATURE_INCOMPAT_META_BG) || block_group
            < self.inner.first_meta_bg * dsc_per_block;
        assert(classic == base_meta_classic(self@, block_group));
        if classic {
            if num > 0 {
                num += self.num_gdb(block_group);
                num += self.inner.reserved_gdt_blocks as u32;
            }
        } else {
            num += self.num_gdb(block_group);
        }
        let log_cluster_size = self.inner.log_cluster_size;
        let cluster_ratio = 1u32 << log_cluster_size;
        assert(1u32 << log_cluster_size >= 1) by (bit_vector)
            requires
                log_cluster_size < 32,
        ;
        (num + cluster_ratio - 1) >> log_cluster_size
    }
}

/// Whether `a` is a positive power of `b`.
fn is_power_of(a0: u32, b: u32) -> (r: bool)
    requires
        b > 1,
    ensures
        r == spec_is_power_of(a0, b),
{
    let mut a = a0;
    loop
        invariant
            b > 1,
            spec_is_power_of(a, b) == spec_is_power_of(a0, b),
        decreases a,
    {
        if a < b {
            return false;
        }
        if a == b {
            return true;
        }
        if (a % b) != 0 {
            return false;
        }
        assert(a / b < a) by (nonlinear_arith)
            requires
                b > 1,
                a >= b,
        ;
        a = a / b;
    }
}


/// `a` passes the power test exactly when it is `b` raised to a positive
/// power.
pub proof fn lemma_is_power_of_pow(a: u32, b: u32)
    requires
        b > 1,
    ensures
        spec_is_power_of(a, b) <==> exists|k: nat| k >= 1 && vstd::arithmetic::power::pow(b as int, k) == a,
    decreases a,
{
    vstd::arithmetic::power::lemma_pow1(b as int);
    if a < b {
        if exists|k: nat| k >= 1 && vstd::arithmetic::power::pow(b as int, k) == a {
            let k = choose|k: nat| k >= 1 && vstd::arithmetic::power::pow(b as int, k) == a;
            lemma_pow_at_least(b as int, k);
        }
    } else if a == b {
        assert(vstd::arithmetic::power::pow(b as int, 1) == a);
    } else {
        assert(a / b < a) by (nonlinear_arith)
            requires
                b > 1,
                a >= b,
        ;
        if a % b != 0 {
            if exists|k: nat| k >= 1 && vstd::arithmetic::power::pow(b as int, k) == a {
                let k = choose|k: nat| k >= 1 && vstd::arithmetic::power::pow(b as int, k) == a;
                if k == 1 {
                } else {
                    vstd::arithmetic::power::lemma_pow_adds(b as int, 1, (k - 1) as nat);
                    let q = vstd::arithmetic::power::pow(b as int, (k - 1) as nat);
                    assert(a == b * q);
                    assert((b * q) % (b as int) == 0) by (nonlinear_arith)
                        requires
                            b > 1,
                    ;
                }
            }
        } else {
            let c = (a / b) as u32;
            lemma_is_power_of_pow(c, b);
            assert(a == b * c) by (nonlinear_arith)
                requires
                    a % b == 0,
                    c == a / b,
                    b > 1,
            ;
            if spec_is_power_of(c, b) {
                let k = choose|k: nat| k >= 1 && vstd::arithmetic::power::pow(b as int, k) == c;
                vstd::arithmetic::power::lemma_pow_adds(b as int, 1, k);
                assert(vstd::arithmetic::power::pow(b as int, k + 1) == a);
            }
            if exists|k: nat| k >= 1 && vstd::arithmetic::power::pow(b as int, k) == a {
                let k = choose|k: nat| k >= 1 && vstd::arithmetic::power::pow(b as int, k) == a;
                if k == 1 {
                } else {
                    vstd::arithmetic::power::lemma_pow_adds(b as int, 1, (k - 1) as nat);
                    let q = vstd::arithmetic::power::pow(b as int, (k - 1) as nat);
                    assert(a == b * q);
                    assert(q == c) by (nonlinear_arith)
                        requires
                            a == b * q,
                            a == b * c,
                            b > 1,
                    ;
                    assert((k - 1) as nat >= 1);
                }
            }
        }
    }
}

proof fn lemma_pow_at_least(b: int, k: nat)
    requires
        b > 1,
        k >= 1,
    ensures
        vstd::arithmetic::power::pow(b, k) >= b,
    decreases k,
{
    vstd::arithmetic::power::lemma_pow1(b);
    if k > 1 {
        lemma_pow_at_least(b, (k - 1) as nat);
        vstd::arithmetic::power::lemma_pow_adds(b, 1, (k - 1) as nat);
        let q = vstd::arithmetic::power::pow(b, (k - 1) as nat);
        assert(b * q >= b) by (nonlinear_arith)
            requires
                q >= b,
                b > 1,
        ;
    }
}

/// The sparse-superblock rule: groups 0 and 1, and the positive powers of
/// 3, 5 and 7, hold superblock copies.
pub proof fn lemma_sparse_groups(group: u32)
    ensures
        spec_is_sparse_group(group) <==> (group <= 1 || exists|k: nat| k >= 1 && (vstd::arithmetic::power::pow(3, k) == group
            || vstd::arithmetic::power::pow(5, k) == group || vstd::arithmetic::power::pow(7, k) == group)),
{
    lemma_is_power_of_pow(group, 3);
    lemma_is_power_of_pow(group, 5);
    lemma_is_power_of_pow(group, 7);
    if group > 1 {
        if exists|k: nat| k >= 1 && (vstd::arithmetic::power::pow(3, k) == group
            || vstd::arithmetic::power::pow(5, k) == group || vstd::arithmetic::power::pow(7, k) == group) {
            let k = choose|k: nat| k >= 1 && (vstd::arithmetic::power::pow(3, k) == group
                || vstd::arithmetic::power::pow(5, k) == group || vstd::arithmetic::power::pow(7, k) == group);
            lemma_odd_pow(3, k);
            lemma_odd_pow(5, k);
            lemma_odd_pow(7, k);
            assert(group % 2 == 1);
            assert(group & 1 == 1) by (bit_vector)
                requires
                    group % 2 == 1,
            ;
        }
        if group & 1 == 0 {
            assert(group % 2 == 0) by (bit_vector)
                requires
                    group & 1 == 0,
            ;
        }
    }
}

proof fn lemma_odd_pow(b: int, k: nat)
    requires
        b > 0,
        b % 2 == 1,
    ensures
        vstd::arithmetic::power::pow(b, k) % 2 == 1,
    decreases k,
{
    vstd::arithmetic::power::lemma_pow0(b);
    if k > 0 {
        lemma_odd_pow(b, (k - 1) as nat);
        vstd::arithmetic::power::lemma_pow_adds(b, 1, (k - 1) as nat);
        vstd::arithmetic::power::lemma_pow1(b);
        let q = vstd::arithmetic::power::pow(b, (k - 1) as nat);
        let bp = b / 2;
        let qp = q / 2;
        vstd::arithmetic::div_mod::lemma_fundamental_div_mod(b, 2);
        vstd::arithmetic::div_mod::lemma_fundamental_div_mod(q, 2);
        assert(b * q == 2 * (2 * bp * qp + bp + qp) + 1) by (nonlinear_arith)
            requires
                b == 2 * bp + 1,
                q == 2 * qp + 1,
        ;
        vstd::arithmetic::div_mod::lemma_mod_multiples_vanish(2 * bp * qp + bp + qp, 1, 2);
    }
}

} // verus!
