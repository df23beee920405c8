//! On-disk ext4 structures.
//!
//! The structures keep the field order and widths of the disk format. Field
//! values are held in host order; `spec_to_bytes` and the matching encoders
//! give the little-endian disk layout, byte for byte.

use vstd::prelude::*;
use crate::bytes::{
    join_u16, join_u32, join_u32_u16, le16, le32, le32_seq, le64, lemma_le32_seq_len, push_bytes,
    push_u16_le, push_u32_le, push_u32_slice_le, push_u64_le, read_u16_le, read_u32_le, u16_at,
    u32_at, write_u16_le, write_u32_le,
};
use crate::consts::{
    EXT4_INODE_BLOCKS, EXT4_INODE_MODE_DIRECTORY, EXT4_INODE_MODE_FILE, EXT4_INODE_MODE_SOFTLINK,
    EXT4_INODE_MODE_TYPE_MASK, EXT4_SUPERBLOCK_MAGIC,
};

verus! {

/// The ext4 superblock (`ext4_super_block`), 1024 bytes on disk.
#[derive(Debug, Clone, Copy)]
pub struct ext4_sblock {
    /// Offset 0: total inode count.
    pub inodes_count: u32,
    /// Offset 4: total block count, low 32 bits.
    pub blocks_count_lo: u32,
    /// Offset 8: reserved block count, low 32 bits.
    pub r_blocks_count_lo: u32,
    /// Offset 12: free block count, low 32 bits.
    pub free_blocks_count_lo: u32,
    /// Offset 16: free inode count.
    pub free_inodes_count: u32,
    /// Offset 20: first data block.
    pub first_data_block: u32,
    /// Offset 24: block size is 1024 shifted left by this.
    pub log_block_size: u32,
    /// Offset 28: cluster size is 1024 shifted left by this.
    pub log_cluster_size: u32,
    /// Offset 32: blocks per group.
    pub blocks_per_group: u32,
    /// Offset 36: clusters per group.
    pub clusters_per_group: u32,
    /// Offset 40: inodes per group.
    pub inodes_per_group: u32,
    /// Offset 44: last mount time.
    pub mtime: u32,
    /// Offset 48: last write time.
    pub wtime: u32,
    /// Offset 52: mounts since the last check.
    pub mnt_count: u16,
    /// Offset 54: mounts allowed before a check.
    pub max_mnt_count: u16,
    /// Offset 56: magic number, 0xEF53.
    pub magic: u16,
    /// Offset 58: filesystem state.
    pub state: u16,
    /// Offset 60: behaviour on errors.
    pub errors: u16,
    /// Offset 62: minor revision level.
    pub minor_rev_level: u16,
    /// Offset 64: time of the last check.
    pub lastcheck: u32,
    /// Offset 68: longest interval between checks.
    pub checkinterval: u32,
    /// Offset 72: creator operating system.
    pub creator_os: u32,
    /// Offset 76: revision level.
    pub rev_level: u32,
    /// Offset 80: default user id for reserved blocks.
    pub def_resuid: u16,
    /// Offset 82: default group id for reserved blocks.
    pub def_resgid: u16,
    /// Offset 84: first non-reserved inode.
    pub first_ino: u32,
    /// Offset 88: size of an inode record.
    pub inode_size: u16,
    /// Offset 90: block group holding this superblock.
    pub block_group_nr: u16,
    /// Offset 92: compatible feature set.
    pub feature_compat: u32,
    /// Offset 96: incompatible feature set.
    pub feature_incompat: u32,
    /// Offset 100: read-only compatible feature set.
    pub feature_ro_compat: u32,
    /// Offset 104: volume UUID.
    pub uuid: [u8; 16],
    /// Offset 120: volume name.
    pub volume_name: [u8; 16],
    /// Offset 136: directory where last mounted.
    pub last_mounted: [u8; 64],
    /// Offset 200: compression algorithms.
    pub algorithm_usage_bitmap: u32,
    /// Offset 204: blocks to preallocate for files.
    pub prealloc_blocks: u8,
    /// Offset 205: blocks to preallocate for directories.
    pub prealloc_dir_blocks: u8,
    /// Offset 206: blocks reserved for growing the descriptor table.
    pub reserved_gdt_blocks: u16,
    /// Offset 208: uUID of the journal superblock.
    pub journal_uuid: [u8; 16],
    /// Offset 224: inode number of the journal file.
    pub journal_inum: u32,
    /// Offset 228: device number of an external journal.
    pub journal_dev: u32,
    /// Offset 232: head of the orphan inode list.
    pub last_orphan: u32,
    /// Offset 236: seed of the directory hash.
    pub hash_seed: [u32; 4],
    /// Offset 252: default directory hash version.
    pub def_hash_version: u8,
    /// Offset 253: kind of journal inode backup.
    pub jnl_backup_type: u8,
    /// Offset 254: group descriptor size on 64-bit filesystems.
    pub desc_size: u16,
    /// Offset 256: default mount options.
    pub default_mount_opts: u32,
    /// Offset 260: first meta block group.
    pub first_meta_bg: u32,
    /// Offset 264: creation time.
    pub mkfs_time: u32,
    /// Offset 268: backup of the journal inode's block map.
    pub jnl_blocks: [u32; 17],
    /// Offset 336: total block count, high 32 bits.
    pub blocks_count_hi: u32,
    /// Offset 340: reserved block count, high 32 bits.
    pub r_blocks_count_hi: u32,
    /// Offset 344: free block count, high 32 bits.
    pub free_blocks_count_hi: u32,
    /// Offset 348: smallest extra inode size.
    pub min_extra_isize: u16,
    /// Offset 350: extra inode size for new inodes.
    pub want_extra_isize: u16,
    /// Offset 352: miscellaneous flags.
    pub flags: u32,
    /// Offset 356: rAID stride.
    pub raid_stride: u16,
    /// Offset 358: multi-mount protection check interval.
    pub mmp_interval: u16,
    /// Offset 360: multi-mount protection block.
    pub mmp_block: u64,
    /// Offset 368: rAID stripe width.
    pub raid_stripe_width: u32,
    /// Offset 372: groups per flex group, as a power of two.
    pub log_groups_per_flex: u8,
    /// Offset 373: metadata checksum algorithm.
    pub checksum_type: u8,
    /// Offset 374: padding.
    pub reserved_pad: u16,
    /// Offset 376: kilobytes written over the filesystem's life.
    pub kbytes_written: u64,
    /// Offset 384: inode of the active snapshot.
    pub snapshot_inum: u32,
    /// Offset 388: id of the active snapshot.
    pub snapshot_id: u32,
    /// Offset 392: blocks reserved for the active snapshot.
    pub snapshot_r_blocks_count: u64,
    /// Offset 400: head of the snapshot list.
    pub snapshot_list: u32,
    /// Offset 404: errors seen.
    pub error_count: u32,
    /// Offset 408: time of the first error.
    pub first_error_time: u32,
    /// Offset 412: inode of the first error.
    pub first_error_ino: u32,
    /// Offset 416: block of the first error.
    pub first_error_block: u64,
    /// Offset 424: function of the first error.
    pub first_error_func: [u8; 32],
    /// Offset 456: line of the first error.
    pub first_error_line: u32,
    /// Offset 460: time of the last error.
    pub last_error_time: u32,
    /// Offset 464: inode of the last error.
    pub last_error_ino: u32,
    /// Offset 468: line of the last error.
    pub last_error_line: u32,
    /// Offset 472: block of the last error.
    pub last_error_block: u64,
    /// Offset 480: function of the last error.
    pub last_error_func: [u8; 32],
    /// Offset 512: mount options.
    pub mount_opts: [u8; 64],
    /// Offset 576: user quota inode.
    pub usr_quota_inum: u32,
    /// Offset 580: group quota inode.
    pub grp_quota_inum: u32,
    /// Offset 584: overhead blocks.
    pub overhead_blocks: u32,
    /// Offset 588: groups holding superblock backups.
    pub backup_bgs: [u32; 2],
    /// Offset 596: encryption algorithms.
    pub encrypt_algos: [u8; 4],
    /// Offset 600: salt for encryption keys.
    pub encrypt_pw_salt: [u8; 16],
    /// 616: lost+found inode
    pub lpf_ino: u32,
    /// Offset 620: project quota inode.
    pub prj_quota_inum: u32,
    /// Offset 624: seed of metadata checksums.
    pub checksum_seed: u32,
    /// Offset 628: reserved.
    pub reserved: [u32; 98],
    /// Offset 1020: superblock checksum.
    pub checksum: u32,

}

impl Default for ext4_sblock {
    fn default() -> (r: Self)
        ensures
            r.inodes_count == 0,
            r.blocks_count_lo == 0,
            r.r_blocks_count_lo == 0,
            r.free_blocks_count_lo == 0,
            r.free_inodes_count == 0,
            r.first_data_block == 0,
            r.log_block_size == 0,
            r.log_cluster_size == 0,
            r.blocks_per_group == 0,
            r.clusters_per_group == 0,
            r.inodes_per_group == 0,
            r.mtime == 0,
            r.wtime == 0,
            r.mnt_count == 0,
            r.max_mnt_count == 0,
            r.magic == 0,
            r.state == 0,
            r.errors == 0,
            r.minor_rev_level == 0,
            r.lastcheck == 0,
            r.checkinterval == 0,
            r.creator_os == 0,
            r.rev_level == 0,
            r.def_resuid == 0,
            r.def_resgid == 0,
            r.first_ino == 0,
            r.inode_size == 0,
            r.block_group_nr == 0,
            r.feature_compat == 0,
            r.feature_incompat == 0,
            r.feature_ro_compat == 0,
            forall|i: int| 0 <= i < 16 ==> r.uuid@[i] == 0,
            forall|i: int| 0 <= i < 16 ==> r.volume_name@[i] == 0,
            forall|i: int| 0 <= i < 64 ==> r.last_mounted@[i] == 0,
            r.algorithm_usage_bitmap == 0,
            r.prealloc_blocks == 0,
            r.prealloc_dir_blocks == 0,
            r.reserved_gdt_blocks == 0,
            forall|i: int| 0 <= i < 16 ==> r.journal_uuid@[i] == 0,
            r.journal_inum == 0,
            r.journal_dev == 0,
            r.last_orphan == 0,
            forall|i: int| 0 <= i < 4 ==> r.hash_seed@[i] == 0,
            r.def_hash_version == 0,
            r.jnl_backup_type == 0,
            r.desc_size == 0,
            r.default_mount_opts == 0,
            r.first_meta_bg == 0,
            r.mkfs_time == 0,
            forall|i: int| 0 <= i < 17 ==> r.jnl_blocks@[i] == 0,
            r.blocks_count_hi == 0,
            r.r_blocks_count_hi == 0,
            r.free_blocks_count_hi == 0,
            r.min_extra_isize == 0,
            r.want_extra_isize == 0,
            r.flags == 0,
            r.raid_stride == 0,
            r.mmp_interval == 0,
            r.mmp_block == 0,
            r.raid_stripe_width == 0,
            r.log_groups_per_flex == 0,
            r.checksum_type == 0,
            r.reserved_pad == 0,
            r.kbytes_written == 0,
            r.snapshot_inum == 0,
            r.snapshot_id == 0,
            r.snapshot_r_blocks_count == 0,
            r.snapshot_list == 0,
            r.error_count == 0,
            r.first_error_time == 0,
            r.first_error_ino == 0,
            r.first_error_block == 0,
            forall|i: int| 0 <= i < 32 ==> r.first_error_func@[i] == 0,
            r.first_error_line == 0,
            r.last_error_time == 0,
            r.last_error_ino == 0,
            r.last_error_line == 0,
            r.last_error_block == 0,
            forall|i: int| 0 <= i < 32 ==> r.last_error_func@[i] == 0,
            forall|i: int| 0 <= i < 64 ==> r.mount_opts@[i] == 0,
            r.usr_quota_inum == 0,
            r.grp_quota_inum == 0,
            r.overhead_blocks == 0,
            forall|i: int| 0 <= i < 2 ==> r.backup_bgs@[i] == 0,
            forall|i: int| 0 <= i < 4 ==> r.encrypt_algos@[i] == 0,
            forall|i: int| 0 <= i < 16 ==> r.encrypt_pw_salt@[i] == 0,
            r.lpf_ino == 0,
            r.prj_quota_inum == 0,
            r.checksum_seed == 0,
            forall|i: int| 0 <= i < 98 ==> r.reserved@[i] == 0,
            r.checksum == 0,
    {
        ext4_sblock {
            inodes_count: 0,
            blocks_count_lo: 0,
            r_blocks_count_lo: 0,
            free_blocks_count_lo: 0,
            free_inodes_count: 0,
            first_data_block: 0,
            log_block_size: 0,
            log_cluster_size: 0,
            blocks_per_group: 0,
            clusters_per_group: 0,
            inodes_per_group: 0,
            mtime: 0,
            wtime: 0,
            mnt_count: 0,
            max_mnt_count: 0,
            magic: 0,
            state: 0,
            errors: 0,
            minor_rev_level: 0,
            lastcheck: 0,
            checkinterval: 0,
            creator_os: 0,
            rev_level: 0,
            def_resuid: 0,
            def_resgid: 0,
            first_ino: 0,
            inode_size: 0,
            block_group_nr: 0,
            feature_compat: 0,
            feature_incompat: 0,
            feature_ro_compat: 0,
            uuid: [0u8; 16],
            volume_name: [0u8; 16],
            last_mounted: [0u8; 64],
            algorithm_usage_bitmap: 0,
            prealloc_blocks: 0,
            prealloc_dir_blocks: 0,
            reserved_gdt_blocks: 0,
            journal_uuid: [0u8; 16],
            journal_inum: 0,
            journal_dev: 0,
            last_orphan: 0,
            hash_seed: [0u32; 4],
            def_hash_version: 0,
            jnl_backup_type: 0,
            desc_size: 0,
            default_mount_opts: 0,
            first_meta_bg: 0,
            mkfs_time: 0,
            jnl_blocks: [0u32; 17],
            blocks_count_hi: 0,
            r_blocks_count_hi: 0,
            free_blocks_count_hi: 0,
            min_extra_isize: 0,
            want_extra_isize: 0,
            flags: 0,
            raid_stride: 0,
            mmp_interval: 0,
            mmp_block: 0,
            raid_stripe_width: 0,
            log_groups_per_flex: 0,
            checksum_type: 0,
            reserved_pad: 0,
            kbytes_written: 0,
            snapshot_inum: 0,
            snapshot_id: 0,
            snapshot_r_blocks_count: 0,
            snapshot_list: 0,
            error_count: 0,
            first_error_time: 0,
            first_error_ino: 0,
            first_error_block: 0,
            first_error_func: [0u8; 32],
            first_error_line: 0,
            last_error_time: 0,
            last_error_ino: 0,
            last_error_line: 0,
            last_error_block: 0,
            last_error_func: [0u8; 32],
            mount_opts: [0u8; 64],
            usr_quota_inum: 0,
            grp_quota_inum: 0,
            overhead_blocks: 0,
            backup_bgs: [0u32; 2],
            encrypt_algos: [0u8; 4],
            encrypt_pw_salt: [0u8; 16],
            lpf_ino: 0,
            prj_quota_inum: 0,
            checksum_seed: 0,
            reserved: [0u32; 98],
            checksum: 0,
        }
    }

}

impl ext4_sblock {
    /// Encoded bytes of fields `inodes_count` to `mtime`.
    pub open spec fn spec_bytes_part0(&self) -> Seq<u8> {
        le32(self.inodes_count)
            + le32(self.blocks_count_lo)
            + le32(self.r_blocks_count_lo)
            + le32(self.free_blocks_count_lo)
            + le32(self.free_inodes_count)
            + le32(self.first_data_block)
            + le32(self.log_block_size)
            + le32(self.log_cluster_size)
            + le32(self.blocks_per_group)
            + le32(self.clusters_per_group)
            + le32(self.inodes_per_group)
            + le32(self.mtime)
    }

    /// Encoded bytes of fields `wtime` to `def_resuid`.
    pub open spec fn spec_bytes_part1(&self) -> Seq<u8> {
        le32(self.wtime)
            + le16(self.mnt_count)
            + le16(self.max_mnt_count)
            + le16(self.magic)
            + le16(self.state)
            + le16(self.errors)
            + le16(self.minor_rev_level)
            + le32(self.lastcheck)
            + le32(self.checkinterval)
            + le32(self.creator_os)
            + le32(self.rev_level)
            + le16(self.def_resuid)
    }

    /// Encoded bytes of fields `def_resgid` to `prealloc_blocks`.
    pub open spec fn spec_bytes_part2(&self) -> Seq<u8> {
        le16(self.def_resgid)
            + le32(self.first_ino)
            + le16(self.inode_size)
            + le16(self.block_group_nr)
            + le32(self.feature_compat)
            + le32(self.feature_incompat)
            + le32(self.feature_ro_compat)
            + self.uuid@
            + self.volume_name@
            + self.last_mounted@
            + le32(self.algorithm_usage_bitmap)
            + seq![self.prealloc_blocks]
    }

    /// Encoded bytes of fields `prealloc_dir_blocks` to `first_meta_bg`.
    pub open spec fn spec_bytes_part3(&self) -> Seq<u8> {
        seq![self.prealloc_dir_blocks]
            + le16(self.reserved_gdt_blocks)
            + self.journal_uuid@
            + le32(self.journal_inum)
            + le32(self.journal_dev)
            + le32(self.last_orphan)
            + le32_seq(self.hash_seed@)
            + seq![self.def_hash_version]
            + seq![self.jnl_backup_type]
            + le16(self.desc_size)
            + le32(self.default_mount_opts)
            + le32(self.first_meta_bg)
    }

    /// Encoded bytes of fields `mkfs_time` to `raid_stripe_width`.
    pub open spec fn spec_bytes_part4(&self) -> Seq<u8> {
        le32(self.mkfs_time)
            + le32_seq(self.jnl_blocks@)
            + le32(self.blocks_count_hi)
            + le32(self.r_blocks_count_hi)
            + le32(self.free_blocks_count_hi)
            + le16(self.min_extra_isize)
            + le16(self.want_extra_isize)
            + le32(self.flags)
            + le16(self.raid_stride)
            + le16(self.mmp_interval)
            + le64(self.mmp_block)
            + le32(self.raid_stripe_width)
    }

    /// Encoded bytes of fields `log_groups_per_flex` to `first_error_block`.
    pub open spec fn spec_bytes_part5(&self) -> Seq<u8> {
        seq![self.log_groups_per_flex]
            + seq![self.checksum_type]
            + le16(self.reserved_pad)
            + le64(self.kbytes_written)
            + le32(self.snapshot_inum)
            + le32(self.snapshot_id)
            + le64(self.snapshot_r_blocks_count)
            + le32(self.snapshot_list)
            + le32(self.error_count)
            + le32(self.first_error_time)
            + le32(self.first_error_ino)
            + le64(self.first_error_block)
    }

    /// Encoded bytes of fields `first_error_func` to `backup_bgs`.
    pub open spec fn spec_bytes_part6(&self) -> Seq<u8> {
        self.first_error_func@
            + le32(self.first_error_line)
            + le32(self.last_error_time)
            + le32(self.last_error_ino)
            + le32(self.last_error_line)
            + le64(self.last_error_block)
            + self.last_error_func@
            + self.mount_opts@
            + le32(self.usr_quota_inum)
            + le32(self.grp_quota_inum)
            + le32(self.overhead_blocks)
            + le32_seq(self.backup_bgs@)
    }

    /// Encoded bytes of fields `encrypt_algos` to `reserved`.
    pub open spec fn spec_bytes_part7(&self) -> Seq<u8> {
        self.encrypt_algos@
            + self.encrypt_pw_salt@
            + le32(self.lpf_ino)
            + le32(self.prj_quota_inum)
            + le32(self.checksum_seed)
            + le32_seq(self.reserved@)
    }


    fn push_part0(&self, v: &mut Vec<u8>)
        ensures
            final(v)@ == old(v)@ + self.spec_bytes_part0(),
    {
        let ghost v0 = v@;
        push_u32_le(v, self.inodes_count);
        push_u32_le(v, self.blocks_count_lo);
        push_u32_le(v, self.r_blocks_count_lo);
        push_u32_le(v, self.free_blocks_count_lo);
        push_u32_le(v, self.free_inodes_count);
        push_u32_le(v, self.first_data_block);
        push_u32_le(v, self.log_block_size);
        push_u32_le(v, self.log_cluster_size);
        push_u32_le(v, self.blocks_per_group);
        push_u32_le(v, self.clusters_per_group);
        push_u32_le(v, self.inodes_per_group);
        push_u32_le(v, self.mtime);
        assert(v@ =~= v0 + self.spec_bytes_part0());
    }

    fn push_part1(&self, v: &mut Vec<u8>)
        ensures
            final(v)@ == old(v)@ + self.spec_bytes_part1(),
    {
        let ghost v0 = v@;
        push_u32_le(v, self.wtime);
        push_u16_le(v, self.mnt_count);
        push_u16_le(v, self.max_mnt_count);
        push_u16_le(v, self.magic);
        push_u16_le(v, self.state);
        push_u16_le(v, self.errors);
        push_u16_le(v, self.minor_rev_level);
        push_u32_le(v, self.lastcheck);
        push_u32_le(v, self.checkinterval);
        push_u32_le(v, self.creator_os);
        push_u32_le(v, self.rev_level);
        push_u16_le(v, self.def_resuid);
        assert(v@ =~= v0 + self.spec_bytes_part1());
    }

    fn push_part2(&self, v: &mut Vec<u8>)
        ensures
            final(v)@ == old(v)@ + self.spec_bytes_part2(),
    {
        let ghost v0 = v@;
        push_u16_le(v, self.def_resgid);
        push_u32_le(v, self.first_ino);
        push_u16_le(v, self.inode_size);
        push_u16_le(v, self.block_group_nr);
        push_u32_le(v, self.feature_compat);
        push_u32_le(v, self.feature_incompat);
        push_u32_le(v, self.feature_ro_compat);
        push_bytes(v, &self.uuid);
        push_bytes(v, &self.volume_name);
        push_bytes(v, &self.last_mounted);
        push_u32_le(v, self.algorithm_usage_bitmap);
        v.push(self.prealloc_blocks);
        assert(v@ =~= v0 + self.spec_bytes_part2());
    }

    fn push_part3(&self, v: &mut Vec<u8>)
        ensures
            final(v)@ == old(v)@ + self.spec_bytes_part3(),
    {
        let ghost v0 = v@;
        v.push(self.prealloc_dir_blocks);
        push_u16_le(v, self.reserved_gdt_blocks);
        push_bytes(v, &self.journal_uuid);
        push_u32_le(v, self.journal_inum);
        push_u32_le(v, self.journal_dev);
        push_u32_le(v, self.last_orphan);
        push_u32_slice_le(v, &self.hash_seed);
        v.push(self.def_hash_version);
        v.push(self.jnl_backup_type);
        push_u16_le(v, self.desc_size);
        push_u32_le(v, self.default_mount_opts);
        push_u32_le(v, self.first_meta_bg);
        assert(v@ =~= v0 + self.spec_bytes_part3());
    }

    fn push_part4(&self, v: &mut Vec<u8>)
        ensures
            final(v)@ == old(v)@ + self.spec_bytes_part4(),
    {
        let ghost v0 = v@;
        push_u32_le(v, self.mkfs_time);
        push_u32_slice_le(v, &self.jnl_blocks);
        push_u32_le(v, self.blocks_count_hi);
        push_u32_le(v, self.r_blocks_count_hi);
        push_u32_le(v, self.free_blocks_count_hi);
        push_u16_le(v, self.min_extra_isize);
        push_u16_le(v, self.want_extra_isize);
        push_u32_le(v, self.flags);
        push_u16_le(v, self.raid_stride);
        push_u16_le(v, self.mmp_interval);
        push_u64_le(v, self.mmp_block);
        push_u32_le(v, self.raid_stripe_width);
        assert(v@ =~= v0 + self.spec_bytes_part4());
    }

    fn push_part5(&self, v: &mut Vec<u8>)
        ensures
            final(v)@ == old(v)@ + self.spec_bytes_part5(),
    {
        let ghost v0 = v@;
        v.push(self.log_groups_per_flex);
        v.push(self.checksum_type);
        push_u16_le(v, self.reserved_pad);
        push_u64_le(v, self.kbytes_written);
        push_u32_le(v, self.snapshot_inum);
        push_u32_le(v, self.snapshot_id);
        push_u64_le(v, self.snapshot_r_blocks_count);
        push_u32_le(v, self.snapshot_list);
        push_u32_le(v, self.error_count);
        push_u32_le(v, self.first_error_time);
        push_u32_le(v, self.first_error_ino);
        push_u64_le(v, self.first_error_block);
        assert(v@ =~= v0 + self.spec_bytes_part5());
    }

    fn push_part6(&self, v: &mut Vec<u8>)
        ensures
            final(v)@ == old(v)@ + self.spec_bytes_part6(),
    {
        let ghost v0 = v@;
        push_bytes(v, &self.first_error_func);
        push_u32_le(v, self.first_error_line);
        push_u32_le(v, self.last_error_time);
        push_u32_le(v, self.last_error_ino);
        push_u32_le(v, self.last_error_line);
        push_u64_le(v, self.last_error_block);
        push_bytes(v, &self.last_error_func);
        push_bytes(v, &self.mount_opts);
        push_u32_le(v, self.usr_quota_inum);
        push_u32_le(v, self.grp_quota_inum);
        push_u32_le(v, self.overhead_blocks);
        push_u32_slice_le(v, &self.backup_bgs);
        assert(v@ =~= v0 + self.spec_bytes_part6());
    }

    fn push_part7(&self, v: &mut Vec<u8>)
        ensures
            final(v)@ == old(v)@ + self.spec_bytes_part7(),
    {
        let ghost v0 = v@;
        push_bytes(v, &self.encrypt_algos);
        push_bytes(v, &self.encrypt_pw_salt);
        push_u32_le(v, self.lpf_ino);
        push_u32_le(v, self.prj_quota_inum);
        push_u32_le(v, self.checksum_seed);
        push_u32_slice_le(v, &self.reserved);
        assert(v@ =~= v0 + self.spec_bytes_part7());
    }

}

impl ext4_sblock {
    /// Bytes 0..1020 of the disk superblock: everything before the checksum.
    pub open spec fn spec_body_bytes(&self) -> Seq<u8> {
        self.spec_bytes_part0() + self.spec_bytes_part1() + self.spec_bytes_part2()
            + self.spec_bytes_part3() + self.spec_bytes_part4() + self.spec_bytes_part5()
            + self.spec_bytes_part6() + self.spec_bytes_part7()
    }

    /// The 1024 bytes of the disk superblock.
    pub open spec fn spec_to_bytes(&self) -> Seq<u8> {
        self.spec_body_bytes() + le32(self.checksum)
    }

    /// The checksummed part of the superblock is 1020 bytes long.
    #[verifier::spinoff_prover]
    #[verifier::rlimit(40)]
    pub proof fn lemma_body_len(&self)
        ensures
            self.spec_body_bytes().len() == 1020,
            self.spec_to_bytes().len() == 1024,
    {
        lemma_le32_seq_len(self.hash_seed@);
        lemma_le32_seq_len(self.jnl_blocks@);
        lemma_le32_seq_len(self.backup_bgs@);
        lemma_le32_seq_len(self.reserved@);
        assert(self.spec_bytes_part0().len() == 48);
        assert(self.spec_bytes_part1().len() == 34);
        assert(self.spec_bytes_part2().len() == 123);
        assert(self.spec_bytes_part3().len() == 59);
        assert(self.spec_bytes_part4().len() == 108);
        assert(self.spec_bytes_part5().len() == 52);
        assert(self.spec_bytes_part6().len() == 172);
        assert(self.spec_bytes_part7().len() == 424);
    }

    /// Encodes the bytes before the checksum field.
    pub fn body_bytes(&self) -> (v: Vec<u8>)
        ensures
            v@ == self.spec_body_bytes(),
    {
        let mut v: Vec<u8> = Vec::new();
        self.push_part0(&mut v);
        self.push_part1(&mut v);
        self.push_part2(&mut v);
        self.push_part3(&mut v);
        self.push_part4(&mut v);
        self.push_part5(&mut v);
        self.push_part6(&mut v);
        self.push_part7(&mut v);
        assert(v@ =~= self.spec_body_bytes());
        v
    }

    /// Encodes the superblock in its disk layout.
    pub fn to_bytes(&self) -> (v: Vec<u8>)
        ensures
            v@ == self.spec_to_bytes(),
    {
        let mut v = self.body_bytes();
        push_u32_le(&mut v, self.checksum);
        v
    }

    /// Block size in bytes: `1024 << log_block_size`.
    pub open spec fn spec_block_size(&self) -> u32 {
        1024u32 << self.log_block_size
    }

    /// Block size in bytes.
    #[verifier::when_used_as_spec(spec_block_size)]
    pub fn block_size(&self) -> (r: u32)
        requires
            self.log_block_size < 32,
        ensures
            r == self.spec_block_size(),
    {
        1024u32 << self.log_block_size
    }

    /// Inode size, 128 when the field is zero.
    pub open spec fn spec_inode_size(&self) -> u16 {
        if self.inode_size == 0 {
            128
        } else {
            self.inode_size
        }
    }

    /// Inode size, 128 when the field is zero.
    #[verifier::when_used_as_spec(spec_inode_size)]
    pub fn inode_size(&self) -> (r: u16)
        ensures
            r == self.spec_inode_size(),
    {
        let size = self.inode_size;
        if size == 0 {
            128
        } else {
            size
        }
    }

    /// Total block count from its two halves.
    pub open spec fn spec_blocks_count(&self) -> int {
        self.blocks_count_lo as int + self.blocks_count_hi as int * 0x1_0000_0000
    }

    /// Total block count from its two halves.
    pub fn blocks_count(&self) -> (r: u64)
        ensures
            r == self.spec_blocks_count(),
    {
        join_u32(self.blocks_count_lo, self.blocks_count_hi)
    }

    /// Free block count from its two halves.
    pub open spec fn spec_free_blocks_count(&self) -> int {
        self.free_blocks_count_lo as int + self.free_blocks_count_hi as int * 0x1_0000_0000
    }

    /// Free block count from its two halves.
    pub fn free_blocks_count(&self) -> (r: u64)
        ensures
            r == self.spec_free_blocks_count(),
    {
        join_u32(self.free_blocks_count_lo, self.free_blocks_count_hi)
    }

    /// Number of block groups: the block count divided by the blocks per
    /// group, rounded up, truncated to 32 bits.
    pub open spec fn spec_block_group_count(&self) -> u32 {
        ((self.spec_blocks_count() + self.blocks_per_group as int - 1)
            / self.blocks_per_group as int) as u32
    }

    /// Number of block groups.
    #[verifier::when_used_as_spec(spec_block_group_count)]
    pub fn block_group_count(&self) -> (r: u32)
        requires
            self.blocks_per_group != 0,
            self.spec_blocks_count() + self.blocks_per_group - 1 <= u64::MAX,
        ensures
            r == self.spec_block_group_count(),
    {
        let blocks_count = self.blocks_count();
        let blocks_per_group = self.blocks_per_group as u64;
        ((blocks_count + (blocks_per_group - 1)) / blocks_per_group) as u32
    }

    /// Whether the magic number is the ext4 one.
    pub fn is_valid(&self) -> (r: bool)
        ensures
            r == (self.magic == EXT4_SUPERBLOCK_MAGIC),
    {
        self.magic == EXT4_SUPERBLOCK_MAGIC
    }
}

/// The ext4 inode (`ext4_inode`), 160 bytes in this layout.
#[derive(Debug, Clone, Copy)]
pub struct ext4_inode {
    /// Offset 0: file mode: type and permission bits.
    pub mode: u16,
    /// Offset 2: owner user id, low 16 bits.
    pub uid: u16,
    /// Offset 4: size in bytes, low 32 bits.
    pub size_lo: u32,
    /// Offset 8: access time.
    pub atime: u32,
    /// Offset 12: inode change time.
    pub ctime: u32,
    /// Offset 16: modification time.
    pub mtime: u32,
    /// Offset 20: deletion time.
    pub dtime: u32,
    /// Offset 24: owner group id, low 16 bits.
    pub gid: u16,
    /// Offset 26: hard link count.
    pub links_count: u16,
    /// Offset 28: block count, low 32 bits.
    pub blocks_count_lo: u32,
    /// Offset 32: inode flags.
    pub flags: u32,
    /// Offset 36: operating-system specific value.
    pub osd1: u32,
    /// Offset 40: block map or extent tree root.
    pub blocks: [u32; EXT4_INODE_BLOCKS],
    /// Offset 100: file version, for network filesystems.
    pub generation: u32,
    /// Offset 104: extended attribute block, low 32 bits.
    pub file_acl_lo: u32,
    /// Offset 108: size in bytes, high 32 bits.
    pub size_hi: u32,
    /// Offset 112: obsolete fragment address.
    pub obso_faddr: u32,
    /// Offset 116: block count, high 16 bits.
    pub blocks_high: u16,
    /// Offset 118: extended attribute block, high 16 bits.
    pub file_acl_high: u16,
    /// Offset 120: owner user id, high 16 bits.
    pub uid_high: u16,
    /// Offset 122: owner group id, high 16 bits.
    pub gid_high: u16,
    /// Offset 124: inode checksum, low 16 bits.
    pub checksum_lo: u16,
    /// Offset 126: reserved.
    pub reserved: u16,
    /// Offset 128: size of the fields past the first 128 bytes.
    pub extra_isize: u16,
    /// Offset 130: inode checksum, high 16 bits.
    pub checksum_hi: u16,
    /// Offset 132: extra change time bits.
    pub ctime_extra: u32,
    /// Offset 136: extra modification time bits.
    pub mtime_extra: u32,
    /// Offset 140: extra access time bits.
    pub atime_extra: u32,
    /// Offset 144: creation time.
    pub crtime: u32,
    /// Offset 148: extra creation time bits.
    pub crtime_extra: u32,
    /// Offset 152: version, high 32 bits.
    pub version_hi: u32,
    /// Offset 156: project id.
    pub projid: u32,

}

impl Default for ext4_inode {
    fn default() -> (r: Self)
        ensures
            r.mode == 0,
            r.uid == 0,
            r.size_lo == 0,
            r.atime == 0,
            r.ctime == 0,
            r.mtime == 0,
            r.dtime == 0,
            r.gid == 0,
            r.links_count == 0,
            r.blocks_count_lo == 0,
            r.flags == 0,
            r.osd1 == 0,
            forall|i: int| 0 <= i < EXT4_INODE_BLOCKS ==> r.blocks@[i] == 0,
            r.generation == 0,
            r.file_acl_lo == 0,
            r.size_hi == 0,
            r.obso_faddr == 0,
            r.blocks_high == 0,
            r.file_acl_high == 0,
            r.uid_high == 0,
            r.gid_high == 0,
            r.checksum_lo == 0,
            r.reserved == 0,
            r.extra_isize == 0,
            r.checksum_hi == 0,
            r.ctime_extra == 0,
            r.mtime_extra == 0,
            r.atime_extra == 0,
            r.crtime == 0,
            r.crtime_extra == 0,
            r.version_hi == 0,
            r.projid == 0,
    {
        ext4_inode {
            mode: 0,
            uid: 0,
            size_lo: 0,
            atime: 0,
            ctime: 0,
            mtime: 0,
            dtime: 0,
            gid: 0,
            links_count: 0,
            blocks_count_lo: 0,
            flags: 0,
            osd1: 0,
            blocks: [0u32; EXT4_INODE_BLOCKS],
            generation: 0,
            file_acl_lo: 0,
            size_hi: 0,
            obso_faddr: 0,
            blocks_high: 0,
            file_acl_high: 0,
            uid_high: 0,
            gid_high: 0,
            checksum_lo: 0,
            reserved: 0,
            extra_isize: 0,
            checksum_hi: 0,
            ctime_extra: 0,
            mtime_extra: 0,
            atime_extra: 0,
            crtime: 0,
            crtime_extra: 0,
            version_hi: 0,
            projid: 0,
        }
    }

}

impl ext4_inode {
    /// Encoded bytes of fields `mode` to `osd1`.
    pub open spec fn spec_bytes_part0(&self) -> Seq<u8> {
        le16(self.mode)
            + le16(self.uid)
            + le32(self.size_lo)
            + le32(self.atime)
            + le32(self.ctime)
            + le32(self.mtime)
            + le32(self.dtime)
            + le16(self.gid)
            + le16(self.links_count)
            + le32(self.blocks_count_lo)
            + le32(self.flags)
            + le32(self.osd1)
    }

    /// Encoded bytes of fields `blocks` to `gid_high`.
    pub open spec fn spec_bytes_part1(&self) -> Seq<u8> {
        le32_seq(self.blocks@)
            + le32(self.generation)
            + le32(self.file_acl_lo)
            + le32(self.size_hi)
            + le32(self.obso_faddr)
            + le16(self.blocks_high)
            + le16(self.file_acl_high)
            + le16(self.uid_high)
            + le16(self.gid_high)
    }

    /// Encoded bytes of fields `reserved` to `extra_isize`.
    pub open spec fn spec_bytes_part2(&self) -> Seq<u8> {
        le16(self.reserved)
            + le16(self.extra_isize)
    }

    /// Encoded bytes of fields `ctime_extra` to `projid`.
    pub open spec fn spec_bytes_part3(&self) -> Seq<u8> {
        le32(self.ctime_extra)
            + le32(self.mtime_extra)
            + le32(self.atime_extra)
            + le32(self.crtime)
            + le32(self.crtime_extra)
            + le32(self.version_hi)
            + le32(self.projid)
    }

    fn push_part0(&self, v: &mut Vec<u8>)
        ensures
            final(v)@ == old(v)@ + self.spec_bytes_part0(),
    {
        let ghost v0 = v@;
        push_u16_le(v, self.mode);
        push_u16_le(v, self.uid);
        push_u32_le(v, self.size_lo);
        push_u32_le(v, self.atime);
        push_u32_le(v, self.ctime);
        push_u32_le(v, self.mtime);
        push_u32_le(v, self.dtime);
        push_u16_le(v, self.gid);
        push_u16_le(v, self.links_count);
        push_u32_le(v, self.blocks_count_lo);
        push_u32_le(v, self.flags);
        push_u32_le(v, self.osd1);
        assert(v@ =~= v0 + self.spec_bytes_part0());
    }

    fn push_part1(&self, v: &mut Vec<u8>)
        ensures
            final(v)@ == old(v)@ + self.spec_bytes_part1(),
    {
        let ghost v0 = v@;
        push_u32_slice_le(v, &self.blocks);
        push_u32_le(v, self.generation);
        push_u32_le(v, self.file_acl_lo);
        push_u32_le(v, self.size_hi);
        push_u32_le(v, self.obso_faddr);
        push_u16_le(v, self.blocks_high);
        push_u16_le(v, self.file_acl_high);
        push_u16_le(v, self.uid_high);
        push_u16_le(v, self.gid_high);
        assert(v@ =~= v0 + self.spec_bytes_part1());
    }

    fn push_part2(&self, v: &mut Vec<u8>)
        ensures
            final(v)@ == old(v)@ + self.spec_bytes_part2(),
    {
        let ghost v0 = v@;
        push_u16_le(v, self.reserved);
        push_u16_le(v, self.extra_isize);
        assert(v@ =~= v0 + self.spec_bytes_part2());
    }

    fn push_part3(&self, v: &mut Vec<u8>)
        ensures
            final(v)@ == old(v)@ + self.spec_bytes_part3(),
    {
        let ghost v0 = v@;
        push_u32_le(v, self.ctime_extra);
        push_u32_le(v, self.mtime_extra);
        push_u32_le(v, self.atime_extra);
        push_u32_le(v, self.crtime);
        push_u32_le(v, self.crtime_extra);
        push_u32_le(v, self.version_hi);
        push_u32_le(v, self.projid);
        assert(v@ =~= v0 + self.spec_bytes_part3());
    }

}


impl ext4_inode {
    /// The 160 bytes of the inode in its disk layout.
    pub open spec fn spec_to_bytes(&self) -> Seq<u8> {
        self.spec_bytes_part0() + self.spec_bytes_part1() + le16(self.checksum_lo)
            + self.spec_bytes_part2() + le16(self.checksum_hi) + self.spec_bytes_part3()
    }

    /// The encoded inode is 160 bytes long.
    pub proof fn lemma_bytes_len(&self)
        ensures
            self.spec_to_bytes().len() == 160,
    {
        lemma_le32_seq_len(self.blocks@);
        assert(self.spec_bytes_part0().len() == 40);
        assert(self.spec_bytes_part1().len() == 84);
        assert(self.spec_bytes_part2().len() == 4);
        assert(self.spec_bytes_part3().len() == 28);
    }

    /// Encodes the inode in its disk layout.
    pub fn to_bytes(&self) -> (v: Vec<u8>)
        ensures
            v@ == self.spec_to_bytes(),
    {
        let mut v: Vec<u8> = Vec::new();
        self.push_part0(&mut v);
        self.push_part1(&mut v);
        push_u16_le(&mut v, self.checksum_lo);
        self.push_part2(&mut v);
        push_u16_le(&mut v, self.checksum_hi);
        self.push_part3(&mut v);
        assert(v@ =~= self.spec_to_bytes());
        v
    }

    /// File size from its two halves.
    pub open spec fn spec_file_size(&self) -> int {
        self.size_lo as int + self.size_hi as int * 0x1_0000_0000
    }

    /// File size in bytes.
    pub fn file_size(&self) -> (r: u64)
        ensures
            r == self.spec_file_size(),
    {
        join_u32(self.size_lo, self.size_hi)
    }

    /// Count of 512-byte sectors from its 32-bit and 16-bit parts.
    pub open spec fn spec_blocks_count(&self) -> int {
        self.blocks_count_lo as int + self.blocks_high as int * 0x1_0000_0000
    }

    /// Count of 512-byte sectors.
    pub fn blocks_count(&self) -> (r: u64)
        ensures
            r == self.spec_blocks_count(),
    {
        join_u32_u16(self.blocks_count_lo, self.blocks_high)
    }

    /// The file type bits of the mode.
    pub open spec fn spec_type_bits(&self) -> u16 {
        self.mode & EXT4_INODE_MODE_TYPE_MASK
    }

    /// Whether the inode is a directory.
    pub fn is_dir(&self) -> (r: bool)
        ensures
            r == (self.spec_type_bits() == EXT4_INODE_MODE_DIRECTORY),
    {
        (self.mode & EXT4_INODE_MODE_TYPE_MASK) == EXT4_INODE_MODE_DIRECTORY
    }

    /// Whether the inode is a regular file.
    pub fn is_file(&self) -> (r: bool)
        ensures
            r == (self.spec_type_bits() == EXT4_INODE_MODE_FILE),
    {
        (self.mode & EXT4_INODE_MODE_TYPE_MASK) == EXT4_INODE_MODE_FILE
    }

    /// Whether the inode is a symbolic link.
    pub fn is_symlink(&self) -> (r: bool)
        ensures
            r == (self.spec_type_bits() == EXT4_INODE_MODE_SOFTLINK),
    {
        (self.mode & EXT4_INODE_MODE_TYPE_MASK) == EXT4_INODE_MODE_SOFTLINK
    }
}

/// A directory entry header (`ext4_dir_entry_2`); the name follows it.
#[derive(Debug, Clone, Copy)]
pub struct ext4_dir_entry {
    /// Inode number.
    pub inode: u32,
    /// Length of the whole record.
    pub rec_len: u16,
    /// Length of the name.
    pub name_len: u8,
    /// File type.
    pub file_type: u8,
}

/// Alias of [`ext4_dir_entry`].
pub type ext4_dir_en = ext4_dir_entry;

/// Count and limit of an HTree index node.
#[derive(Debug, Clone, Copy)]
pub struct ext4_dir_idx_climit {
    /// Largest number of entries.
    pub limit: u16,
    /// Current number of entries.
    pub count: u16,
}

impl Default for ext4_dir_idx_climit {
    fn default() -> (r: Self)
        ensures
            r.limit == 0,
            r.count == 0,
    {
        ext4_dir_idx_climit { limit: 0, count: 0 }
    }
}

impl ext4_dir_idx_climit {
    /// The limit.
    pub fn limit(&self) -> (r: u16)
        ensures
            r == self.limit,
    {
        self.limit
    }

    /// The count.
    pub fn count(&self) -> (r: u16)
        ensures
            r == self.count,
    {
        self.count
    }

    /// Sets the limit.
    pub fn set_limit(&mut self, val: u16)
        ensures
            *final(self) == (ext4_dir_idx_climit { limit: val, ..*old(self) }),
    {
        self.limit = val;
    }

    /// Sets the count.
    pub fn set_count(&mut self, val: u16)
        ensures
            *final(self) == (ext4_dir_idx_climit { count: val, ..*old(self) }),
    {
        self.count = val;
    }
}

/// The "." entry of an HTree root.
#[derive(Debug, Clone, Copy)]
pub struct ext4_dir_idx_dot_en {
    /// Inode number.
    pub inode: u32,
    /// Record length.
    pub entry_len: u16,
    /// Name length.
    pub name_len: u8,
    /// File type.
    pub inode_type: u8,
    /// Name bytes.
    pub name: [u8; 4],
}

impl Default for ext4_dir_idx_dot_en {
    fn default() -> (r: Self)
        ensures
            r.inode == 0,
            r.entry_len == 0,
            r.name_len == 0,
            r.inode_type == 0,
            forall|i: int| 0 <= i < 4 ==> r.name@[i] == 0,
    {
        ext4_dir_idx_dot_en { inode: 0, entry_len: 0, name_len: 0, inode_type: 0, name: [0u8; 4] }
    }
}

impl ext4_dir_idx_dot_en {
    /// Inode number.
    pub fn inode(&self) -> (r: u32)
        ensures
            r == self.inode,
    {
        self.inode
    }

    /// Record length.
    pub fn entry_len(&self) -> (r: u16)
        ensures
            r == self.entry_len,
    {
        self.entry_len
    }
}

/// HTree root information.
#[derive(Debug, Clone, Copy)]
pub struct ext4_dir_idx_rinfo {
    /// Must be zero.
    pub reserved_zero: u32,
    /// Hash version.
    pub hash_version: u8,
    /// Length of this structure (8).
    pub info_length: u8,
    /// Depth of the index.
    pub indirect_levels: u8,
    /// Unused.
    pub unused_flags: u8,
}

impl Default for ext4_dir_idx_rinfo {
    fn default() -> (r: Self)
        ensures
            r.reserved_zero == 0,
            r.hash_version == 0,
            r.info_length == 0,
            r.indirect_levels == 0,
            r.unused_flags == 0,
    {
        ext4_dir_idx_rinfo {
            reserved_zero: 0,
            hash_version: 0,
            info_length: 0,
            indirect_levels: 0,
            unused_flags: 0,
        }
    }
}

impl ext4_dir_idx_rinfo {
    /// Hash version.
    pub fn hash_version(&self) -> (r: u8)
        ensures
            r == self.hash_version,
    {
        self.hash_version
    }

    /// Info length.
    pub fn info_length(&self) -> (r: u8)
        ensures
            r == self.info_length,
    {
        self.info_length
    }

    /// Index depth.
    pub fn indirect_levels(&self) -> (r: u8)
        ensures
            r == self.indirect_levels,
    {
        self.indirect_levels
    }

    /// Sets the hash version.
    pub fn set_hash_version(&mut self, version: u8)
        ensures
            *final(self) == (ext4_dir_idx_rinfo { hash_version: version, ..*old(self) }),
    {
        self.hash_version = version;
    }

    /// Sets the info length.
    pub fn set_info_length(&mut self, len: u8)
        ensures
            *final(self) == (ext4_dir_idx_rinfo { info_length: len, ..*old(self) }),
    {
        self.info_length = len;
    }

    /// Sets the index depth.
    pub fn set_indirect_levels(&mut self, levels: u8)
        ensures
            *final(self) == (ext4_dir_idx_rinfo { indirect_levels: levels, ..*old(self) }),
    {
        self.indirect_levels = levels;
    }
}

/// An HTree index entry.
#[derive(Debug, Clone, Copy)]
pub struct ext4_dir_idx_entry {
    /// Hash value.
    pub hash: u32,
    /// Block number.
    pub block: u32,
}

impl Default for ext4_dir_idx_entry {
    fn default() -> (r: Self)
        ensures
            r.hash == 0,
            r.block == 0,
    {
        ext4_dir_idx_entry { hash: 0, block: 0 }
    }
}

impl ext4_dir_idx_entry {
    /// Hash value.
    pub fn hash(&self) -> (r: u32)
        ensures
            r == self.hash,
    {
        self.hash
    }

    /// Block number.
    pub fn block(&self) -> (r: u32)
        ensures
            r == self.block,
    {
        self.block
    }

    /// Sets the hash value.
    pub fn set_hash(&mut self, hash: u32)
        ensures
            *final(self) == (ext4_dir_idx_entry { hash: hash, ..*old(self) }),
    {
        self.hash = hash;
    }

    /// Sets the block number.
    pub fn set_block(&mut self, block: u32)
        ensures
            *final(self) == (ext4_dir_idx_entry { block: block, ..*old(self) }),
    {
        self.block = block;
    }
}

/// The root of an HTree: "." and "..", the root information, then entries.
#[derive(Debug, Clone, Copy)]
pub struct ext4_dir_idx_root {
    /// The "." and ".." entries.
    pub dots: [ext4_dir_idx_dot_en; 2],
    /// Root information.
    pub info: ext4_dir_idx_rinfo,
}

impl Default for ext4_dir_idx_root {
    fn default() -> (r: Self)
        ensures
            r.info.indirect_levels == 0,
            r.info.hash_version == 0,
    {
        let dot = ext4_dir_idx_dot_en::default();
        ext4_dir_idx_root { dots: [dot, dot], info: ext4_dir_idx_rinfo::default() }
    }
}

/// The fake directory entry at the start of an HTree index node.
#[derive(Debug, Clone, Copy)]
pub struct ext4_fake_dir_entry {
    /// Inode number (zero).
    pub inode: u32,
    /// Record length.
    pub entry_len: u16,
    /// Name length (zero).
    pub name_len: u8,
    /// File type.
    pub inode_type: u8,
}

impl Default for ext4_fake_dir_entry {
    fn default() -> (r: Self)
        ensures
            r.inode == 0,
            r.entry_len == 0,
            r.name_len == 0,
            r.inode_type == 0,
    {
        ext4_fake_dir_entry { inode: 0, entry_len: 0, name_len: 0, inode_type: 0 }
    }
}

/// An HTree index node: the fake entry, then the index entries.
#[derive(Debug, Clone, Copy)]
pub struct ext4_dir_idx_node {
    /// The fake directory entry.
    pub fake: ext4_fake_dir_entry,
}

impl Default for ext4_dir_idx_node {
    fn default() -> (r: Self)
        ensures
            r.fake.inode == 0,
            r.fake.entry_len == 0,
    {
        ext4_dir_idx_node { fake: ext4_fake_dir_entry::default() }
    }
}

/// The checksum tail of an HTree index block.
#[derive(Debug, Clone, Copy)]
pub struct ext4_dir_idx_tail {
    /// Reserved.
    pub reserved: u32,
    /// Checksum.
    pub checksum: u32,
}

impl Default for ext4_dir_idx_tail {
    fn default() -> (r: Self)
        ensures
            r.reserved == 0,
            r.checksum == 0,
    {
        ext4_dir_idx_tail { reserved: 0, checksum: 0 }
    }
}

impl ext4_dir_idx_tail {
    /// The checksum.
    pub fn checksum(&self) -> (r: u32)
        ensures
            r == self.checksum,
    {
        self.checksum
    }

    /// Sets the checksum.
    pub fn set_checksum(&mut self, csum: u32)
        ensures
            *final(self) == (ext4_dir_idx_tail { checksum: csum, ..*old(self) }),
    {
        self.checksum = csum;
    }
}

/// The checksum tail of a directory block.
#[derive(Debug, Clone, Copy)]
pub struct ext4_dir_entry_tail {
    /// Must be zero.
    pub reserved_zero1: u32,
    /// Record length (12).
    pub rec_len: u16,
    /// Must be zero.
    pub reserved_zero2: u8,
    /// File type marker (0xDE).
    pub reserved_ft: u8,
    /// Checksum.
    pub checksum: u32,
}

impl Default for ext4_dir_entry_tail {
    fn default() -> (r: Self)
        ensures
            r.reserved_zero1 == 0,
            r.rec_len == 0,
            r.reserved_zero2 == 0,
            r.reserved_ft == 0,
            r.checksum == 0,
    {
        ext4_dir_entry_tail {
            reserved_zero1: 0,
            rec_len: 0,
            reserved_zero2: 0,
            reserved_ft: 0,
            checksum: 0,
        }
    }
}

impl ext4_dir_entry_tail {
    /// The checksum.
    pub fn checksum(&self) -> (r: u32)
        ensures
            r == self.checksum,
    {
        self.checksum
    }

    /// Sets the checksum.
    pub fn set_checksum(&mut self, csum: u32)
        ensures
            *final(self) == (ext4_dir_entry_tail { checksum: csum, ..*old(self) }),
    {
        self.checksum = csum;
    }

    /// The record length.
    pub fn rec_len(&self) -> (r: u16)
        ensures
            r == self.rec_len,
    {
        self.rec_len
    }

    /// Sets the record length.
    pub fn set_rec_len(&mut self, len: u16)
        ensures
            *final(self) == (ext4_dir_entry_tail { rec_len: len, ..*old(self) }),
    {
        self.rec_len = len;
    }
}

/// A block group descriptor (`ext4_group_desc`).
#[derive(Debug, Clone, Copy)]
pub struct ext4_group_desc {
    pub block_bitmap_lo: u32,
    pub inode_bitmap_lo: u32,
    pub inode_table_lo: u32,
    pub free_blocks_count_lo: u16,
    pub free_inodes_count_lo: u16,
    pub used_dirs_count_lo: u16,
    pub flags: u16,
    pub exclude_bitmap_lo: u32,
    pub block_bitmap_csum_lo: u16,
    pub inode_bitmap_csum_lo: u16,
    pub itable_unused_lo: u16,
    pub checksum: u16,
    pub block_bitmap_hi: u32,
    pub inode_bitmap_hi: u32,
    pub inode_table_hi: u32,
    pub free_blocks_count_hi: u16,
    pub free_inodes_count_hi: u16,
    pub used_dirs_count_hi: u16,
    pub itable_unused_hi: u16,
    pub exclude_bitmap_hi: u32,
    pub block_bitmap_csum_hi: u16,
    pub inode_bitmap_csum_hi: u16,
    pub reserved: u32,
}

impl Default for ext4_group_desc {
    fn default() -> (r: Self)
        ensures
            r.block_bitmap_lo == 0 && r.inode_bitmap_lo == 0 && r.inode_table_lo == 0,
            r.free_blocks_count_lo == 0 && r.free_inodes_count_lo == 0,
            r.used_dirs_count_lo == 0 && r.flags == 0 && r.exclude_bitmap_lo == 0,
            r.block_bitmap_csum_lo == 0 && r.inode_bitmap_csum_lo == 0,
            r.itable_unused_lo == 0 && r.checksum == 0,
            r.block_bitmap_hi == 0 && r.inode_bitmap_hi == 0 && r.inode_table_hi == 0,
            r.free_blocks_count_hi == 0 && r.free_inodes_count_hi == 0,
            r.used_dirs_count_hi == 0 && r.itable_unused_hi == 0 && r.exclude_bitmap_hi == 0,
            r.block_bitmap_csum_hi == 0 && r.inode_bitmap_csum_hi == 0 && r.reserved == 0,
    {
        ext4_group_desc {
            block_bitmap_lo: 0,
            inode_bitmap_lo: 0,
            inode_table_lo: 0,
            free_blocks_count_lo: 0,
            free_inodes_count_lo: 0,
            used_dirs_count_lo: 0,
            flags: 0,
            exclude_bitmap_lo: 0,
            block_bitmap_csum_lo: 0,
            inode_bitmap_csum_lo: 0,
            itable_unused_lo: 0,
            checksum: 0,
            block_bitmap_hi: 0,
            inode_bitmap_hi: 0,
            inode_table_hi: 0,
            free_blocks_count_hi: 0,
            free_inodes_count_hi: 0,
            used_dirs_count_hi: 0,
            itable_unused_hi: 0,
            exclude_bitmap_hi: 0,
            block_bitmap_csum_hi: 0,
            inode_bitmap_csum_hi: 0,
            reserved: 0,
        }
    }
}

impl ext4_group_desc {
    /// Block bitmap location from its two halves.
    pub fn block_bitmap(&self) -> (r: u64)
        ensures
            r == self.block_bitmap_lo as int + self.block_bitmap_hi as int * 0x1_0000_0000,
    {
        join_u32(self.block_bitmap_lo, self.block_bitmap_hi)
    }

    /// Inode bitmap location from its two halves.
    pub fn inode_bitmap(&self) -> (r: u64)
        ensures
            r == self.inode_bitmap_lo as int + self.inode_bitmap_hi as int * 0x1_0000_0000,
    {
        join_u32(self.inode_bitmap_lo, self.inode_bitmap_hi)
    }

    /// Inode table location from its two halves.
    pub fn inode_table(&self) -> (r: u64)
        ensures
            r == self.inode_table_lo as int + self.inode_table_hi as int * 0x1_0000_0000,
    {
        join_u32(self.inode_table_lo, self.inode_table_hi)
    }
}

/// Header of an extent tree node.
#[derive(Debug, Clone, Copy)]
pub struct ext4_extent_header {
    /// Magic number 0xF30A.
    pub magic: u16,
    /// Number of valid entries.
    pub entries: u16,
    /// Capacity in entries.
    pub max: u16,
    /// Depth; zero for a leaf.
    pub depth: u16,
    /// Generation.
    pub generation: u32,
}

impl Default for ext4_extent_header {
    fn default() -> (r: Self)
        ensures
            r.magic == 0 && r.entries == 0 && r.max == 0 && r.depth == 0 && r.generation == 0,
    {
        ext4_extent_header { magic: 0, entries: 0, max: 0, depth: 0, generation: 0 }
    }
}

impl ext4_extent_header {
    /// Whether the magic number is 0xF30A.
    pub fn is_valid(&self) -> (r: bool)
        ensures
            r == (self.magic == 0xF30A),
    {
        self.magic == 0xF30A
    }

    /// Number of entries.
    pub fn entries_count(&self) -> (r: u16)
        ensures
            r == self.entries,
    {
        self.entries
    }

    /// Capacity in entries.
    pub fn max_entries(&self) -> (r: u16)
        ensures
            r == self.max,
    {
        self.max
    }

    /// Depth of the node.
    pub fn depth(&self) -> (r: u16)
        ensures
            r == self.depth,
    {
        self.depth
    }

    /// Whether the node is a leaf.
    pub fn is_leaf(&self) -> (r: bool)
        ensures
            r == (self.depth == 0),
    {
        self.depth() == 0
    }
}

/// A leaf extent: a run of physical blocks.
#[derive(Debug, Clone, Copy)]
pub struct ext4_extent {
    /// First logical block.
    pub block: u32,
    /// Length; the top bit marks an unwritten extent.
    pub len: u16,
    /// High 16 bits of the physical block.
    pub start_hi: u16,
    /// Low 32 bits of the physical block.
    pub start_lo: u32,
}

impl Default for ext4_extent {
    fn default() -> (r: Self)
        ensures
            r.block == 0 && r.len == 0 && r.start_hi == 0 && r.start_lo == 0,
    {
        ext4_extent { block: 0, len: 0, start_hi: 0, start_lo: 0 }
    }
}

impl ext4_extent {
    /// First logical block.
    pub fn logical_block(&self) -> (r: u32)
        ensures
            r == self.block,
    {
        self.block
    }

    /// The raw length field.
    pub fn len(&self) -> (r: u16)
        ensures
            r == self.len,
    {
        self.len
    }

    /// Physical block from its two parts.
    pub fn physical_block(&self) -> (r: u64)
        ensures
            r == self.start_lo as int + self.start_hi as int * 0x1_0000_0000,
    {
        join_u32_u16(self.start_lo, self.start_hi)
    }

    /// Whether the extent is initialized (the top length bit is clear).
    pub fn is_initialized(&self) -> (r: bool)
        ensures
            r == (self.len & 0x8000 == 0),
    {
        (self.len & 0x8000u16) == 0
    }

    /// The length without the unwritten marker.
    pub fn actual_len(&self) -> (r: u16)
        ensures
            r == self.len & 0x7FFF,
    {
        self.len & 0x7FFFu16
    }
}

/// An index entry of an extent tree.
#[derive(Debug, Clone, Copy)]
pub struct ext4_extent_idx {
    /// First logical block covered.
    pub block: u32,
    /// Low 32 bits of the child block.
    pub leaf_lo: u32,
    /// High 16 bits of the child block.
    pub leaf_hi: u16,
    /// Unused.
    pub unused: u16,
}

impl Default for ext4_extent_idx {
    fn default() -> (r: Self)
        ensures
            r.block == 0 && r.leaf_lo == 0 && r.leaf_hi == 0 && r.unused == 0,
    {
        ext4_extent_idx { block: 0, leaf_lo: 0, leaf_hi: 0, unused: 0 }
    }
}

impl ext4_extent_idx {
    /// First logical block covered.
    pub fn logical_block(&self) -> (r: u32)
        ensures
            r == self.block,
    {
        self.block
    }

    /// Child block from its two parts.
    pub fn leaf_block(&self) -> (r: u64)
        ensures
            r == self.leaf_lo as int + self.leaf_hi as int * 0x1_0000_0000,
    {
        join_u32_u16(self.leaf_lo, self.leaf_hi)
    }
}

/// Checksum tail of an extent block.
#[derive(Debug, Clone, Copy)]
pub struct ext4_extent_tail {
    /// CRC32C of uuid, inode number and block.
    pub checksum: u32,
}

impl Default for ext4_extent_tail {
    fn default() -> (r: Self)
        ensures
            r.checksum == 0,
    {
        ext4_extent_tail { checksum: 0 }
    }
}

/// Header of an extended-attribute block.
#[derive(Debug, Clone, Copy)]
pub struct ext4_xattr_header {
    /// Magic number `EXT4_XATTR_MAGIC`.
    pub h_magic: u32,
    /// Reference count.
    pub h_refcount: u32,
    /// Number of blocks (1).
    pub h_blocks: u32,
    /// Hash of all entries.
    pub h_hash: u32,
    /// CRC32C checksum.
    pub h_checksum: u32,
    /// Reserved.
    pub h_reserved: [u32; 3],
}

impl Default for ext4_xattr_header {
    fn default() -> (r: Self)
        ensures
            r.h_magic == 0 && r.h_refcount == 0 && r.h_blocks == 0 && r.h_hash == 0
                && r.h_checksum == 0,
            forall|i: int| 0 <= i < 3 ==> r.h_reserved@[i] == 0,
    {
        ext4_xattr_header {
            h_magic: 0,
            h_refcount: 0,
            h_blocks: 0,
            h_hash: 0,
            h_checksum: 0,
            h_reserved: [0u32; 3],
        }
    }
}

/// Header of the extended attributes stored inside an inode.
#[derive(Debug, Clone, Copy)]
pub struct ext4_xattr_ibody_header {
    /// Magic number `EXT4_XATTR_MAGIC`.
    pub h_magic: u32,
}

impl Default for ext4_xattr_ibody_header {
    fn default() -> (r: Self)
        ensures
            r.h_magic == 0,
    {
        ext4_xattr_ibody_header { h_magic: 0 }
    }
}

/// An extended-attribute entry, 16 bytes on disk; the name follows it.
#[derive(Debug, Clone, Copy)]
pub struct ext4_xattr_entry {
    /// Name length.
    pub e_name_len: u8,
    /// Namespace index.
    pub e_name_index: u8,
    /// Offset of the value.
    pub e_value_offs: u16,
    /// Block of the value (unused, zero).
    pub e_value_block: u32,
    /// Size of the value.
    pub e_value_size: u32,
    /// Hash of name and value.
    pub e_hash: u32,
}

impl Default for ext4_xattr_entry {
    fn default() -> (r: Self)
        ensures
            r.e_name_len == 0 && r.e_name_index == 0 && r.e_value_offs == 0
                && r.e_value_block == 0 && r.e_value_size == 0 && r.e_hash == 0,
    {
        ext4_xattr_entry {
            e_name_len: 0,
            e_name_index: 0,
            e_value_offs: 0,
            e_value_block: 0,
            e_value_size: 0,
            e_hash: 0,
        }
    }
}

impl ext4_xattr_entry {
    /// The entry stored at `s[i..i + 16]`.
    pub open spec fn spec_at(s: Seq<u8>, i: int) -> ext4_xattr_entry {
        ext4_xattr_entry {
            e_name_len: s[i],
            e_name_index: s[i + 1],
            e_value_offs: u16_at(s, i + 2),
            e_value_block: u32_at(s, i + 4),
            e_value_size: u32_at(s, i + 8),
            e_hash: u32_at(s, i + 12),
        }
    }

    /// The 16 bytes of the entry in its disk layout.
    pub open spec fn spec_to_bytes(&self) -> Seq<u8> {
        seq![self.e_name_len, self.e_name_index] + le16(self.e_value_offs) + le32(
            self.e_value_block,
        ) + le32(self.e_value_size) + le32(self.e_hash)
    }

    /// Reads the entry stored at `data[off..off + 16]`.
    pub fn read_at(data: &[u8], off: usize) -> (r: ext4_xattr_entry)
        requires
            off + 16 <= data@.len(),
        ensures
            r == Self::spec_at(data@, off as int),
    {
        ext4_xattr_entry {
            e_name_len: data[off],
            e_name_index: data[off + 1],
            e_value_offs: read_u16_le(data, off + 2),
            e_value_block: read_u32_le(data, off + 4),
            e_value_size: read_u32_le(data, off + 8),
            e_hash: read_u32_le(data, off + 12),
        }
    }

    /// Writes the entry at `data[off..off + 16]`.
    pub fn write_at(&self, data: &mut [u8], off: usize)
        requires
            off + 16 <= old(data)@.len(),
        ensures
            final(data)@ == old(data)@.take(off as int) + self.spec_to_bytes() + old(data)@.skip(
                off + 16,
            ),
    {
        data[off] = self.e_name_len;
        data[off + 1] = self.e_name_index;
        write_u16_le(data, off + 2, self.e_value_offs);
        write_u32_le(data, off + 4, self.e_value_block);
        write_u32_le(data, off + 8, self.e_value_size);
        write_u32_le(data, off + 12, self.e_hash);
        assert(final(data)@ =~= old(data)@.take(off as int) + self.spec_to_bytes() + old(
            data,
        )@.skip(off + 16));
    }

    /// Name length.
    pub fn name_len(&self) -> (r: u8)
        ensures
            r == self.e_name_len,
    {
        self.e_name_len
    }

    /// Namespace index.
    pub fn name_index(&self) -> (r: u8)
        ensures
            r == self.e_name_index,
    {
        self.e_name_index
    }

    /// Value offset.
    pub fn value_offs(&self) -> (r: u16)
        ensures
            r == self.e_value_offs,
    {
        self.e_value_offs
    }

    /// Value size.
    pub fn value_size(&self) -> (r: u32)
        ensures
            r == self.e_value_size,
    {
        self.e_value_size
    }

    /// Hash of name and value.
    pub fn hash(&self) -> (r: u32)
        ensures
            r == self.e_hash,
    {
        self.e_hash
    }
}

} // verus!
