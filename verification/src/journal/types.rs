//! On-disk structures of the JBD2 journal.
//!
//! Every multi-byte field of these structures is big-endian on disk. The
//! structures hold each field as it lies in memory after a byte copy from
//! disk on a little-endian host, that is with its bytes swapped; the
//! accessors swap them back. `spec_to_bytes` gives the bytes in memory order.

use vstd::prelude::*;
use crate::bytes::{le32, le32_seq, lemma_le32_seq_len, push_bytes, push_u32_le, push_u32_slice_le, push_u16_le, le16, swap32, swap16, swap_bytes_u32};

verus! {

/// UUID size in bytes.
pub const UUID_SIZE: usize = 16;

/// Number of filesystems that can share a journal.
pub const JBD_USERS_MAX: usize = 48;

/// Size of the journal user table.
pub const JBD_USERS_SIZE: usize = 768;

/// Number of 32-bit checksum slots in a commit block.
pub const JBD_CHECKSUM_BYTES: usize = 8;

/// The JBD2 magic number.
pub const JBD_MAGIC_NUMBER: u32 = 0xC03B3998;

/// Descriptor block type.
pub const JBD_DESCRIPTOR_BLOCK: u32 = 1;
/// Commit block type.
pub const JBD_COMMIT_BLOCK: u32 = 2;
/// Version 1 superblock type.
pub const JBD_SUPERBLOCK_V1: u32 = 3;
/// Version 2 superblock type.
pub const JBD_SUPERBLOCK_V2: u32 = 4;
/// Revoke block type.
pub const JBD_REVOKE_BLOCK: u32 = 5;

/// Size of a CRC32 checksum.
pub const JBD_CRC32_CHKSUM_SIZE: usize = 4;

/// Tag flag: the block was escaped (it began with the magic number).
pub const JBD_FLAG_ESCAPE: u16 = 1;
/// Tag flag: same UUID as the previous tag.
pub const JBD_FLAG_SAME_UUID: u16 = 2;
/// Tag flag: the block was deleted by this transaction.
pub const JBD_FLAG_DELETED: u16 = 4;
/// Tag flag: last tag of the descriptor block.
pub const JBD_FLAG_LAST_TAG: u16 = 8;

/// Compatible feature: version 1 checksums.
pub const JBD_FEATURE_COMPAT_CHECKSUM: u32 = 0x00000001;
/// Incompatible feature: revoke blocks.
pub const JBD_FEATURE_INCOMPAT_REVOKE: u32 = 0x00000001;
/// Incompatible feature: 64-bit block numbers.
pub const JBD_FEATURE_INCOMPAT_64BIT: u32 = 0x00000002;
/// Incompatible feature: asynchronous commit.
pub const JBD_FEATURE_INCOMPAT_ASYNC_COMMIT: u32 = 0x00000004;
/// Incompatible feature: version 2 checksums (crc32c).
pub const JBD_FEATURE_INCOMPAT_CSUM_V2: u32 = 0x00000008;
/// Incompatible feature: version 3 checksums (full 32 bits in tags).
pub const JBD_FEATURE_INCOMPAT_CSUM_V3: u32 = 0x00000010;

/// Known compatible features.
pub const JBD_KNOWN_COMPAT_FEATURES: u32 = 0;
/// Known read-only compatible features.
pub const JBD_KNOWN_ROCOMPAT_FEATURES: u32 = 0;
/// Known incompatible features.
pub const JBD_KNOWN_INCOMPAT_FEATURES: u32 = 0x1f;

/// Size of the journal superblock.
pub const JBD_SUPERBLOCK_SIZE: usize = 1024;

/// Header of every journal metadata block.
#[derive(Debug, Clone, Copy)]
pub struct jbd_bhdr {
    /// Magic number.
    pub magic: u32,
    /// Block type.
    pub blocktype: u32,
    /// Transaction sequence number.
    pub sequence: u32,
}

/// Checksum algorithms of the commit block.
#[derive(Debug, Clone, Copy, PartialEq, Eq, Structural)]
pub enum JbdChecksumType {
    /// CRC32.
    Crc32,
    /// MD5.
    Md5,
    /// SHA1.
    Sha1,
    /// CRC32C.
    Crc32c,
}

impl JbdChecksumType {
    /// The on-disk code of the algorithm.
    pub fn value(&self) -> (r: u8)
        ensures
            r == match *self {
                JbdChecksumType::Crc32 => 1u8,
                JbdChecksumType::Md5 => 2u8,
                JbdChecksumType::Sha1 => 3u8,
                JbdChecksumType::Crc32c => 4u8,
            },
    {
        match self {
            JbdChecksumType::Crc32 => 1,
            JbdChecksumType::Md5 => 2,
            JbdChecksumType::Sha1 => 3,
            JbdChecksumType::Crc32c => 4,
        }
    }
}

/// Commit block header.
#[derive(Debug, Clone, Copy)]
pub struct jbd_commit_header {
    /// Block header.
    pub header: jbd_bhdr,
    /// Checksum type.
    pub chksum_type: u8,
    /// Checksum size.
    pub chksum_size: u8,
    /// Padding.
    pub padding: [u8; 2],
    /// Checksum slots.
    pub chksum: [u32; JBD_CHECKSUM_BYTES],
    /// Commit time, seconds.
    pub commit_sec: u64,
    /// Commit time, nanoseconds.
    pub commit_nsec: u32,
}

/// Block tag with a full 32-bit checksum (checksum version 3).
#[derive(Debug, Clone, Copy)]
pub struct jbd_block_tag3 {
    /// Block number, low 32 bits.
    pub blocknr: u32,
    /// Flags.
    pub flags: u32,
    /// Block number, high 32 bits.
    pub blocknr_high: u32,
    /// Checksum.
    pub checksum: u32,
}

/// Block tag with a 16-bit checksum.
#[derive(Debug, Clone, Copy)]
pub struct jbd_block_tag {
    /// Block number, low 32 bits.
    pub blocknr: u32,
    /// Truncated checksum.
    pub checksum: u16,
    /// Flags.
    pub flags: u16,
    /// Block number, high 32 bits.
    pub blocknr_high: u32,
}

/// Tail of a descriptor block, holding its checksum.
#[derive(Debug, Clone, Copy)]
pub struct jbd_block_tail {
    /// Checksum.
    pub checksum: u32,
}

/// Revoke block header.
#[derive(Debug, Clone, Copy)]
pub struct jbd_revoke_header {
    /// Block header.
    pub header: jbd_bhdr,
    /// Bytes used in the block.
    pub count: u32,
}

/// Tail of a revoke block, holding its checksum.
#[derive(Debug, Clone, Copy)]
pub struct jbd_revoke_tail {
    /// Checksum.
    pub checksum: u32,
}

/// The journal superblock, 1024 bytes.
#[derive(Debug, Clone, Copy)]
pub struct jbd_sb {
    /// Block header.
    pub header: jbd_bhdr,
    /// Journal block size.
    pub blocksize: u32,
    /// Blocks in the journal.
    pub maxlen: u32,
    /// First block of log information.
    pub first: u32,
    /// First commit id expected in the log.
    pub sequence: u32,
    /// Block number of the start of the log.
    pub start: u32,
    /// Error value.
    pub error_val: i32,
    /// Compatible features.
    pub feature_compat: u32,
    /// Incompatible features.
    pub feature_incompat: u32,
    /// Read-only compatible features.
    pub feature_ro_compat: u32,
    /// Journal UUID.
    pub uuid: [u8; UUID_SIZE],
    /// Number of filesystems sharing the log.
    pub nr_users: u32,
    /// Block number of the dynamic superblock copy.
    pub dynsuper: u32,
    /// Journal blocks per transaction limit.
    pub max_transaction: u32,
    /// Data blocks per transaction limit.
    pub max_trandata: u32,
    /// Checksum type.
    pub checksum_type: u8,
    /// Padding.
    pub padding2: [u8; 3],
    /// Reserved.
    pub padding: [u32; 42],
    /// Checksum of the superblock.
    pub checksum: u32,
    /// Ids of the filesystems sharing the log.
    pub users: [u8; JBD_USERS_SIZE],
}

impl jbd_bhdr {
    /// The 12 bytes of the header.
    pub open spec fn spec_to_bytes(&self) -> Seq<u8> {
        le32(self.magic) + le32(self.blocktype) + le32(self.sequence)
    }

    /// Appends the bytes of the header.
    pub fn push_bytes(&self, v: &mut Vec<u8>)
        ensures
            final(v)@ == old(v)@ + self.spec_to_bytes(),
    {
        push_u32_le(v, self.magic);
        push_u32_le(v, self.blocktype);
        push_u32_le(v, self.sequence);
        assert(v@ =~= old(v)@ + self.spec_to_bytes());
    }

    /// A header of type `blocktype` for transaction `sequence`.
    pub fn new(blocktype: u32, sequence: u32) -> (r: Self)
        ensures
            r.magic == swap32(JBD_MAGIC_NUMBER),
            r.blocktype == swap32(blocktype),
            r.sequence == swap32(sequence),
    {
        jbd_bhdr {
            magic: swap_bytes_u32(JBD_MAGIC_NUMBER),
            blocktype: swap_bytes_u32(blocktype),
            sequence: swap_bytes_u32(sequence),
        }
    }

    /// Whether the magic number is the JBD2 one.
    pub fn verify_magic(&self) -> (r: bool)
        ensures
            r == (swap32(self.magic) == JBD_MAGIC_NUMBER),
    {
        swap_bytes_u32(self.magic) == JBD_MAGIC_NUMBER
    }

    /// The block type.
    pub fn get_blocktype(&self) -> (r: u32)
        ensures
            r == swap32(self.blocktype),
    {
        swap_bytes_u32(self.blocktype)
    }

    /// The sequence number.
    pub fn get_sequence(&self) -> (r: u32)
        ensures
            r == swap32(self.sequence),
    {
        swap_bytes_u32(self.sequence)
    }
}

impl jbd_block_tag {
    /// The 12 bytes of the tag.
    pub open spec fn spec_to_bytes(&self) -> Seq<u8> {
        le32(self.blocknr) + le16(self.checksum) + le16(self.flags) + le32(self.blocknr_high)
    }

    /// Appends the bytes of the tag.
    pub fn push_bytes(&self, v: &mut Vec<u8>)
        ensures
            final(v)@ == old(v)@ + self.spec_to_bytes(),
    {
        push_u32_le(v, self.blocknr);
        push_u16_le(v, self.checksum);
        push_u16_le(v, self.flags);
        push_u32_le(v, self.blocknr_high);
        assert(v@ =~= old(v)@ + self.spec_to_bytes());
    }
}

impl jbd_block_tag3 {
    /// The 16 bytes of the tag.
    pub open spec fn spec_to_bytes(&self) -> Seq<u8> {
        le32(self.blocknr) + le32(self.flags) + le32(self.blocknr_high) + le32(self.checksum)
    }

    /// Appends the bytes of the tag.
    pub fn push_bytes(&self, v: &mut Vec<u8>)
        ensures
            final(v)@ == old(v)@ + self.spec_to_bytes(),
    {
        push_u32_le(v, self.blocknr);
        push_u32_le(v, self.flags);
        push_u32_le(v, self.blocknr_high);
        push_u32_le(v, self.checksum);
        assert(v@ =~= old(v)@ + self.spec_to_bytes());
    }
}

impl jbd_commit_header {
    /// The 60 bytes of the commit header.
    pub open spec fn spec_to_bytes(&self) -> Seq<u8> {
        self.header.spec_to_bytes() + seq![self.chksum_type, self.chksum_size] + self.padding@
            + le32_seq(self.chksum@) + le32((self.commit_sec % 0x1_0000_0000) as u32) + le32(
            (self.commit_sec / 0x1_0000_0000) as u32,
        ) + le32(self.commit_nsec)
    }

    /// Encodes the commit header.
    pub fn to_bytes(&self) -> (v: Vec<u8>)
        ensures
            v@ == self.spec_to_bytes(),
            v@.len() == 60,
    {
        let mut v: Vec<u8> = Vec::new();
        self.header.push_bytes(&mut v);
        v.push(self.chksum_type);
        v.push(self.chksum_size);
        push_bytes(&mut v, &self.padding);
        push_u32_slice_le(&mut v, &self.chksum);
        let (lo, hi) = crate::bytes::split_u64(self.commit_sec);
        push_u32_le(&mut v, lo);
        push_u32_le(&mut v, hi);
        push_u32_le(&mut v, self.commit_nsec);
        proof {
            lemma_le32_seq_len(self.chksum@);
        }
        assert(v@ =~= self.spec_to_bytes());
        v
    }
}

impl jbd_revoke_header {
    /// The 16 bytes of the revoke header.
    pub open spec fn spec_to_bytes(&self) -> Seq<u8> {
        self.header.spec_to_bytes() + le32(self.count)
    }

    /// Appends the bytes of the revoke header.
    pub fn push_bytes(&self, v: &mut Vec<u8>)
        ensures
            final(v)@ == old(v)@ + self.spec_to_bytes(),
    {
        self.header.push_bytes(v);
        push_u32_le(v, self.count);
        assert(v@ =~= old(v)@ + self.spec_to_bytes());
    }
}

impl Default for jbd_sb {
    fn default() -> (r: Self)
        ensures
            r.header.magic == swap32(JBD_MAGIC_NUMBER),
            r.header.blocktype == swap32(JBD_SUPERBLOCK_V2),
            r.header.sequence == 0,
            r.blocksize == swap32(4096),
            r.maxlen == 0,
            r.first == 0,
            r.sequence == 0,
            r.start == 0,
            r.error_val == 0,
            r.feature_compat == 0,
            r.feature_incompat == 0,
            r.feature_ro_compat == 0,
            forall|i: int| 0 <= i < UUID_SIZE ==> r.uuid@[i] == 0,
            r.nr_users == 0,
            r.dynsuper == 0,
            r.max_transaction == 0,
            r.max_trandata == 0,
            r.checksum_type == 0,
            forall|i: int| 0 <= i < 3 ==> r.padding2@[i] == 0,
            forall|i: int| 0 <= i < 42 ==> r.padding@[i] == 0,
            r.checksum == 0,
            forall|i: int| 0 <= i < JBD_USERS_SIZE ==> r.users@[i] == 0,
    {
        jbd_sb {
            header: jbd_bhdr {
                magic: swap_bytes_u32(JBD_MAGIC_NUMBER),
                blocktype: swap_bytes_u32(JBD_SUPERBLOCK_V2),
                sequence: 0,
            },
            blocksize: swap_bytes_u32(4096),
            maxlen: 0,
            first: 0,
            sequence: 0,
            start: 0,
            error_val: 0,
            feature_compat: 0,
            feature_incompat: 0,
            feature_ro_compat: 0,
            uuid: [0u8; UUID_SIZE],
            nr_users: 0,
            dynsuper: 0,
            max_transaction: 0,
            max_trandata: 0,
            checksum_type: 0,
            padding2: [0u8; 3],
            padding: [0u32; 42],
            checksum: 0,
            users: [0u8; JBD_USERS_SIZE],
        }
    }
}

impl jbd_sb {
    /// The 1024 bytes of the superblock.
    pub open spec fn spec_to_bytes(&self) -> Seq<u8> {
        self.header.spec_to_bytes() + le32(self.blocksize) + le32(self.maxlen) + le32(self.first)
            + le32(self.sequence) + le32(self.start) + le32(self.error_val as u32) + le32(
            self.feature_compat,
        ) + le32(self.feature_incompat) + le32(self.feature_ro_compat) + self.uuid@ + le32(
            self.nr_users,
        ) + le32(self.dynsuper) + le32(self.max_transaction) + le32(self.max_trandata) + seq![
            self.checksum_type,
        ] + self.padding2@ + le32_seq(self.padding@) + le32(self.checksum) + self.users@
    }

    /// Encodes the superblock.
    pub fn to_bytes(&self) -> (v: Vec<u8>)
        ensures
            v@ == self.spec_to_bytes(),
            v@.len() == JBD_SUPERBLOCK_SIZE,
    {
        let mut v: Vec<u8> = Vec::new();
        self.header.push_bytes(&mut v);
        push_u32_le(&mut v, self.blocksize);
        push_u32_le(&mut v, self.maxlen);
        push_u32_le(&mut v, self.first);
        push_u32_le(&mut v, self.sequence);
        push_u32_le(&mut v, self.start);
        push_u32_le(&mut v, self.error_val as u32);
        push_u32_le(&mut v, self.feature_compat);
        push_u32_le(&mut v, self.feature_incompat);
        push_u32_le(&mut v, self.feature_ro_compat);
        push_bytes(&mut v, &self.uuid);
        push_u32_le(&mut v, self.nr_users);
        push_u32_le(&mut v, self.dynsuper);
        push_u32_le(&mut v, self.max_transaction);
        push_u32_le(&mut v, self.max_trandata);
        v.push(self.checksum_type);
        push_bytes(&mut v, &self.padding2);
        push_u32_slice_le(&mut v, &self.padding);
        push_u32_le(&mut v, self.checksum);
        push_bytes(&mut v, &self.users);
        proof {
            lemma_le32_seq_len(self.padding@);
        }
        assert(v@ =~= self.spec_to_bytes());
        v
    }

    /// Whether the superblock version has feature fields (type 2 or more).
    pub open spec fn spec_has_features(&self) -> bool {
        swap32(self.header.blocktype) >= 2
    }

    /// Whether the magic number is the JBD2 one.
    pub fn is_valid(&self) -> (r: bool)
        ensures
            r == (swap32(self.header.magic) == JBD_MAGIC_NUMBER),
    {
        swap_bytes_u32(self.header.magic) == JBD_MAGIC_NUMBER
    }

    /// Whether any bit of `feature` is a set compatible feature.
    pub fn has_compat_feature(&self, feature: u32) -> (r: bool)
        ensures
            r == (self.spec_has_features() && swap32(self.feature_compat) & feature != 0),
    {
        swap_bytes_u32(self.header.blocktype) >= 2 && (swap_bytes_u32(self.feature_compat) & feature)
            != 0
    }

    /// Whether any bit of `feature` is a set incompatible feature.
    pub open spec fn spec_has_incompat(&self, feature: u32) -> bool {
        self.spec_has_features() && swap32(self.feature_incompat) & feature != 0
    }

    /// Whether any bit of `feature` is a set incompatible feature.
    pub fn has_incompat_feature(&self, feature: u32) -> (r: bool)
        ensures
            r == self.spec_has_incompat(feature),
    {
        swap_bytes_u32(self.header.blocktype) >= 2 && (swap_bytes_u32(self.feature_incompat)
            & feature) != 0
    }

    /// Whether any bit of `feature` is a set read-only compatible feature.
    pub fn has_ro_compat_feature(&self, feature: u32) -> (r: bool)
        ensures
            r == (self.spec_has_features() && swap32(self.feature_ro_compat) & feature != 0),
    {
        swap_bytes_u32(self.header.blocktype) >= 2 && (swap_bytes_u32(self.feature_ro_compat)
            & feature) != 0
    }

    /// Checksum version: 3, 2, or 0 when neither is enabled.
    pub fn checksum_version(&self) -> (r: u8)
        ensures
            r == (if self.spec_has_incompat(JBD_FEATURE_INCOMPAT_CSUM_V3) {
                3u8
            } else if self.spec_has_incompat(JBD_FEATURE_INCOMPAT_CSUM_V2) {
                2u8
            } else {
                0u8
            }),
    {
        if self.has_incompat_feature(JBD_FEATURE_INCOMPAT_CSUM_V3) {
            3
        } else if self.has_incompat_feature(JBD_FEATURE_INCOMPAT_CSUM_V2) {
            2
        } else {
            0
        }
    }

    /// Whether block numbers are 64 bits wide.
    pub fn is_64bit(&self) -> (r: bool)
        ensures
            r == self.spec_has_incompat(JBD_FEATURE_INCOMPAT_64BIT),
    {
        self.has_incompat_feature(JBD_FEATURE_INCOMPAT_64BIT)
    }
}

} // verus!
