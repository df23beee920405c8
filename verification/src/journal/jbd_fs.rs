//! The journal of a filesystem: the journal inode number and the journal
//! superblock with its dirty flag.

use vstd::prelude::*;
use crate::bytes::{read_u32_le, swap32, swap_bytes_u32, u32_at};
use crate::consts::EXT4_FEATURE_COMPAT_HAS_JOURNAL;
use crate::error::{Error, ErrorKind, Result};
use crate::journal::types::{jbd_bhdr, jbd_sb, JBD_MAGIC_NUMBER, JBD_SUPERBLOCK_SIZE, JBD_USERS_SIZE, UUID_SIZE};
use crate::journal::JournalError;
use crate::superblock::Superblock;

verus! {

/// A filesystem's journal.
#[derive(Debug)]
pub struct JbdFs {
    /// Journal inode number.
    pub inode: u32,
    /// Journal superblock.
    pub sb: jbd_sb,
    /// Whether the superblock must be written back.
    pub dirty: bool,
}

/// Copies `data[off..off + N]` into an array.
fn read_bytes_16(data: &[u8], off: usize) -> (r: [u8; 16])
    requires
        off + 16 <= data@.len(),
    ensures
        r@ == data@.subrange(off as int, off + 16),
{
    let mut a = [0u8; 16];
    let mut i: usize = 0;
    let len = data.len();
    while i < 16
        invariant
            i <= 16,
            len == data@.len(),
            off + 16 <= data@.len(),
            forall|k: int| 0 <= k < i ==> a@[k] == data@[off + k],
        decreases 16 - i,
    {
        a[i] = data[off + i];
        i = i + 1;
    }
    assert(a@ =~= data@.subrange(off as int, off + 16));
    a
}

fn read_bytes_768(data: &[u8], off: usize) -> (r: [u8; 768])
    requires
        off + 768 <= data@.len(),
    ensures
        r@ == data@.subrange(off as int, off + 768),
{
    let mut a = [0u8; 768];
    let mut i: usize = 0;
    let len = data.len();
    while i < 768
        invariant
            i <= 768,
            len == data@.len(),
            off + 768 <= data@.len(),
            forall|k: int| 0 <= k < i ==> a@[k] == data@[off + k],
        decreases 768 - i,
    {
        a[i] = data[off + i];
        i = i + 1;
    }
    assert(a@ =~= data@.subrange(off as int, off + 768));
    a
}

fn read_words_42(data: &[u8], off: usize) -> (r: [u32; 42])
    requires
        off + 168 <= data@.len(),
    ensures
        forall|k: int| 0 <= k < 42 ==> r@[k] == u32_at(data@, off + 4 * k),
{
    let mut a = [0u32; 42];
    let mut i: usize = 0;
    let len = data.len();
    while i < 42
        invariant
            i <= 42,
            len == data@.len(),
            off + 168 <= data@.len(),
            forall|k: int| 0 <= k < i ==> a@[k] == u32_at(data@, off + 4 * k),
        decreases 42 - i,
    {
        a[i] = read_u32_le(data, off + 4 * i);
        i = i + 1;
    }
    a
}

/// The journal superblock stored in the first 1024 bytes of `s`.
pub open spec fn spec_sb_matches(sb: jbd_sb, s: Seq<u8>) -> bool {
    &&& sb.header.magic == u32_at(s, 0)
    &&& sb.header.blocktype == u32_at(s, 4)
    &&& sb.header.sequence == u32_at(s, 8)
    &&& sb.blocksize == u32_at(s, 12)
    &&& sb.maxlen == u32_at(s, 16)
    &&& sb.first == u32_at(s, 20)
    &&& sb.sequence == u32_at(s, 24)
    &&& sb.start == u32_at(s, 28)
    &&& sb.error_val == u32_at(s, 32) as i32
    &&& sb.feature_compat == u32_at(s, 36)
    &&& sb.feature_incompat == u32_at(s, 40)
    &&& sb.feature_ro_compat == u32_at(s, 44)
    &&& sb.uuid@ == s.subrange(48, 64)
    &&& sb.nr_users == u32_at(s, 64)
    &&& sb.dynsuper == u32_at(s, 68)
    &&& sb.max_transaction == u32_at(s, 72)
    &&& sb.max_trandata == u32_at(s, 76)
    &&& sb.checksum_type == s[80]
    &&& sb.padding2@ == s.subrange(81, 84)
    &&& forall|k: int| 0 <= k < 42 ==> sb.padding@[k] == u32_at(s, 84 + 4 * k)
    &&& sb.checksum == u32_at(s, 252)
    &&& sb.users@ == s.subrange(256, 1024)
}

/// Decodes the journal superblock at the start of `data`.
pub fn parse_jbd_sb(data: &[u8]) -> (r: jbd_sb)
    requires
        data@.len() >= JBD_SUPERBLOCK_SIZE,
    ensures
        spec_sb_matches(r, data@),
{
    let padding2_0 = data[81];
    let padding2_1 = data[82];
    let padding2_2 = data[83];
    let r = jbd_sb {
        header: jbd_bhdr {
            magic: read_u32_le(data, 0),
            blocktype: read_u32_le(data, 4),
            sequence: read_u32_le(data, 8),
        },
        blocksize: read_u32_le(data, 12),
        maxlen: read_u32_le(data, 16),
        first: read_u32_le(data, 20),
        sequence: read_u32_le(data, 24),
        start: read_u32_le(data, 28),
        error_val: read_u32_le(data, 32) as i32,
        feature_compat: read_u32_le(data, 36),
        feature_incompat: read_u32_le(data, 40),
        feature_ro_compat: read_u32_le(data, 44),
        uuid: read_bytes_16(data, 48),
        nr_users: read_u32_le(data, 64),
        dynsuper: read_u32_le(data, 68),
        max_transaction: read_u32_le(data, 72),
        max_trandata: read_u32_le(data, 76),
        checksum_type: data[80],
        padding2: [padding2_0, padding2_1, padding2_2],
        padding: read_words_42(data, 84),
        checksum: read_u32_le(data, 252),
        users: read_bytes_768(data, 256),
    };
    assert(r.padding2@ =~= data@.subrange(81, 84));
    r
}

impl JbdFs {
    /// Loads the journal of a filesystem from the first block of its
    /// journal inode: `NoJournalInode` (as `NotFound`) when the filesystem
    /// has no journal feature or no journal inode, `InvalidSuperblock` (as
    /// `Corrupted`) when the magic number is wrong.
    pub fn get(superblock: &Superblock, first_block: &[u8]) -> (r: Result<Self>)
        requires
            first_block@.len() >= JBD_SUPERBLOCK_SIZE,
        ensures
            (superblock@.feature_compat & EXT4_FEATURE_COMPAT_HAS_JOURNAL == 0
                || superblock@.journal_inum == 0) ==> (r matches Err(e) && e.spec_kind()
                == ErrorKind::NotFound),
            (superblock@.feature_compat & EXT4_FEATURE_COMPAT_HAS_JOURNAL != 0
                && superblock@.journal_inum != 0) ==> ({
                let magic = swap32(u32_at(first_block@, 0));
                if magic != JBD_MAGIC_NUMBER {
                    r matches Err(e) && e.spec_kind() == ErrorKind::Corrupted
                } else {
                    r matches Ok(j) && j.inode == superblock@.journal_inum && !j.dirty
                        && spec_sb_matches(j.sb, first_block@)
                }
            }),
    {
        if !superblock.has_compat_feature(EXT4_FEATURE_COMPAT_HAS_JOURNAL) {
            return Err(JournalError::NoJournalInode.to_error());
        }
        let journal_inum = superblock.inner().journal_inum;
        if journal_inum == 0 {
            return Err(JournalError::NoJournalInode.to_error());
        }
        let sb = parse_jbd_sb(first_block);
        if !sb.is_valid() {
            return Err(JournalError::InvalidSuperblock.to_error());
        }
        Ok(JbdFs { inode: journal_inum, sb, dirty: false })
    }

    /// When the superblock is dirty, clears the flag and returns the bytes
    /// to write at the start of the journal's first block.
    pub fn put(&mut self) -> (r: Option<Vec<u8>>)
        ensures
            old(self).dirty ==> (r matches Some(v) && v@ == old(self).sb.spec_to_bytes()),
            !old(self).dirty ==> r is None,
            final(self).inode == old(self).inode,
            final(self).sb == old(self).sb,
            !final(self).dirty,
    {
        if self.dirty {
            let bytes = self.sb.to_bytes();
            self.dirty = false;
            Some(bytes)
        } else {
            None
        }
    }

    /// Journal inode number.
    pub fn inode(&self) -> (r: u32)
        ensures
            r == self.inode,
    {
        self.inode
    }

    /// The journal superblock.
    pub fn sb(&self) -> (r: &jbd_sb)
        ensures
            *r == self.sb,
    {
        &self.sb
    }

    /// The journal superblock, for changes; marks it dirty.
    pub fn sb_mut(&mut self) -> (r: &mut jbd_sb)
        ensures
            *r == old(self).sb,
            final(self).sb == *final(r),
            final(self).dirty,
            final(self).inode == old(self).inode,
    {
        self.dirty = true;
        &mut self.sb
    }

    /// Marks the superblock dirty.
    pub fn mark_dirty(&mut self)
        ensures
            *final(self) == (JbdFs { dirty: true, ..*old(self) }),
    {
        self.dirty = true;
    }

    /// Whether the superblock must be written back.
    pub fn is_dirty(&self) -> (r: bool)
        ensures
            r == self.dirty,
    {
        self.dirty
    }

    /// Journal block size.
    pub fn block_size(&self) -> (r: u32)
        ensures
            r == swap32(self.sb.blocksize),
    {
        swap_bytes_u32(self.sb.blocksize)
    }

    /// Blocks in the journal.
    pub fn max_len(&self) -> (r: u32)
        ensures
            r == swap32(self.sb.maxlen),
    {
        swap_bytes_u32(self.sb.maxlen)
    }

    /// First log block.
    pub fn first(&self) -> (r: u32)
        ensures
            r == swap32(self.sb.first),
    {
        swap_bytes_u32(self.sb.first)
    }

    /// Start of the log.
    pub fn start(&self) -> (r: u32)
        ensures
            r == swap32(self.sb.start),
    {
        swap_bytes_u32(self.sb.start)
    }

    /// Sets the start of the log and marks the superblock dirty.
    pub fn set_start(&mut self, start: u32)
        ensures
            final(self).sb == (jbd_sb { start: swap32(start), ..old(self).sb }),
            swap32(final(self).sb.start) == start,
            final(self).dirty,
            final(self).inode == old(self).inode,
    {
        self.sb.start = swap_bytes_u32(start);
        self.dirty = true;
        proof {
            crate::bytes::lemma_swap32_involution(start);
        }
    }

    /// Sequence number of the first expected commit.
    pub fn sequence(&self) -> (r: u32)
        ensures
            r == swap32(self.sb.sequence),
    {
        swap_bytes_u32(self.sb.sequence)
    }

    /// Sets the sequence number and marks the superblock dirty.
    pub fn set_sequence(&mut self, seq: u32)
        ensures
            final(self).sb == (jbd_sb { sequence: swap32(seq), ..old(self).sb }),
            swap32(final(self).sb.sequence) == seq,
            final(self).dirty,
            final(self).inode == old(self).inode,
    {
        self.sb.sequence = swap_bytes_u32(seq);
        self.dirty = true;
        proof {
            crate::bytes::lemma_swap32_involution(seq);
        }
    }

    /// Whether any bit of `feature` is a set compatible feature.
    pub fn has_compat_feature(&self, feature: u32) -> (r: bool)
        ensures
            r == (self.sb.spec_has_features() && swap32(self.sb.feature_compat) & feature != 0),
    {
        self.sb.has_compat_feature(feature)
    }

    /// Whether any bit of `feature` is a set incompatible feature.
    pub fn has_incompat_feature(&self, feature: u32) -> (r: bool)
        ensures
            r == self.sb.spec_has_incompat(feature),
    {
        self.sb.has_incompat_feature(feature)
    }

    /// Whether any bit of `feature` is a set read-only compatible feature.
    pub fn has_ro_compat_feature(&self, feature: u32) -> (r: bool)
        ensures
            r == (self.sb.spec_has_features() && swap32(self.sb.feature_ro_compat) & feature != 0),
    {
        self.sb.has_ro_compat_feature(feature)
    }
}

} // verus!
