//! Decoding the 1024-byte disk superblock into its fields.

use vstd::prelude::*;
use crate::bytes::{
    le16, le32, le32_seq, le64, lemma_le32_seq_len, lemma_u16_roundtrip, lemma_u32_roundtrip,
    lemma_u64_roundtrip, read_u16_le, read_u32_le, read_u64_le, u16_at, u32_at, u64_at,
};
use crate::types::ext4_sblock;

verus! {

/// Encoding the `u16` read at `i` gives back the bytes there.
pub proof fn lemma_le16_of_bytes(s: Seq<u8>, i: int)
    requires
        0 <= i,
        i + 2 <= s.len(),
    ensures
        le16(u16_at(s, i)) == s.subrange(i, i + 2),
{
    let b0 = s[i];
    let b1 = s[i + 1];
    let x = u16_at(s, i);
    assert((x & 0xff) as u8 == b0 && (x >> 8u16) as u8 == b1) by (bit_vector)
        requires
            x == ((b0 as u16) | ((b1 as u16) << 8u16)),
    ;
    assert(le16(x) =~= s.subrange(i, i + 2));
}

/// Encoding the `u32` read at `i` gives back the bytes there.
pub proof fn lemma_le32_of_bytes(s: Seq<u8>, i: int)
    requires
        0 <= i,
        i + 4 <= s.len(),
    ensures
        le32(u32_at(s, i)) == s.subrange(i, i + 4),
{
    let b0 = s[i];
    let b1 = s[i + 1];
    let b2 = s[i + 2];
    let b3 = s[i + 3];
    let x = u32_at(s, i);
    assert((x & 0xff) as u8 == b0 && ((x >> 8u32) & 0xff) as u8 == b1 && ((x >> 16u32) & 0xff) as u8
        == b2 && (x >> 24u32) as u8 == b3) by (bit_vector)
        requires
            x == ((b0 as u32) | ((b1 as u32) << 8u32) | ((b2 as u32) << 16u32) | ((b3 as u32) << 24u32)),
    ;
    assert(le32(x) =~= s.subrange(i, i + 4));
}

/// Encoding the `u64` read at `i` gives back the bytes there.
pub proof fn lemma_le64_of_bytes(s: Seq<u8>, i: int)
    requires
        0 <= i,
        i + 8 <= s.len(),
    ensures
        le64(u64_at(s, i)) == s.subrange(i, i + 8),
{
    let lo = u32_at(s, i);
    let hi = u32_at(s, i + 4);
    let x = u64_at(s, i);
    assert((x & 0xffff_ffff) as u32 == lo && (x >> 32u64) as u32 == hi) by (bit_vector)
        requires
            x == ((lo as u64) | ((hi as u64) << 32u64)),
    ;
    lemma_le32_of_bytes(s, i);
    lemma_le32_of_bytes(s, i + 4);
    assert(le64(x) =~= s.subrange(i, i + 8));
}

/// Encoding the words read from `off` on gives back the bytes there.
pub proof fn lemma_le32_seq_of_words(words: Seq<u32>, s: Seq<u8>, off: int)
    requires
        0 <= off,
        off + 4 * words.len() <= s.len(),
        forall|k: int| 0 <= k < words.len() ==> words[k] == u32_at(s, off + 4 * k),
    ensures
        le32_seq(words) == s.subrange(off, off + 4 * words.len()),
    decreases words.len(),
{
    if words.len() == 0 {
        assert(le32_seq(words) =~= s.subrange(off, off));
    } else {
        let n = words.len() - 1;
        lemma_le32_seq_of_words(words.drop_last(), s, off);
        lemma_le32_of_bytes(s, off + 4 * n);
        assert(le32_seq(words) =~= s.subrange(off, off + 4 * words.len()));
    }
}

fn rd16(data: &[u8], off: usize) -> (r: u16)
    requires
        off + 2 <= data@.len(),
    ensures
        le16(r) == data@.subrange(off as int, off + 2),
{
    proof {
        lemma_le16_of_bytes(data@, off as int);
    }
    read_u16_le(data, off)
}

fn rd32(data: &[u8], off: usize) -> (r: u32)
    requires
        off + 4 <= data@.len(),
    ensures
        le32(r) == data@.subrange(off as int, off + 4),
{
    proof {
        lemma_le32_of_bytes(data@, off as int);
    }
    read_u32_le(data, off)
}

fn rd64(data: &[u8], off: usize) -> (r: u64)
    requires
        off + 8 <= data@.len(),
    ensures
        le64(r) == data@.subrange(off as int, off + 8),
{
    proof {
        lemma_le64_of_bytes(data@, off as int);
    }
    read_u64_le(data, off)
}

/// Copies `data[off..off + N]` into `a`.
fn fill_bytes<const N: usize>(a: &mut [u8; N], data: &[u8], off: usize)
    requires
        off + N <= data@.len(),
    ensures
        final(a)@ == data@.subrange(off as int, off + N),
{
    let len = data.len();
    let mut i: usize = 0;
    while i < N
        invariant
            i <= N,
            len == data@.len(),
            off + N <= data@.len(),
            a@.len() == N,
            forall|k: int| 0 <= k < i ==> a@[k] == data@[off + k],
        decreases N - i,
    {
        a[i] = data[off + i];
        i = i + 1;
    }
    assert(a@ =~= data@.subrange(off as int, off + N));
}

/// Reads `N` little-endian words from `off` on into `a`.
fn fill_words<const N: usize>(a: &mut [u32; N], data: &[u8], off: usize)
    requires
        off + 4 * N <= data@.len(),
    ensures
        le32_seq(final(a)@) == data@.subrange(off as int, off + 4 * N),
{
    let len = data.len();
    let mut i: usize = 0;
    while i < N
        invariant
            i <= N,
            len == data@.len(),
            off + 4 * N <= data@.len(),
            a@.len() == N,
            forall|k: int| 0 <= k < i ==> a@[k] == u32_at(data@, off + 4 * k),
        decreases N - i,
    {
        a[i] = read_u32_le(data, off + 4 * i);
        i = i + 1;
    }
    proof {
        lemma_le32_seq_of_words(a@, data@, off as int);
    }
}

/// The eight parts and the checksum, each equal to its range of `d`,
/// make up the first 1024 bytes of `d`.
#[verifier::spinoff_prover]
proof fn lemma_assemble(sb: ext4_sblock, d: Seq<u8>)
    requires
        d.len() >= 1024,
        sb.spec_bytes_part0() == d.subrange(0, 48),
        sb.spec_bytes_part1() == d.subrange(48, 82),
        sb.spec_bytes_part2() == d.subrange(82, 205),
        sb.spec_bytes_part3() == d.subrange(205, 264),
        sb.spec_bytes_part4() == d.subrange(264, 372),
        sb.spec_bytes_part5() == d.subrange(372, 424),
        sb.spec_bytes_part6() == d.subrange(424, 596),
        sb.spec_bytes_part7() == d.subrange(596, 1020),
        le32(sb.checksum) == d.subrange(1020, 1024),
    ensures
        sb.spec_to_bytes() == d.take(1024),
{
    assert(d.subrange(0, 48) + d.subrange(48, 82) =~= d.subrange(0, 82));
    assert(d.subrange(0, 82) + d.subrange(82, 205) =~= d.subrange(0, 205));
    assert(d.subrange(0, 205) + d.subrange(205, 264) =~= d.subrange(0, 264));
    assert(d.subrange(0, 264) + d.subrange(264, 372) =~= d.subrange(0, 372));
    assert(d.subrange(0, 372) + d.subrange(372, 424) =~= d.subrange(0, 424));
    assert(d.subrange(0, 424) + d.subrange(424, 596) =~= d.subrange(0, 596));
    assert(d.subrange(0, 596) + d.subrange(596, 1020) =~= d.subrange(0, 1020));
    assert(sb.spec_body_bytes() == d.subrange(0, 1020));
    assert(d.subrange(0, 1020) + d.subrange(1020, 1024) =~= d.take(1024));
}

/// Equal encodings of two word sequences of one length come from equal
/// words.
proof fn lemma_le32_seq_injective(x: Seq<u32>, y: Seq<u32>)
    requires
        x.len() == y.len(),
        le32_seq(x) == le32_seq(y),
    ensures
        x == y,
    decreases x.len(),
{
    if x.len() > 0 {
        let n = x.len() - 1;
        lemma_le32_seq_len(x.drop_last());
        lemma_le32_seq_len(y.drop_last());
        assert(le32_seq(x).subrange(0, 4 * n) =~= le32_seq(x.drop_last()));
        assert(le32_seq(y).subrange(0, 4 * n) =~= le32_seq(y.drop_last()));
        assert(le32_seq(x).subrange(4 * n, 4 * n + 4) =~= le32(x.last()));
        assert(le32_seq(y).subrange(4 * n, 4 * n + 4) =~= le32(y.last()));
        lemma_le32_seq_injective(x.drop_last(), y.drop_last());
        assert(le32(x.last()) == le32(y.last()));
        lemma_u32_roundtrip(x.last());
        lemma_u32_roundtrip(y.last());
        assert(x.last() == y.last());
        assert(x.drop_last() == y.drop_last());
        assert forall|i: int| 0 <= i < x.len() implies x[i] == y[i] by {
            if i < n {
                assert(x[i] == x.drop_last()[i]);
                assert(y[i] == y.drop_last()[i]);
            }
        }
        assert(x =~= y);
    } else {
        assert(x =~= y);
    }
}

/// Equal encodings of bytes 0 to 48 come from equal fields.
#[verifier::spinoff_prover]
proof fn lemma_part0_injective(a: ext4_sblock, b: ext4_sblock)
    requires
        a.spec_bytes_part0() == b.spec_bytes_part0(),
    ensures
        a.inodes_count == b.inodes_count,
        a.blocks_count_lo == b.blocks_count_lo,
        a.r_blocks_count_lo == b.r_blocks_count_lo,
        a.free_blocks_count_lo == b.free_blocks_count_lo,
        a.free_inodes_count == b.free_inodes_count,
        a.first_data_block == b.first_data_block,
        a.log_block_size == b.log_block_size,
        a.log_cluster_size == b.log_cluster_size,
        a.blocks_per_group == b.blocks_per_group,
        a.clusters_per_group == b.clusters_per_group,
        a.inodes_per_group == b.inodes_per_group,
        a.mtime == b.mtime,
{
    assert(a.spec_bytes_part0().subrange(0, 4) =~= le32(a.inodes_count));
    assert(b.spec_bytes_part0().subrange(0, 4) =~= le32(b.inodes_count));
    lemma_u32_roundtrip(a.inodes_count);
    lemma_u32_roundtrip(b.inodes_count);
    assert(a.inodes_count == b.inodes_count);
    assert(a.spec_bytes_part0().subrange(4, 8) =~= le32(a.blocks_count_lo));
    assert(b.spec_bytes_part0().subrange(4, 8) =~= le32(b.blocks_count_lo));
    lemma_u32_roundtrip(a.blocks_count_lo);
    lemma_u32_roundtrip(b.blocks_count_lo);
    assert(a.blocks_count_lo == b.blocks_count_lo);
    assert(a.spec_bytes_part0().subrange(8, 12) =~= le32(a.r_blocks_count_lo));
    assert(b.spec_bytes_part0().subrange(8, 12) =~= le32(b.r_blocks_count_lo));
    lemma_u32_roundtrip(a.r_blocks_count_lo);
    lemma_u32_roundtrip(b.r_blocks_count_lo);
    assert(a.r_blocks_count_lo == b.r_blocks_count_lo);
    assert(a.spec_bytes_part0().subrange(12, 16) =~= le32(a.free_blocks_count_lo));
    assert(b.spec_bytes_part0().subrange(12, 16) =~= le32(b.free_blocks_count_lo));
    lemma_u32_roundtrip(a.free_blocks_count_lo);
    lemma_u32_roundtrip(b.free_blocks_count_lo);
    assert(a.free_blocks_count_lo == b.free_blocks_count_lo);
    assert(a.spec_bytes_part0().subrange(16, 20) =~= le32(a.free_inodes_count));
    assert(b.spec_bytes_part0().subrange(16, 20) =~= le32(b.free_inodes_count));
    lemma_u32_roundtrip(a.free_inodes_count);
    lemma_u32_roundtrip(b.free_inodes_count);
    assert(a.free_inodes_count == b.free_inodes_count);
    assert(a.spec_bytes_part0().subrange(20, 24) =~= le32(a.first_data_block));
    assert(b.spec_bytes_part0().subrange(20, 24) =~= le32(b.first_data_block));
    lemma_u32_roundtrip(a.first_data_block);
    lemma_u32_roundtrip(b.first_data_block);
    assert(a.first_data_block == b.first_data_block);
    assert(a.spec_bytes_part0().subrange(24, 28) =~= le32(a.log_block_size));
    assert(b.spec_bytes_part0().subrange(24, 28) =~= le32(b.log_block_size));
    lemma_u32_roundtrip(a.log_block_size);
    lemma_u32_roundtrip(b.log_block_size);
    assert(a.log_block_size == b.log_block_size);
    assert(a.spec_bytes_part0().subrange(28, 32) =~= le32(a.log_cluster_size));
    assert(b.spec_bytes_part0().subrange(28, 32) =~= le32(b.log_cluster_size));
    lemma_u32_roundtrip(a.log_cluster_size);
    lemma_u32_roundtrip(b.log_cluster_size);
    assert(a.log_cluster_size == b.log_cluster_size);
    assert(a.spec_bytes_part0().subrange(32, 36) =~= le32(a.blocks_per_group));
    assert(b.spec_bytes_part0().subrange(32, 36) =~= le32(b.blocks_per_group));
    lemma_u32_roundtrip(a.blocks_per_group);
    lemma_u32_roundtrip(b.blocks_per_group);
    assert(a.blocks_per_group == b.blocks_per_group);
    assert(a.spec_bytes_part0().subrange(36, 40) =~= le32(a.clusters_per_group));
    assert(b.spec_bytes_part0().subrange(36, 40) =~= le32(b.clusters_per_group));
    lemma_u32_roundtrip(a.clusters_per_group);
    lemma_u32_roundtrip(b.clusters_per_group);
    assert(a.clusters_per_group == b.clusters_per_group);
    assert(a.spec_bytes_part0().subrange(40, 44) =~= le32(a.inodes_per_group));
    assert(b.spec_bytes_part0().subrange(40, 44) =~= le32(b.inodes_per_group));
    lemma_u32_roundtrip(a.inodes_per_group);
    lemma_u32_roundtrip(b.inodes_per_group);
    assert(a.inodes_per_group == b.inodes_per_group);
    assert(a.spec_bytes_part0().subrange(44, 48) =~= le32(a.mtime));
    assert(b.spec_bytes_part0().subrange(44, 48) =~= le32(b.mtime));
    lemma_u32_roundtrip(a.mtime);
    lemma_u32_roundtrip(b.mtime);
    assert(a.mtime == b.mtime);
}

/// Equal encodings of bytes 48 to 82 come from equal fields.
#[verifier::spinoff_prover]
proof fn lemma_part1_injective(a: ext4_sblock, b: ext4_sblock)
    requires
        a.spec_bytes_part1() == b.spec_bytes_part1(),
    ensures
        a.wtime == b.wtime,
        a.mnt_count == b.mnt_count,
        a.max_mnt_count == b.max_mnt_count,
        a.magic == b.magic,
        a.state == b.state,
        a.errors == b.errors,
        a.minor_rev_level == b.minor_rev_level,
        a.lastcheck == b.lastcheck,
        a.checkinterval == b.checkinterval,
        a.creator_os == b.creator_os,
        a.rev_level == b.rev_level,
        a.def_resuid == b.def_resuid,
{
    assert(a.spec_bytes_part1().subrange(0, 4) =~= le32(a.wtime));
    assert(b.spec_bytes_part1().subrange(0, 4) =~= le32(b.wtime));
    lemma_u32_roundtrip(a.wtime);
    lemma_u32_roundtrip(b.wtime);
    assert(a.wtime == b.wtime);
    assert(a.spec_bytes_part1().subrange(4, 6) =~= le16(a.mnt_count));
    assert(b.spec_bytes_part1().subrange(4, 6) =~= le16(b.mnt_count));
    lemma_u16_roundtrip(a.mnt_count);
    lemma_u16_roundtrip(b.mnt_count);
    assert(a.mnt_count == b.mnt_count);
    assert(a.spec_bytes_part1().subrange(6, 8) =~= le16(a.max_mnt_count));
    assert(b.spec_bytes_part1().subrange(6, 8) =~= le16(b.max_mnt_count));
    lemma_u16_roundtrip(a.max_mnt_count);
    lemma_u16_roundtrip(b.max_mnt_count);
    assert(a.max_mnt_count == b.max_mnt_count);
    assert(a.spec_bytes_part1().subrange(8, 10) =~= le16(a.magic));
    assert(b.spec_bytes_part1().subrange(8, 10) =~= le16(b.magic));
    lemma_u16_roundtrip(a.magic);
    lemma_u16_roundtrip(b.magic);
    assert(a.magic == b.magic);
    assert(a.spec_bytes_part1().subrange(10, 12) =~= le16(a.state));
    assert(b.spec_bytes_part1().subrange(10, 12) =~= le16(b.state));
    lemma_u16_roundtrip(a.state);
    lemma_u16_roundtrip(b.state);
    assert(a.state == b.state);
    assert(a.spec_bytes_part1().subrange(12, 14) =~= le16(a.errors));
    assert(b.spec_bytes_part1().subrange(12, 14) =~= le16(b.errors));
    lemma_u16_roundtrip(a.errors);
    lemma_u16_roundtrip(b.errors);
    assert(a.errors == b.errors);
    assert(a.spec_bytes_part1().subrange(14, 16) =~= le16(a.minor_rev_level));
    assert(b.spec_bytes_part1().subrange(14, 16) =~= le16(b.minor_rev_level));
    lemma_u16_roundtrip(a.minor_rev_level);
    lemma_u16_roundtrip(b.minor_rev_level);
    assert(a.minor_rev_level == b.minor_rev_level);
    assert(a.spec_bytes_part1().subrange(16, 20) =~= le32(a.lastcheck));
    assert(b.spec_bytes_part1().subrange(16, 20) =~= le32(b.lastcheck));
    lemma_u32_roundtrip(a.lastcheck);
    lemma_u32_roundtrip(b.lastcheck);
    assert(a.lastcheck == b.lastcheck);
    assert(a.spec_bytes_part1().subrange(20, 24) =~= le32(a.checkinterval));
    assert(b.spec_bytes_part1().subrange(20, 24) =~= le32(b.checkinterval));
    lemma_u32_roundtrip(a.checkinterval);
    lemma_u32_roundtrip(b.checkinterval);
    assert(a.checkinterval == b.checkinterval);
    assert(a.spec_bytes_part1().subrange(24, 28) =~= le32(a.creator_os));
    assert(b.spec_bytes_part1().subrange(24, 28) =~= le32(b.creator_os));
    lemma_u32_roundtrip(a.creator_os);
    lemma_u32_roundtrip(b.creator_os);
    assert(a.creator_os == b.creator_os);
    assert(a.spec_bytes_part1().subrange(28, 32) =~= le32(a.rev_level));
    assert(b.spec_bytes_part1().subrange(28, 32) =~= le32(b.rev_level));
    lemma_u32_roundtrip(a.rev_level);
    lemma_u32_roundtrip(b.rev_level);
    assert(a.rev_level == b.rev_level);
    assert(a.spec_bytes_part1().subrange(32, 34) =~= le16(a.def_resuid));
    assert(b.spec_bytes_part1().subrange(32, 34) =~= le16(b.def_resuid));
    lemma_u16_roundtrip(a.def_resuid);
    lemma_u16_roundtrip(b.def_resuid);
    assert(a.def_resuid == b.def_resuid);
}

/// Equal encodings of bytes 82 to 205 come from equal fields.
#[verifier::spinoff_prover]
proof fn lemma_part2_injective(a: ext4_sblock, b: ext4_sblock)
    requires
        a.spec_bytes_part2() == b.spec_bytes_part2(),
    ensures
        a.def_resgid == b.def_resgid,
        a.first_ino == b.first_ino,
        a.inode_size == b.inode_size,
        a.block_group_nr == b.block_group_nr,
        a.feature_compat == b.feature_compat,
        a.feature_incompat == b.feature_incompat,
        a.feature_ro_compat == b.feature_ro_compat,
        a.uuid == b.uuid,
        a.volume_name == b.volume_name,
        a.last_mounted == b.last_mounted,
        a.algorithm_usage_bitmap == b.algorithm_usage_bitmap,
        a.prealloc_blocks == b.prealloc_blocks,
{
    assert(a.spec_bytes_part2().subrange(0, 2) =~= le16(a.def_resgid));
    assert(b.spec_bytes_part2().subrange(0, 2) =~= le16(b.def_resgid));
    lemma_u16_roundtrip(a.def_resgid);
    lemma_u16_roundtrip(b.def_resgid);
    assert(a.def_resgid == b.def_resgid);
    assert(a.spec_bytes_part2().subrange(2, 6) =~= le32(a.first_ino));
    assert(b.spec_bytes_part2().subrange(2, 6) =~= le32(b.first_ino));
    lemma_u32_roundtrip(a.first_ino);
    lemma_u32_roundtrip(b.first_ino);
    assert(a.first_ino == b.first_ino);
    assert(a.spec_bytes_part2().subrange(6, 8) =~= le16(a.inode_size));
    assert(b.spec_bytes_part2().subrange(6, 8) =~= le16(b.inode_size));
    lemma_u16_roundtrip(a.inode_size);
    lemma_u16_roundtrip(b.inode_size);
    assert(a.inode_size == b.inode_size);
    assert(a.spec_bytes_part2().subrange(8, 10) =~= le16(a.block_group_nr));
    assert(b.spec_bytes_part2().subrange(8, 10) =~= le16(b.block_group_nr));
    lemma_u16_roundtrip(a.block_group_nr);
    lemma_u16_roundtrip(b.block_group_nr);
    assert(a.block_group_nr == b.block_group_nr);
    assert(a.spec_bytes_part2().subrange(10, 14) =~= le32(a.feature_compat));
    assert(b.spec_bytes_part2().subrange(10, 14) =~= le32(b.feature_compat));
    lemma_u32_roundtrip(a.feature_compat);
    lemma_u32_roundtrip(b.feature_compat);
    assert(a.feature_compat == b.feature_compat);
    assert(a.spec_bytes_part2().subrange(14, 18) =~= le32(a.feature_incompat));
    assert(b.spec_bytes_part2().subrange(14, 18) =~= le32(b.feature_incompat));
    lemma_u32_roundtrip(a.feature_incompat);
    lemma_u32_roundtrip(b.feature_incompat);
    assert(a.feature_incompat == b.feature_incompat);
    assert(a.spec_bytes_part2().subrange(18, 22) =~= le32(a.feature_ro_compat));
    assert(b.spec_bytes_part2().subrange(18, 22) =~= le32(b.feature_ro_compat));
    lemma_u32_roundtrip(a.feature_ro_compat);
    lemma_u32_roundtrip(b.feature_ro_compat);
    assert(a.feature_ro_compat == b.feature_ro_compat);
    assert(a.spec_bytes_part2().subrange(22, 38) =~= a.uuid@);
    assert(b.spec_bytes_part2().subrange(22, 38) =~= b.uuid@);
    assert(a.uuid =~= b.uuid);
    assert(a.uuid == b.uuid);
    assert(a.spec_bytes_part2().subrange(38, 54) =~= a.volume_name@);
    assert(b.spec_bytes_part2().subrange(38, 54) =~= b.volume_name@);
    assert(a.volume_name =~= b.volume_name);
    assert(a.volume_name == b.volume_name);
    assert(a.spec_bytes_part2().subrange(54, 118) =~= a.last_mounted@);
    assert(b.spec_bytes_part2().subrange(54, 118) =~= b.last_mounted@);
    assert(a.last_mounted =~= b.last_mounted);
    assert(a.last_mounted == b.last_mounted);
    assert(a.spec_bytes_part2().subrange(118, 122) =~= le32(a.algorithm_usage_bitmap));
    assert(b.spec_bytes_part2().subrange(118, 122) =~= le32(b.algorithm_usage_bitmap));
    lemma_u32_roundtrip(a.algorithm_usage_bitmap);
    lemma_u32_roundtrip(b.algorithm_usage_bitmap);
    assert(a.algorithm_usage_bitmap == b.algorithm_usage_bitmap);
    assert(a.spec_bytes_part2().subrange(122, 123) =~= seq![a.prealloc_blocks]);
    assert(b.spec_bytes_part2().subrange(122, 123) =~= seq![b.prealloc_blocks]);
    assert(seq![a.prealloc_blocks][0] == seq![b.prealloc_blocks][0]);
    assert(a.prealloc_blocks == b.prealloc_blocks);
}

/// Equal encodings of bytes 205 to 264 come from equal fields.
#[verifier::spinoff_prover]
proof fn lemma_part3_injective(a: ext4_sblock, b: ext4_sblock)
    requires
        a.spec_bytes_part3() == b.spec_bytes_part3(),
    ensures
        a.prealloc_dir_blocks == b.prealloc_dir_blocks,
        a.reserved_gdt_blocks == b.reserved_gdt_blocks,
        a.journal_uuid == b.journal_uuid,
        a.journal_inum == b.journal_inum,
        a.journal_dev == b.journal_dev,
        a.last_orphan == b.last_orphan,
        a.hash_seed == b.hash_seed,
        a.def_hash_version == b.def_hash_version,
        a.jnl_backup_type == b.jnl_backup_type,
        a.desc_size == b.desc_size,
        a.default_mount_opts == b.default_mount_opts,
        a.first_meta_bg == b.first_meta_bg,
{
    lemma_le32_seq_len(a.hash_seed@);
    lemma_le32_seq_len(b.hash_seed@);
    assert(a.spec_bytes_part3().subrange(0, 1) =~= seq![a.prealloc_dir_blocks]);
    assert(b.spec_bytes_part3().subrange(0, 1) =~= seq![b.prealloc_dir_blocks]);
    assert(seq![a.prealloc_dir_blocks][0] == seq![b.prealloc_dir_blocks][0]);
    assert(a.prealloc_dir_blocks == b.prealloc_dir_blocks);
    assert(a.spec_bytes_part3().subrange(1, 3) =~= le16(a.reserved_gdt_blocks));
    assert(b.spec_bytes_part3().subrange(1, 3) =~= le16(b.reserved_gdt_blocks));
    lemma_u16_roundtrip(a.reserved_gdt_blocks);
    lemma_u16_roundtrip(b.reserved_gdt_blocks);
    assert(a.reserved_gdt_blocks == b.reserved_gdt_blocks);
    assert(a.spec_bytes_part3().subrange(3, 19) =~= a.journal_uuid@);
    assert(b.spec_bytes_part3().subrange(3, 19) =~= b.journal_uuid@);
    assert(a.journal_uuid =~= b.journal_uuid);
    assert(a.journal_uuid == b.journal_uuid);
    assert(a.spec_bytes_part3().subrange(19, 23) =~= le32(a.journal_inum));
    assert(b.spec_bytes_part3().subrange(19, 23) =~= le32(b.journal_inum));
    lemma_u32_roundtrip(a.journal_inum);
    lemma_u32_roundtrip(b.journal_inum);
    assert(a.journal_inum == b.journal_inum);
    assert(a.spec_bytes_part3().subrange(23, 27) =~= le32(a.journal_dev));
    assert(b.spec_bytes_part3().subrange(23, 27) =~= le32(b.journal_dev));
    lemma_u32_roundtrip(a.journal_dev);
    lemma_u32_roundtrip(b.journal_dev);
    assert(a.journal_dev == b.journal_dev);
    assert(a.spec_bytes_part3().subrange(27, 31) =~= le32(a.last_orphan));
    assert(b.spec_bytes_part3().subrange(27, 31) =~= le32(b.last_orphan));
    lemma_u32_roundtrip(a.last_orphan);
    lemma_u32_roundtrip(b.last_orphan);
    assert(a.last_orphan == b.last_orphan);
    assert(a.spec_bytes_part3().subrange(31, 47) =~= le32_seq(a.hash_seed@));
    assert(b.spec_bytes_part3().subrange(31, 47) =~= le32_seq(b.hash_seed@));
    lemma_le32_seq_injective(a.hash_seed@, b.hash_seed@);
    assert(a.hash_seed =~= b.hash_seed);
    assert(a.hash_seed == b.hash_seed);
    assert(a.spec_bytes_part3().subrange(47, 48) =~= seq![a.def_hash_version]);
    assert(b.spec_bytes_part3().subrange(47, 48) =~= seq![b.def_hash_version]);
    assert(seq![a.def_hash_version][0] == seq![b.def_hash_version][0]);
    assert(a.def_hash_version == b.def_hash_version);
    assert(a.spec_bytes_part3().subrange(48, 49) =~= seq![a.jnl_backup_type]);
    assert(b.spec_bytes_part3().subrange(48, 49) =~= seq![b.jnl_backup_type]);
    assert(seq![a.jnl_backup_type][0] == seq![b.jnl_backup_type][0]);
    assert(a.jnl_backup_type == b.jnl_backup_type);
    assert(a.spec_bytes_part3().subrange(49, 51) =~= le16(a.desc_size));
    assert(b.spec_bytes_part3().subrange(49, 51) =~= le16(b.desc_size));
    lemma_u16_roundtrip(a.desc_size);
    lemma_u16_roundtrip(b.desc_size);
    assert(a.desc_size == b.desc_size);
    assert(a.spec_bytes_part3().subrange(51, 55) =~= le32(a.default_mount_opts));
    assert(b.spec_bytes_part3().subrange(51, 55) =~= le32(b.default_mount_opts));
    lemma_u32_roundtrip(a.default_mount_opts);
    lemma_u32_roundtrip(b.default_mount_opts);
    assert(a.default_mount_opts == b.default_mount_opts);
    assert(a.spec_bytes_part3().subrange(55, 59) =~= le32(a.first_meta_bg));
    assert(b.spec_bytes_part3().subrange(55, 59) =~= le32(b.first_meta_bg));
    lemma_u32_roundtrip(a.first_meta_bg);
    lemma_u32_roundtrip(b.first_meta_bg);
    assert(a.first_meta_bg == b.first_meta_bg);
}

/// Equal encodings of bytes 264 to 372 come from equal fields.
#[verifier::spinoff_prover]
proof fn lemma_part4_injective(a: ext4_sblock, b: ext4_sblock)
    requires
        a.spec_bytes_part4() == b.spec_bytes_part4(),
    ensures
        a.mkfs_time == b.mkfs_time,
        a.jnl_blocks == b.jnl_blocks,
        a.blocks_count_hi == b.blocks_count_hi,
        a.r_blocks_count_hi == b.r_blocks_count_hi,
        a.free_blocks_count_hi == b.free_blocks_count_hi,
        a.min_extra_isize == b.min_extra_isize,
        a.want_extra_isize == b.want_extra_isize,
        a.flags == b.flags,
        a.raid_stride == b.raid_stride,
        a.mmp_interval == b.mmp_interval,
        a.mmp_block == b.mmp_block,
        a.raid_stripe_width == b.raid_stripe_width,
{
    lemma_le32_seq_len(a.jnl_blocks@);
    lemma_le32_seq_len(b.jnl_blocks@);
    assert(a.spec_bytes_part4().subrange(0, 4) =~= le32(a.mkfs_time));
    assert(b.spec_bytes_part4().subrange(0, 4) =~= le32(b.mkfs_time));
    lemma_u32_roundtrip(a.mkfs_time);
    lemma_u32_roundtrip(b.mkfs_time);
    assert(a.mkfs_time == b.mkfs_time);
    assert(a.spec_bytes_part4().subrange(4, 72) =~= le32_seq(a.jnl_blocks@));
    assert(b.spec_bytes_part4().subrange(4, 72) =~= le32_seq(b.jnl_blocks@));
    lemma_le32_seq_injective(a.jnl_blocks@, b.jnl_blocks@);
    assert(a.jnl_blocks =~= b.jnl_blocks);
    assert(a.jnl_blocks == b.jnl_blocks);
    assert(a.spec_bytes_part4().subrange(72, 76) =~= le32(a.blocks_count_hi));
    assert(b.spec_bytes_part4().subrange(72, 76) =~= le32(b.blocks_count_hi));
    lemma_u32_roundtrip(a.blocks_count_hi);
    lemma_u32_roundtrip(b.blocks_count_hi);
    assert(a.blocks_count_hi == b.blocks_count_hi);
    assert(a.spec_bytes_part4().subrange(76, 80) =~= le32(a.r_blocks_count_hi));
    assert(b.spec_bytes_part4().subrange(76, 80) =~= le32(b.r_blocks_count_hi));
    lemma_u32_roundtrip(a.r_blocks_count_hi);
    lemma_u32_roundtrip(b.r_blocks_count_hi);
    assert(a.r_blocks_count_hi == b.r_blocks_count_hi);
    assert(a.spec_bytes_part4().subrange(80, 84) =~= le32(a.free_blocks_count_hi));
    assert(b.spec_bytes_part4().subrange(80, 84) =~= le32(b.free_blocks_count_hi));
    lemma_u32_roundtrip(a.free_blocks_count_hi);
    lemma_u32_roundtrip(b.free_blocks_count_hi);
    assert(a.free_blocks_count_hi == b.free_blocks_count_hi);
    assert(a.spec_bytes_part4().subrange(84, 86) =~= le16(a.min_extra_isize));
    assert(b.spec_bytes_part4().subrange(84, 86) =~= le16(b.min_extra_isize));
    lemma_u16_roundtrip(a.min_extra_isize);
    lemma_u16_roundtrip(b.min_extra_isize);
    assert(a.min_extra_isize == b.min_extra_isize);
    assert(a.spec_bytes_part4().subrange(86, 88) =~= le16(a.want_extra_isize));
    assert(b.spec_bytes_part4().subrange(86, 88) =~= le16(b.want_extra_isize));
    lemma_u16_roundtrip(a.want_extra_isize);
    lemma_u16_roundtrip(b.want_extra_isize);
    assert(a.want_extra_isize == b.want_extra_isize);
    assert(a.spec_bytes_part4().subrange(88, 92) =~= le32(a.flags));
    assert(b.spec_bytes_part4().subrange(88, 92) =~= le32(b.flags));
    lemma_u32_roundtrip(a.flags);
    lemma_u32_roundtrip(b.flags);
    assert(a.flags == b.flags);
    assert(a.spec_bytes_part4().subrange(92, 94) =~= le16(a.raid_stride));
    assert(b.spec_bytes_part4().subrange(92, 94) =~= le16(b.raid_stride));
    lemma_u16_roundtrip(a.raid_stride);
    lemma_u16_roundtrip(b.raid_stride);
    assert(a.raid_stride == b.raid_stride);
    assert(a.spec_bytes_part4().subrange(94, 96) =~= le16(a.mmp_interval));
    assert(b.spec_bytes_part4().subrange(94, 96) =~= le16(b.mmp_interval));
    lemma_u16_roundtrip(a.mmp_interval);
    lemma_u16_roundtrip(b.mmp_interval);
    assert(a.mmp_interval == b.mmp_interval);
    assert(a.spec_bytes_part4().subrange(96, 104) =~= le64(a.mmp_block));
    assert(b.spec_bytes_part4().subrange(96, 104) =~= le64(b.mmp_block));
    lemma_u64_roundtrip(a.mmp_block);
    lemma_u64_roundtrip(b.mmp_block);
    assert(a.mmp_block == b.mmp_block);
    assert(a.spec_bytes_part4().subrange(104, 108) =~= le32(a.raid_stripe_width));
    assert(b.spec_bytes_part4().subrange(104, 108) =~= le32(b.raid_stripe_width));
    lemma_u32_roundtrip(a.raid_stripe_width);
    lemma_u32_roundtrip(b.raid_stripe_width);
    assert(a.raid_stripe_width == b.raid_stripe_width);
}

/// Equal encodings of bytes 372 to 424 come from equal fields.
#[verifier::spinoff_prover]
proof fn lemma_part5_injective(a: ext4_sblock, b: ext4_sblock)
    requires
        a.spec_bytes_part5() == b.spec_bytes_part5(),
    ensures
        a.log_groups_per_flex == b.log_groups_per_flex,
        a.checksum_type == b.checksum_type,
        a.reserved_pad == b.reserved_pad,
        a.kbytes_written == b.kbytes_written,
        a.snapshot_inum == b.snapshot_inum,
        a.snapshot_id == b.snapshot_id,
        a.snapshot_r_blocks_count == b.snapshot_r_blocks_count,
        a.snapshot_list == b.snapshot_list,
        a.error_count == b.error_count,
        a.first_error_time == b.first_error_time,
        a.first_error_ino == b.first_error_ino,
        a.first_error_block == b.first_error_block,
{
    assert(a.spec_bytes_part5().subrange(0, 1) =~= seq![a.log_groups_per_flex]);
    assert(b.spec_bytes_part5().subrange(0, 1) =~= seq![b.log_groups_per_flex]);
    assert(seq![a.log_groups_per_flex][0] == seq![b.log_groups_per_flex][0]);
    assert(a.log_groups_per_flex == b.log_groups_per_flex);
    assert(a.spec_bytes_part5().subrange(1, 2) =~= seq![a.checksum_type]);
    assert(b.spec_bytes_part5().subrange(1, 2) =~= seq![b.checksum_type]);
    assert(seq![a.checksum_type][0] == seq![b.checksum_type][0]);
    assert(a.checksum_type == b.checksum_type);
    assert(a.spec_bytes_part5().subrange(2, 4) =~= le16(a.reserved_pad));
    assert(b.spec_bytes_part5().subrange(2, 4) =~= le16(b.reserved_pad));
    lemma_u16_roundtrip(a.reserved_pad);
    lemma_u16_roundtrip(b.reserved_pad);
    assert(a.reserved_pad == b.reserved_pad);
    assert(a.spec_bytes_part5().subrange(4, 12) =~= le64(a.kbytes_written));
    assert(b.spec_bytes_part5().subrange(4, 12) =~= le64(b.kbytes_written));
    lemma_u64_roundtrip(a.kbytes_written);
    lemma_u64_roundtrip(b.kbytes_written);
    assert(a.kbytes_written == b.kbytes_written);
    assert(a.spec_bytes_part5().subrange(12, 16) =~= le32(a.snapshot_inum));
    assert(b.spec_bytes_part5().subrange(12, 16) =~= le32(b.snapshot_inum));
    lemma_u32_roundtrip(a.snapshot_inum);
    lemma_u32_roundtrip(b.snapshot_inum);
    assert(a.snapshot_inum == b.snapshot_inum);
    assert(a.spec_bytes_part5().subrange(16, 20) =~= le32(a.snapshot_id));
    assert(b.spec_bytes_part5().subrange(16, 20) =~= le32(b.snapshot_id));
    lemma_u32_roundtrip(a.snapshot_id);
    lemma_u32_roundtrip(b.snapshot_id);
    assert(a.snapshot_id == b.snapshot_id);
    assert(a.spec_bytes_part5().subrange(20, 28) =~= le64(a.snapshot_r_blocks_count));
    assert(b.spec_bytes_part5().subrange(20, 28) =~= le64(b.snapshot_r_blocks_count));
    lemma_u64_roundtrip(a.snapshot_r_blocks_count);
    lemma_u64_roundtrip(b.snapshot_r_blocks_count);
    assert(a.snapshot_r_blocks_count == b.snapshot_r_blocks_count);
    assert(a.spec_bytes_part5().subrange(28, 32) =~= le32(a.snapshot_list));
    assert(b.spec_bytes_part5().subrange(28, 32) =~= le32(b.snapshot_list));
    lemma_u32_roundtrip(a.snapshot_list);
    lemma_u32_roundtrip(b.snapshot_list);
    assert(a.snapshot_list == b.snapshot_list);
    assert(a.spec_bytes_part5().subrange(32, 36) =~= le32(a.error_count));
    assert(b.spec_bytes_part5().subrange(32, 36) =~= le32(b.error_count));
    lemma_u32_roundtrip(a.error_count);
    lemma_u32_roundtrip(b.error_count);
    assert(a.error_count == b.error_count);
    assert(a.spec_bytes_part5().subrange(36, 40) =~= le32(a.first_error_time));
    assert(b.spec_bytes_part5().subrange(36, 40) =~= le32(b.first_error_time));
    lemma_u32_roundtrip(a.first_error_time);
    lemma_u32_roundtrip(b.first_error_time);
    assert(a.first_error_time == b.first_error_time);
    assert(a.spec_bytes_part5().subrange(40, 44) =~= le32(a.first_error_ino));
    assert(b.spec_bytes_part5().subrange(40, 44) =~= le32(b.first_error_ino));
    lemma_u32_roundtrip(a.first_error_ino);
    lemma_u32_roundtrip(b.first_error_ino);
    assert(a.first_error_ino == b.first_error_ino);
    assert(a.spec_bytes_part5().subrange(44, 52) =~= le64(a.first_error_block));
    assert(b.spec_bytes_part5().subrange(44, 52) =~= le64(b.first_error_block));
    lemma_u64_roundtrip(a.first_error_block);
    lemma_u64_roundtrip(b.first_error_block);
    assert(a.first_error_block == b.first_error_block);
}

/// Equal encodings of bytes 424 to 596 come from equal fields.
#[verifier::spinoff_prover]
proof fn lemma_part6_injective(a: ext4_sblock, b: ext4_sblock)
    requires
        a.spec_bytes_part6() == b.spec_bytes_part6(),
    ensures
        a.first_error_func == b.first_error_func,
        a.first_error_line == b.first_error_line,
        a.last_error_time == b.last_error_time,
        a.last_error_ino == b.last_error_ino,
        a.last_error_line == b.last_error_line,
        a.last_error_block == b.last_error_block,
        a.last_error_func == b.last_error_func,
        a.mount_opts == b.mount_opts,
        a.usr_quota_inum == b.usr_quota_inum,
        a.grp_quota_inum == b.grp_quota_inum,
        a.overhead_blocks == b.overhead_blocks,
        a.backup_bgs == b.backup_bgs,
{
    lemma_le32_seq_len(a.backup_bgs@);
    lemma_le32_seq_len(b.backup_bgs@);
    assert(a.spec_bytes_part6().subrange(0, 32) =~= a.first_error_func@);
    assert(b.spec_bytes_part6().subrange(0, 32) =~= b.first_error_func@);
    assert(a.first_error_func =~= b.first_error_func);
    assert(a.first_error_func == b.first_error_func);
    assert(a.spec_bytes_part6().subrange(32, 36) =~= le32(a.first_error_line));
    assert(b.spec_bytes_part6().subrange(32, 36) =~= le32(b.first_error_line));
    lemma_u32_roundtrip(a.first_error_line);
    lemma_u32_roundtrip(b.first_error_line);
    assert(a.first_error_line == b.first_error_line);
    assert(a.spec_bytes_part6().subrange(36, 40) =~= le32(a.last_error_time));
    assert(b.spec_bytes_part6().subrange(36, 40) =~= le32(b.last_error_time));
    lemma_u32_roundtrip(a.last_error_time);
    lemma_u32_roundtrip(b.last_error_time);
    assert(a.last_error_time == b.last_error_time);
    assert(a.spec_bytes_part6().subrange(40, 44) =~= le32(a.last_error_ino));
    assert(b.spec_bytes_part6().subrange(40, 44) =~= le32(b.last_error_ino));
    lemma_u32_roundtrip(a.last_error_ino);
    lemma_u32_roundtrip(b.last_error_ino);
    assert(a.last_error_ino == b.last_error_ino);
    assert(a.spec_bytes_part6().subrange(44, 48) =~= le32(a.last_error_line));
    assert(b.spec_bytes_part6().subrange(44, 48) =~= le32(b.last_error_line));
    lemma_u32_roundtrip(a.last_error_line);
    lemma_u32_roundtrip(b.last_error_line);
    assert(a.last_error_line == b.last_error_line);
    assert(a.spec_bytes_part6().subrange(48, 56) =~= le64(a.last_error_block));
    assert(b.spec_bytes_part6().subrange(48, 56) =~= le64(b.last_error_block));
    lemma_u64_roundtrip(a.last_error_block);
    lemma_u64_roundtrip(b.last_error_block);
    assert(a.last_error_block == b.last_error_block);
    assert(a.spec_bytes_part6().subrange(56, 88) =~= a.last_error_func@);
    assert(b.spec_bytes_part6().subrange(56, 88) =~= b.last_error_func@);
    assert(a.last_error_func =~= b.last_error_func);
    assert(a.last_error_func == b.last_error_func);
    assert(a.spec_bytes_part6().subrange(88, 152) =~= a.mount_opts@);
    assert(b.spec_bytes_part6().subrange(88, 152) =~= b.mount_opts@);
    assert(a.mount_opts =~= b.mount_opts);
    assert(a.mount_opts == b.mount_opts);
    assert(a.spec_bytes_part6().subrange(152, 156) =~= le32(a.usr_quota_inum));
    assert(b.spec_bytes_part6().subrange(152, 156) =~= le32(b.usr_quota_inum));
    lemma_u32_roundtrip(a.usr_quota_inum);
    lemma_u32_roundtrip(b.usr_quota_inum);
    assert(a.usr_quota_inum == b.usr_quota_inum);
    assert(a.spec_bytes_part6().subrange(156, 160) =~= le32(a.grp_quota_inum));
    assert(b.spec_bytes_part6().subrange(156, 160) =~= le32(b.grp_quota_inum));
    lemma_u32_roundtrip(a.grp_quota_inum);
    lemma_u32_roundtrip(b.grp_quota_inum);
    assert(a.grp_quota_inum == b.grp_quota_inum);
    assert(a.spec_bytes_part6().subrange(160, 164) =~= le32(a.overhead_blocks));
    assert(b.spec_bytes_part6().subrange(160, 164) =~= le32(b.overhead_blocks));
    lemma_u32_roundtrip(a.overhead_blocks);
    lemma_u32_roundtrip(b.overhead_blocks);
    assert(a.overhead_blocks == b.overhead_blocks);
    assert(a.spec_bytes_part6().subrange(164, 172) =~= le32_seq(a.backup_bgs@));
    assert(b.spec_bytes_part6().subrange(164, 172) =~= le32_seq(b.backup_bgs@));
    lemma_le32_seq_injective(a.backup_bgs@, b.backup_bgs@);
    assert(a.backup_bgs =~= b.backup_bgs);
    assert(a.backup_bgs == b.backup_bgs);
}

/// Equal encodings of bytes 596 to 1020 come from equal fields.
#[verifier::spinoff_prover]
proof fn lemma_part7_injective(a: ext4_sblock, b: ext4_sblock)
    requires
        a.spec_bytes_part7() == b.spec_bytes_part7(),
    ensures
        a.encrypt_algos == b.encrypt_algos,
        a.encrypt_pw_salt == b.encrypt_pw_salt,
        a.lpf_ino == b.lpf_ino,
        a.prj_quota_inum == b.prj_quota_inum,
        a.checksum_seed == b.checksum_seed,
        a.reserved == b.reserved,
{
    lemma_le32_seq_len(a.reserved@);
    lemma_le32_seq_len(b.reserved@);
    assert(a.spec_bytes_part7().subrange(0, 4) =~= a.encrypt_algos@);
    assert(b.spec_bytes_part7().subrange(0, 4) =~= b.encrypt_algos@);
    assert(a.encrypt_algos =~= b.encrypt_algos);
    assert(a.encrypt_algos == b.encrypt_algos);
    assert(a.spec_bytes_part7().subrange(4, 20) =~= a.encrypt_pw_salt@);
    assert(b.spec_bytes_part7().subrange(4, 20) =~= b.encrypt_pw_salt@);
    assert(a.encrypt_pw_salt =~= b.encrypt_pw_salt);
    assert(a.encrypt_pw_salt == b.encrypt_pw_salt);
    assert(a.spec_bytes_part7().subrange(20, 24) =~= le32(a.lpf_ino));
    assert(b.spec_bytes_part7().subrange(20, 24) =~= le32(b.lpf_ino));
    lemma_u32_roundtrip(a.lpf_ino);
    lemma_u32_roundtrip(b.lpf_ino);
    assert(a.lpf_ino == b.lpf_ino);
    assert(a.spec_bytes_part7().subrange(24, 28) =~= le32(a.prj_quota_inum));
    assert(b.spec_bytes_part7().subrange(24, 28) =~= le32(b.prj_quota_inum));
    lemma_u32_roundtrip(a.prj_quota_inum);
    lemma_u32_roundtrip(b.prj_quota_inum);
    assert(a.prj_quota_inum == b.prj_quota_inum);
    assert(a.spec_bytes_part7().subrange(28, 32) =~= le32(a.checksum_seed));
    assert(b.spec_bytes_part7().subrange(28, 32) =~= le32(b.checksum_seed));
    lemma_u32_roundtrip(a.checksum_seed);
    lemma_u32_roundtrip(b.checksum_seed);
    assert(a.checksum_seed == b.checksum_seed);
    assert(a.spec_bytes_part7().subrange(32, 424) =~= le32_seq(a.reserved@));
    assert(b.spec_bytes_part7().subrange(32, 424) =~= le32_seq(b.reserved@));
    lemma_le32_seq_injective(a.reserved@, b.reserved@);
    assert(a.reserved =~= b.reserved);
    assert(a.reserved == b.reserved);
}

/// Lengths of the eight encoded parts.
#[verifier::spinoff_prover]
proof fn lemma_part_lengths(a: ext4_sblock)
    ensures
        a.spec_bytes_part0().len() == 48,
        a.spec_bytes_part1().len() == 34,
        a.spec_bytes_part2().len() == 123,
        a.spec_bytes_part3().len() == 59,
        a.spec_bytes_part4().len() == 108,
        a.spec_bytes_part5().len() == 52,
        a.spec_bytes_part6().len() == 172,
        a.spec_bytes_part7().len() == 424,
{
    lemma_le32_seq_len(a.hash_seed@);
    lemma_le32_seq_len(a.jnl_blocks@);
    lemma_le32_seq_len(a.backup_bgs@);
    lemma_le32_seq_len(a.reserved@);
    assert(a.spec_bytes_part0().len() == 48);
    assert(a.spec_bytes_part1().len() == 34);
    assert(a.spec_bytes_part2().len() == 123);
    assert(a.spec_bytes_part3().len() == 59);
    assert(a.spec_bytes_part4().len() == 108);
    assert(a.spec_bytes_part5().len() == 52);
    assert(a.spec_bytes_part6().len() == 172);
    assert(a.spec_bytes_part7().len() == 424);
}

/// The eight parts of an encoded superblock and its checksum, at their
/// offsets.
#[verifier::spinoff_prover]
proof fn lemma_parts_of_bytes(a: ext4_sblock)
    ensures
        a.spec_to_bytes().subrange(0, 48) == a.spec_bytes_part0(),
        a.spec_to_bytes().subrange(48, 82) == a.spec_bytes_part1(),
        a.spec_to_bytes().subrange(82, 205) == a.spec_bytes_part2(),
        a.spec_to_bytes().subrange(205, 264) == a.spec_bytes_part3(),
        a.spec_to_bytes().subrange(264, 372) == a.spec_bytes_part4(),
        a.spec_to_bytes().subrange(372, 424) == a.spec_bytes_part5(),
        a.spec_to_bytes().subrange(424, 596) == a.spec_bytes_part6(),
        a.spec_to_bytes().subrange(596, 1020) == a.spec_bytes_part7(),
        a.spec_to_bytes().subrange(1020, 1024) == le32(a.checksum),
{
    lemma_part_lengths(a);
    let d = a.spec_to_bytes();
    let b1 = a.spec_bytes_part0() + a.spec_bytes_part1();
    let b2 = b1 + a.spec_bytes_part2();
    let b3 = b2 + a.spec_bytes_part3();
    let b4 = b3 + a.spec_bytes_part4();
    let b5 = b4 + a.spec_bytes_part5();
    let b6 = b5 + a.spec_bytes_part6();
    let b7 = b6 + a.spec_bytes_part7();
    assert(b7 == a.spec_body_bytes());
    assert(d.subrange(0, 1020) =~= b7);
    assert(d.subrange(1020, 1024) =~= le32(a.checksum));
    assert(b7.subrange(0, 596) =~= b6);
    assert(b6.subrange(0, 424) =~= b5);
    assert(b5.subrange(0, 372) =~= b4);
    assert(b4.subrange(0, 264) =~= b3);
    assert(b3.subrange(0, 205) =~= b2);
    assert(b2.subrange(0, 82) =~= b1);
    assert(d.subrange(596, 1020) =~= a.spec_bytes_part7());
    assert(d.subrange(424, 596) =~= a.spec_bytes_part6());
    assert(d.subrange(372, 424) =~= a.spec_bytes_part5());
    assert(d.subrange(264, 372) =~= a.spec_bytes_part4());
    assert(d.subrange(205, 264) =~= a.spec_bytes_part3());
    assert(d.subrange(82, 205) =~= a.spec_bytes_part2());
    assert(d.subrange(48, 82) =~= a.spec_bytes_part1());
    assert(d.subrange(0, 48) =~= a.spec_bytes_part0());
}

/// Two superblocks with the same 1024 disk bytes are the same: decoding
/// the bytes a superblock was written as gives that superblock back.
pub proof fn lemma_decode_after_encode(a: ext4_sblock, b: ext4_sblock)
    requires
        b.spec_to_bytes() == a.spec_to_bytes(),
    ensures
        b == a,
{
    lemma_parts_of_bytes(a);
    lemma_parts_of_bytes(b);
    lemma_part0_injective(a, b);
    lemma_part1_injective(a, b);
    lemma_part2_injective(a, b);
    lemma_part3_injective(a, b);
    lemma_part4_injective(a, b);
    lemma_part5_injective(a, b);
    lemma_part6_injective(a, b);
    lemma_part7_injective(a, b);
    lemma_u32_roundtrip(a.checksum);
    lemma_u32_roundtrip(b.checksum);
    assert(a.checksum == b.checksum);
}

impl ext4_sblock {

    /// Decodes bytes 0 to 48 of a disk superblock into their fields.
    fn decode_part0(sb: &mut ext4_sblock, data: &[u8])
        requires
            data@.len() >= 1024,
        ensures
            final(sb).spec_bytes_part0() == data@.subrange(0, 48),
            final(sb).spec_bytes_part1() == old(sb).spec_bytes_part1(),
            final(sb).spec_bytes_part2() == old(sb).spec_bytes_part2(),
            final(sb).spec_bytes_part3() == old(sb).spec_bytes_part3(),
            final(sb).spec_bytes_part4() == old(sb).spec_bytes_part4(),
            final(sb).spec_bytes_part5() == old(sb).spec_bytes_part5(),
            final(sb).spec_bytes_part6() == old(sb).spec_bytes_part6(),
            final(sb).spec_bytes_part7() == old(sb).spec_bytes_part7(),
            final(sb).checksum == old(sb).checksum,
    {
        sb.inodes_count = rd32(data, 0);
        sb.blocks_count_lo = rd32(data, 4);
        sb.r_blocks_count_lo = rd32(data, 8);
        sb.free_blocks_count_lo = rd32(data, 12);
        sb.free_inodes_count = rd32(data, 16);
        sb.first_data_block = rd32(data, 20);
        sb.log_block_size = rd32(data, 24);
        sb.log_cluster_size = rd32(data, 28);
        sb.blocks_per_group = rd32(data, 32);
        sb.clusters_per_group = rd32(data, 36);
        sb.inodes_per_group = rd32(data, 40);
        sb.mtime = rd32(data, 44);
        assert(sb.spec_bytes_part0() =~= data@.subrange(0, 48));
    }

    /// Decodes bytes 48 to 82 of a disk superblock into their fields.
    fn decode_part1(sb: &mut ext4_sblock, data: &[u8])
        requires
            data@.len() >= 1024,
        ensures
            final(sb).spec_bytes_part1() == data@.subrange(48, 82),
            final(sb).spec_bytes_part0() == old(sb).spec_bytes_part0(),
            final(sb).spec_bytes_part2() == old(sb).spec_bytes_part2(),
            final(sb).spec_bytes_part3() == old(sb).spec_bytes_part3(),
            final(sb).spec_bytes_part4() == old(sb).spec_bytes_part4(),
            final(sb).spec_bytes_part5() == old(sb).spec_bytes_part5(),
            final(sb).spec_bytes_part6() == old(sb).spec_bytes_part6(),
            final(sb).spec_bytes_part7() == old(sb).spec_bytes_part7(),
            final(sb).checksum == old(sb).checksum,
    {
        sb.wtime = rd32(data, 48);
        sb.mnt_count = rd16(data, 52);
        sb.max_mnt_count = rd16(data, 54);
        sb.magic = rd16(data, 56);
        sb.state = rd16(data, 58);
        sb.errors = rd16(data, 60);
        sb.minor_rev_level = rd16(data, 62);
        sb.lastcheck = rd32(data, 64);
        sb.checkinterval = rd32(data, 68);
        sb.creator_os = rd32(data, 72);
        sb.rev_level = rd32(data, 76);
        sb.def_resuid = rd16(data, 80);
        assert(sb.spec_bytes_part1() =~= data@.subrange(48, 82));
    }

    /// Decodes bytes 82 to 205 of a disk superblock into their fields.
    fn decode_part2(sb: &mut ext4_sblock, data: &[u8])
        requires
            data@.len() >= 1024,
        ensures
            final(sb).spec_bytes_part2() == data@.subrange(82, 205),
            final(sb).spec_bytes_part0() == old(sb).spec_bytes_part0(),
            final(sb).spec_bytes_part1() == old(sb).spec_bytes_part1(),
            final(sb).spec_bytes_part3() == old(sb).spec_bytes_part3(),
            final(sb).spec_bytes_part4() == old(sb).spec_bytes_part4(),
            final(sb).spec_bytes_part5() == old(sb).spec_bytes_part5(),
            final(sb).spec_bytes_part6() == old(sb).spec_bytes_part6(),
            final(sb).spec_bytes_part7() == old(sb).spec_bytes_part7(),
            final(sb).checksum == old(sb).checksum,
    {
        sb.def_resgid = rd16(data, 82);
        sb.first_ino = rd32(data, 84);
        sb.inode_size = rd16(data, 88);
        sb.block_group_nr = rd16(data, 90);
        sb.feature_compat = rd32(data, 92);
        sb.feature_incompat = rd32(data, 96);
        sb.feature_ro_compat = rd32(data, 100);
        fill_bytes(&mut sb.uuid, data, 104);
        fill_bytes(&mut sb.volume_name, data, 120);
        fill_bytes(&mut sb.last_mounted, data, 136);
        sb.algorithm_usage_bitmap = rd32(data, 200);
        sb.prealloc_blocks = data[204];
        assert(sb.spec_bytes_part2() =~= data@.subrange(82, 205));
    }

    /// Decodes bytes 205 to 264 of a disk superblock into their fields.
    fn decode_part3(sb: &mut ext4_sblock, data: &[u8])
        requires
            data@.len() >= 1024,
        ensures
            final(sb).spec_bytes_part3() == data@.subrange(205, 264),
            final(sb).spec_bytes_part0() == old(sb).spec_bytes_part0(),
            final(sb).spec_bytes_part1() == old(sb).spec_bytes_part1(),
            final(sb).spec_bytes_part2() == old(sb).spec_bytes_part2(),
            final(sb).spec_bytes_part4() == old(sb).spec_bytes_part4(),
            final(sb).spec_bytes_part5() == old(sb).spec_bytes_part5(),
            final(sb).spec_bytes_part6() == old(sb).spec_bytes_part6(),
            final(sb).spec_bytes_part7() == old(sb).spec_bytes_part7(),
            final(sb).checksum == old(sb).checksum,
    {
        sb.prealloc_dir_blocks = data[205];
        sb.reserved_gdt_blocks = rd16(data, 206);
        fill_bytes(&mut sb.journal_uuid, data, 208);
        sb.journal_inum = rd32(data, 224);
        sb.journal_dev = rd32(data, 228);
        sb.last_orphan = rd32(data, 232);
        fill_words(&mut sb.hash_seed, data, 236);
        sb.def_hash_version = data[252];
        sb.jnl_backup_type = data[253];
        sb.desc_size = rd16(data, 254);
        sb.default_mount_opts = rd32(data, 256);
        sb.first_meta_bg = rd32(data, 260);
        assert(sb.spec_bytes_part3() =~= data@.subrange(205, 264));
    }

    /// Decodes bytes 264 to 372 of a disk superblock into their fields.
    fn decode_part4(sb: &mut ext4_sblock, data: &[u8])
        requires
            data@.len() >= 1024,
        ensures
            final(sb).spec_bytes_part4() == data@.subrange(264, 372),
            final(sb).spec_bytes_part0() == old(sb).spec_bytes_part0(),
            final(sb).spec_bytes_part1() == old(sb).spec_bytes_part1(),
            final(sb).spec_bytes_part2() == old(sb).spec_bytes_part2(),
            final(sb).spec_bytes_part3() == old(sb).spec_bytes_part3(),
            final(sb).spec_bytes_part5() == old(sb).spec_bytes_part5(),
            final(sb).spec_bytes_part6() == old(sb).spec_bytes_part6(),
            final(sb).spec_bytes_part7() == old(sb).spec_bytes_part7(),
            final(sb).checksum == old(sb).checksum,
    {
        sb.mkfs_time = rd32(data, 264);
        fill_words(&mut sb.jnl_blocks, data, 268);
        sb.blocks_count_hi = rd32(data, 336);
        sb.r_blocks_count_hi = rd32(data, 340);
        sb.free_blocks_count_hi = rd32(data, 344);
        sb.min_extra_isize = rd16(data, 348);
        sb.want_extra_isize = rd16(data, 350);
        sb.flags = rd32(data, 352);
        sb.raid_stride = rd16(data, 356);
        sb.mmp_interval = rd16(data, 358);
        sb.mmp_block = rd64(data, 360);
        sb.raid_stripe_width = rd32(data, 368);
        assert(sb.spec_bytes_part4() =~= data@.subrange(264, 372));
    }

    /// Decodes bytes 372 to 424 of a disk superblock into their fields.
    fn decode_part5(sb: &mut ext4_sblock, data: &[u8])
        requires
            data@.len() >= 1024,
        ensures
            final(sb).spec_bytes_part5() == data@.subrange(372, 424),
            final(sb).spec_bytes_part0() == old(sb).spec_bytes_part0(),
            final(sb).spec_bytes_part1() == old(sb).spec_bytes_part1(),
            final(sb).spec_bytes_part2() == old(sb).spec_bytes_part2(),
            final(sb).spec_bytes_part3() == old(sb).spec_bytes_part3(),
            final(sb).spec_bytes_part4() == old(sb).spec_bytes_part4(),
            final(sb).spec_bytes_part6() == old(sb).spec_bytes_part6(),
            final(sb).spec_bytes_part7() == old(sb).spec_bytes_part7(),
            final(sb).checksum == old(sb).checksum,
    {
        sb.log_groups_per_flex = data[372];
        sb.checksum_type = data[373];
        sb.reserved_pad = rd16(data, 374);
        sb.kbytes_written = rd64(data, 376);
        sb.snapshot_inum = rd32(data, 384);
        sb.snapshot_id = rd32(data, 388);
        sb.snapshot_r_blocks_count = rd64(data, 392);
        sb.snapshot_list = rd32(data, 400);
        sb.error_count = rd32(data, 404);
        sb.first_error_time = rd32(data, 408);
        sb.first_error_ino = rd32(data, 412);
        sb.first_error_block = rd64(data, 416);
        assert(sb.spec_bytes_part5() =~= data@.subrange(372, 424));
    }

    /// Decodes bytes 424 to 596 of a disk superblock into their fields.
    fn decode_part6(sb: &mut ext4_sblock, data: &[u8])
        requires
            data@.len() >= 1024,
        ensures
            final(sb).spec_bytes_part6() == data@.subrange(424, 596),
            final(sb).spec_bytes_part0() == old(sb).spec_bytes_part0(),
            final(sb).spec_bytes_part1() == old(sb).spec_bytes_part1(),
            final(sb).spec_bytes_part2() == old(sb).spec_bytes_part2(),
            final(sb).spec_bytes_part3() == old(sb).spec_bytes_part3(),
            final(sb).spec_bytes_part4() == old(sb).spec_bytes_part4(),
            final(sb).spec_bytes_part5() == old(sb).spec_bytes_part5(),
            final(sb).spec_bytes_part7() == old(sb).spec_bytes_part7(),
            final(sb).checksum == old(sb).checksum,
    {
        fill_bytes(&mut sb.first_error_func, data, 424);
        sb.first_error_line = rd32(data, 456);
        sb.last_error_time = rd32(data, 460);
        sb.last_error_ino = rd32(data, 464);
        sb.last_error_line = rd32(data, 468);
        sb.last_error_block = rd64(data, 472);
        fill_bytes(&mut sb.last_error_func, data, 480);
        fill_bytes(&mut sb.mount_opts, data, 512);
        sb.usr_quota_inum = rd32(data, 576);
        sb.grp_quota_inum = rd32(data, 580);
        sb.overhead_blocks = rd32(data, 584);
        fill_words(&mut sb.backup_bgs, data, 588);
        assert(sb.spec_bytes_part6() =~= data@.subrange(424, 596));
    }

    /// Decodes bytes 596 to 1020 of a disk superblock into their fields.
    fn decode_part7(sb: &mut ext4_sblock, data: &[u8])
        requires
            data@.len() >= 1024,
        ensures
            final(sb).spec_bytes_part7() == data@.subrange(596, 1020),
            final(sb).spec_bytes_part0() == old(sb).spec_bytes_part0(),
            final(sb).spec_bytes_part1() == old(sb).spec_bytes_part1(),
            final(sb).spec_bytes_part2() == old(sb).spec_bytes_part2(),
            final(sb).spec_bytes_part3() == old(sb).spec_bytes_part3(),
            final(sb).spec_bytes_part4() == old(sb).spec_bytes_part4(),
            final(sb).spec_bytes_part5() == old(sb).spec_bytes_part5(),
            final(sb).spec_bytes_part6() == old(sb).spec_bytes_part6(),
            final(sb).checksum == old(sb).checksum,
    {
        fill_bytes(&mut sb.encrypt_algos, data, 596);
        fill_bytes(&mut sb.encrypt_pw_salt, data, 600);
        sb.lpf_ino = rd32(data, 616);
        sb.prj_quota_inum = rd32(data, 620);
        sb.checksum_seed = rd32(data, 624);
        fill_words(&mut sb.reserved, data, 628);
        assert(sb.spec_bytes_part7() =~= data@.subrange(596, 1020));
    }

    /// Decodes bytes 0 to 264 of a disk superblock into their fields.
    #[verifier::spinoff_prover]
    fn decode_first_half(sb: &mut ext4_sblock, data: &[u8])
        requires
            data@.len() >= 1024,
        ensures
            final(sb).spec_bytes_part0() == data@.subrange(0, 48),
            final(sb).spec_bytes_part1() == data@.subrange(48, 82),
            final(sb).spec_bytes_part2() == data@.subrange(82, 205),
            final(sb).spec_bytes_part3() == data@.subrange(205, 264),
            final(sb).spec_bytes_part4() == old(sb).spec_bytes_part4(),
            final(sb).spec_bytes_part5() == old(sb).spec_bytes_part5(),
            final(sb).spec_bytes_part6() == old(sb).spec_bytes_part6(),
            final(sb).spec_bytes_part7() == old(sb).spec_bytes_part7(),
            final(sb).checksum == old(sb).checksum,
    {
        Self::decode_part0(sb, data);
        Self::decode_part1(sb, data);
        Self::decode_part2(sb, data);
        Self::decode_part3(sb, data);
    }

    /// Decodes bytes 264 to 1020 of a disk superblock into their fields.
    #[verifier::spinoff_prover]
    fn decode_second_half(sb: &mut ext4_sblock, data: &[u8])
        requires
            data@.len() >= 1024,
        ensures
            final(sb).spec_bytes_part0() == old(sb).spec_bytes_part0(),
            final(sb).spec_bytes_part1() == old(sb).spec_bytes_part1(),
            final(sb).spec_bytes_part2() == old(sb).spec_bytes_part2(),
            final(sb).spec_bytes_part3() == old(sb).spec_bytes_part3(),
            final(sb).spec_bytes_part4() == data@.subrange(264, 372),
            final(sb).spec_bytes_part5() == data@.subrange(372, 424),
            final(sb).spec_bytes_part6() == data@.subrange(424, 596),
            final(sb).spec_bytes_part7() == data@.subrange(596, 1020),
            final(sb).checksum == old(sb).checksum,
    {
        Self::decode_part4(sb, data);
        Self::decode_part5(sb, data);
        Self::decode_part6(sb, data);
        Self::decode_part7(sb, data);
    }

    /// Decodes the disk superblock at the start of `data`: encoding the
    /// result gives back the first 1024 bytes.
    #[verifier::spinoff_prover]
    pub fn from_bytes(data: &[u8]) -> (r: ext4_sblock)
        requires
            data@.len() >= 1024,
        ensures
            r.spec_to_bytes() == data@.take(1024),
    {
        let mut sb = ext4_sblock::default();
        Self::decode_first_half(&mut sb, data);
        Self::decode_second_half(&mut sb, data);
        sb.checksum = rd32(data, 1020);
        proof {
            lemma_assemble(sb, data@);
        }
        sb
    }
}

} // verus!
