//! The ext2 superblock and the digest of it the kernel keeps.
//!
//! Storage parsing is an external collaborator of the process core;
//! what belongs here is the layout of the on-disk superblock and the
//! arithmetic that condenses it.

use vstd::prelude::*;

verus! {

/// State of the filesystem recorded in the superblock.
#[derive(Clone, Copy, PartialEq, Eq, Structural, Debug)]
pub enum FsState {
    Clean,
    Error,
}

/// What to do when an error is detected.
#[derive(Clone, Copy, PartialEq, Eq, Structural, Debug)]
pub enum ErrProc {
    Ignore,
    ReMntRead,
    Panic,
}

/// Operating system that created the volume.
#[derive(Clone, Copy, PartialEq, Eq, Structural, Debug)]
pub enum OsId {
    Linux,
    Herd,
    MASIX,
    FreeBSD,
    Lite,
}

/// The fields of the on-disk ext2 superblock that this kernel reads.
pub struct Superblock {
    /// Total number of inodes in the file system.
    pub inode_num: u32,
    /// Total number of blocks in the file system.
    pub block_num: u32,
    pub superuser_block_num: u32,
    pub unallocated_blocks: u32,
    pub unallocated_inodes: u32,
    pub superblock_block_num: u32,
    /// Shift 1,024 by this to obtain the block size.
    pub blck_size_shift: u32,
    /// Shift 1,024 by this to obtain the fragment size.
    pub frag_size_shift: u32,
    pub blocks_per_block_group: u32,
    pub fragments_per_block_group: u32,
    pub inodes_per_block_group: u32,
    pub last_mount_time_posix: u32,
    pub last_written_time_posix: u32,
    pub mounts_since_fsck: u16,
    pub mounts_allowed_before_fsck: u16,
    /// 0xef53.
    pub ext2_magic: u16,
    pub fs_state: FsState,
    pub error_procedure: ErrProc,
    pub minor_version: u16,
    pub last_fsck_posix: u32,
    pub interval_fsck_posix: u32,
    pub fs_os_id: OsId,
    pub major_version: u32,
    pub user_id_use_res_blocks: u16,
    pub group_id_use_res_blocks: u16,
    pub first_nonres_inode: u32,
    pub inode_size: u16,
    /// Block group that this superblock is part of.
    pub block_group: u16,
}

/// The digest of the superblock the kernel works with.
#[derive(Clone, Copy, PartialEq, Eq, Structural, Debug)]
pub struct Ext2 {
    pub blck_size: u32,
    pub frag_size: u32,
    pub inode_total: u32,
    pub block_total: u32,
    pub inode_per_bg: u32,
    pub blk_per_bg: u32,
    pub block_group_total: u32,
}

impl Superblock {
    /// Condense the superblock.  The caller has checked the volume is
    /// consistent: counting block groups by blocks and by inodes must
    /// agree (the kernel treats a mismatch as fatal).
    pub fn get_ext2(&self) -> (r: Ext2)
        requires
            self.blck_size_shift < 32,
            self.frag_size_shift < 32,
            self.blocks_per_block_group > 0,
            self.inodes_per_block_group > 0,
            self.block_num / self.blocks_per_block_group == self.inode_num
                / self.inodes_per_block_group,
        ensures
            r.blck_size == 1024u32 >> self.blck_size_shift,
            r.frag_size == 1024u32 >> self.frag_size_shift,
            r.inode_total == self.inode_num,
            r.block_total == self.block_num,
            r.inode_per_bg == self.inodes_per_block_group,
            r.blk_per_bg == self.blocks_per_block_group,
            r.block_group_total == self.block_num / self.blocks_per_block_group,
    {
        Ext2 {
            blck_size: 1024 >> self.blck_size_shift,
            frag_size: 1024 >> self.frag_size_shift,
            inode_total: self.inode_num,
            block_total: self.block_num,
            inode_per_bg: self.inodes_per_block_group,
            blk_per_bg: self.blocks_per_block_group,
            block_group_total: self.block_num / self.blocks_per_block_group,
        }
    }
}

} // verus!
