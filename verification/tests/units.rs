use core::marker::PhantomData;

use jimos_core::dtree::{DeviceTreeHeader, MemResBlock, FDT_TOKEN};
use jimos_core::ext2::{ErrProc, FsState, OsId, Superblock};
use jimos_core::interrupt::{handle_interrupt, interrupt_enable, SCAUSE_TIMER};
use jimos_core::registers::{ReadWrite, Register};
use jimos_core::sbi::{SbiRet, SbiRetInto};
use jimos_core::shell::{parse_command, Command, Shell, LINE_MAX};
use jimos_core::static_alloc::{Arena, FreeList};
use jimos_core::syscall::{FileErr, FileResult, SysErr};
use jimos_core::tar::{parse_octal, sectors_for, Tar, Type};
use jimos_core::virtio::{
    VirtQueueAvailableRing, VirtQueueDesc, VirtQueueUsedElemnts, VirtQueueUsedRing,
    VirtioVirtualQueue, VIRTQ_ENTRY_NUM,
};

#[test]
fn superblock_digest_is_exact() {
    let sb = Superblock {
        inode_num: 800,
        block_num: 1600,
        superuser_block_num: 0,
        unallocated_blocks: 100,
        unallocated_inodes: 50,
        superblock_block_num: 1,
        blck_size_shift: 2,
        frag_size_shift: 3,
        blocks_per_block_group: 200,
        fragments_per_block_group: 200,
        inodes_per_block_group: 100,
        last_mount_time_posix: 0,
        last_written_time_posix: 0,
        mounts_since_fsck: 1,
        mounts_allowed_before_fsck: 20,
        ext2_magic: 0xef53,
        fs_state: FsState::Clean,
        error_procedure: ErrProc::Panic,
        minor_version: 0,
        last_fsck_posix: 0,
        interval_fsck_posix: 0,
        fs_os_id: OsId::Linux,
        major_version: 1,
        user_id_use_res_blocks: 0,
        group_id_use_res_blocks: 0,
        first_nonres_inode: 11,
        inode_size: 128,
        block_group: 0,
    };
    // both countings of block groups agree: 1600/200 == 800/100 == 8
    let e = sb.get_ext2();
    assert_eq!(e.blck_size, 1024 >> 2);
    assert_eq!(e.frag_size, 1024 >> 3);
    assert_eq!(e.inode_total, 800);
    assert_eq!(e.block_total, 1600);
    assert_eq!(e.inode_per_bg, 100);
    assert_eq!(e.blk_per_bg, 200);
    assert_eq!(e.block_group_total, 8);
}

#[test]
fn sbi_return_decoding() {
    let ok = SbiRetInto { error: 0, value: 42 }.decode();
    assert_eq!(ok, SbiRet::SbiSuccess { value: 42 });
    assert_eq!(SbiRetInto { error: -1, value: 0 }.decode(), SbiRet::SbiErrFailed);
    assert_eq!(SbiRetInto { error: -2, value: 0 }.decode(), SbiRet::SbiErrNotSupported);
    assert_eq!(SbiRetInto { error: -3, value: 0 }.decode(), SbiRet::SbiErrInvalidParam);
    assert_eq!(SbiRetInto { error: -4, value: 0 }.decode(), SbiRet::SbiErrDenied);
    assert_eq!(SbiRetInto { error: -5, value: 0 }.decode(), SbiRet::SbiErrInvalidAddress);
    assert_eq!(SbiRetInto { error: -6, value: 0 }.decode(), SbiRet::SbiErrAlreadyAvailable);
    assert_eq!(SbiRetInto { error: -7, value: 0 }.decode(), SbiRet::SbiErrAlreadyStarted);
    assert_eq!(SbiRetInto { error: -8, value: 0 }.decode(), SbiRet::SbiErrAlreadyStopped);
}

#[test]
fn file_result_register_coding() {
    assert_eq!(FileResult::from_regs(0, 17), FileResult::Success(17));
    assert_eq!(
        FileResult::from_regs(-1, 0),
        FileResult::Failure(FileErr::FileNotFound)
    );
    assert_eq!(
        FileResult::from_regs(-1, 1),
        FileResult::Failure(FileErr::BufferTooLarge)
    );
    // encoding and decoding round-trip
    for fr in [
        FileResult::Success(99),
        FileResult::Failure(FileErr::FileNotFound),
        FileResult::Failure(FileErr::BufferTooLarge),
    ] {
        let (tag, payload) = fr.to_regs();
        assert_eq!(FileResult::from_regs(tag, payload), fr);
    }
}

#[test]
fn sys_err_codes() {
    assert_eq!(SysErr::NotFound.code(), -1);
    assert_eq!(SysErr::BufferSize.code(), -2);
    assert_eq!(SysErr::OutOfMemory.code(), -3);
}

#[test]
fn tar_octal_size_field() {
    // "00000001750" + NUL, as a tar size field stores 0o1750 == 1000
    let field: Vec<u8> = b"00000001750\0".to_vec();
    assert_eq!(parse_octal(&field), Some(1000));
    let no_nul: Vec<u8> = b"777".to_vec();
    assert_eq!(parse_octal(&no_nul), Some(0o777));
    let bad: Vec<u8> = b"0008\0".to_vec();
    assert_eq!(parse_octal(&bad), None);
    let letters: Vec<u8> = b"12a4\0".to_vec();
    assert_eq!(parse_octal(&letters), None);
}

#[test]
fn tar_sector_arithmetic() {
    assert_eq!(sectors_for(0), 0);
    assert_eq!(sectors_for(1), 1);
    assert_eq!(sectors_for(512), 1);
    assert_eq!(sectors_for(513), 2);
    assert_eq!(sectors_for(1024), 2);
}

#[test]
fn tar_type_bytes() {
    assert_eq!(Type::from_byte(b'0'), Some(Type::File));
    assert_eq!(Type::from_byte(b'1'), Some(Type::Link));
    assert_eq!(Type::from_byte(b'5'), Some(Type::Dir));
    assert_eq!(Type::from_byte(b'g'), Some(Type::GlobalExtHeader));
    assert_eq!(Type::from_byte(b'x'), Some(Type::ExtHeaderNext));
    assert_eq!(Type::from_byte(b'z'), None);
}

#[test]
fn tar_header_magic() {
    let mut header = Tar {
        path_name: vec![0; 100],
        mode: vec![0; 8],
        owner_uid: vec![0; 8],
        group_uid: vec![0; 8],
        size: b"00000001750\0".to_vec(),
        last_mod: vec![0; 12],
        chksum: vec![0; 8],
        ty: Type::File,
        name: vec![0; 100],
        ustar: b"ustar\0".to_vec(),
        usver: b"00".to_vec(),
        owner_username: vec![0; 32],
        owner_groupname: vec![0; 32],
        dev_major_num: vec![0; 8],
        dev_minor_num: vec![0; 8],
        filename_prefix: vec![0; 155],
    };
    assert!(header.is_ustar());
    header.ustar = b"xstar\0".to_vec();
    assert!(!header.is_ustar());
    header.ustar = b"us".to_vec();
    assert!(!header.is_ustar());
}

#[test]
fn fdt_tokens() {
    assert_eq!(FDT_TOKEN::from_u32(1), Some(FDT_TOKEN::BEGIN_NODE));
    assert_eq!(FDT_TOKEN::from_u32(2), Some(FDT_TOKEN::END_NODE));
    assert_eq!(FDT_TOKEN::from_u32(3), Some(FDT_TOKEN::PROP));
    assert_eq!(FDT_TOKEN::from_u32(4), Some(FDT_TOKEN::NOP));
    assert_eq!(FDT_TOKEN::from_u32(9), Some(FDT_TOKEN::END));
    assert_eq!(FDT_TOKEN::from_u32(5), None);
}

#[test]
fn dtree_header_and_reservations() {
    let mut h = DeviceTreeHeader {
        magic: 0xd00dfeed,
        totalsize: 0x1000,
        off_dt_struct: 0x40,
        off_dt_strings: 0x100,
        off_mem_resvmap: 0x30,
        version: 17,
        last_comp_version: 16,
        boot_cpuid_phys: 0,
        size_dt_strings: 0x80,
        size_dt_struct: 0xc0,
    };
    assert!(h.magic_ok());
    h.magic = 0xfeedd00d;
    assert!(!h.magic_ok());

    let blocks = vec![
        MemResBlock { addr: 0x8000_0000, size: 0x1000 },
        MemResBlock { addr: 0x9000_0000, size: 0x2000 },
        MemResBlock { addr: 0, size: 0 },
        MemResBlock { addr: 0xa000_0000, size: 0x3000 },
    ];
    let reserved = jimos_core::dtree::reserved_blocks(&blocks);
    assert_eq!(reserved.len(), 2);
    assert_eq!(reserved[0], blocks[0]);
    assert_eq!(reserved[1], blocks[1]);
    assert!(MemResBlock { addr: 0, size: 0 }.is_zero());
    assert!(!MemResBlock { addr: 1, size: 0 }.is_zero());
}

#[test]
fn interrupt_values() {
    let (sie, deadline) = interrupt_enable();
    assert_eq!(sie, 512 | 32 | 2);
    assert_eq!(deadline, 0xffffff);
    assert_eq!(handle_interrupt(SCAUSE_TIMER, 0, 0, 5000), Some(5000 + 0xffffff));
    assert_eq!(handle_interrupt(8, 0, 0, 5000), None);
}

#[test]
fn register_cells() {
    let mut r: Register<u32, ReadWrite> = Register(0x0f0f, PhantomData);
    assert_eq!(r.read(), 0x0f0f);
    r.write(0x1234);
    assert_eq!(r.read(), 0x1234);
    r.or(0x000f);
    assert_eq!(r.read(), 0x123f);
    r.and(0x00ff);
    assert_eq!(r.read(), 0x003f);
}

#[test]
fn virtqueue_kick_and_busy() {
    let mut q = VirtioVirtualQueue {
        descs: vec![VirtQueueDesc { addr: 0, len: 0, flags: 0, next: 0 }; VIRTQ_ENTRY_NUM],
        available: VirtQueueAvailableRing { flags: 0, index: 0, ringbuf: vec![0; VIRTQ_ENTRY_NUM] },
        used: VirtQueueUsedRing {
            flags: 0,
            index: 0,
            ring: vec![VirtQueueUsedElemnts { id: 0, len: 0 }; VIRTQ_ENTRY_NUM],
        },
        queue_index: 3,
        last_index: 0,
    };
    assert!(!q.is_busy(0));
    let notify = q.kick(5);
    assert_eq!(notify, 3);
    assert_eq!(q.available.ringbuf[0], 5);
    assert_eq!(q.available.index, 1);
    assert_eq!(q.last_index, 1);
    // in flight until the device's used index catches up
    assert!(q.is_busy(0));
    assert!(!q.is_busy(1));
}

#[test]
fn shell_line_discipline() {
    let mut sh = Shell::default();
    assert_eq!(sh.len(), 0);
    assert!(!sh.is_full());
    assert!(sh.push_char(b'h'));
    assert!(sh.push_char(b'i'));
    assert_eq!(sh.contents(), b"hi".to_vec());
    for _ in 0..LINE_MAX - 2 {
        assert!(sh.push_char(b'x'));
    }
    assert!(sh.is_full());
    // a full line refuses further input until reset
    assert!(!sh.push_char(b'y'));
    assert_eq!(sh.len(), LINE_MAX);
    sh.reset();
    assert_eq!(sh.len(), 0);
    assert_eq!(sh.contents(), Vec::<u8>::new());
}

#[test]
fn shell_command_parsing() {
    assert_eq!(parse_command(&b"hello".to_vec()), Some(Command::Hello));
    assert_eq!(parse_command(&b"  hello there".to_vec()), Some(Command::Hello));
    assert_eq!(parse_command(&b"exit".to_vec()), Some(Command::Exit));
    assert_eq!(
        parse_command(&b"read foo.txt".to_vec()),
        Some(Command::ReadFile(b"foo.txt".to_vec()))
    );
    // `read` with no file name is a caller error, as is an empty line
    assert_eq!(parse_command(&b"read".to_vec()), None);
    assert_eq!(parse_command(&b"read   ".to_vec()), None);
    assert_eq!(parse_command(&b"".to_vec()), None);
    assert_eq!(parse_command(&b"   ".to_vec()), None);
    assert_eq!(parse_command(&b"bogus cmd".to_vec()), Some(Command::Invalid));
    // prefixes are not commands
    assert_eq!(parse_command(&b"hell".to_vec()), Some(Command::Invalid));
    assert_eq!(parse_command(&b"hellos".to_vec()), Some(Command::Invalid));
}

#[test]
fn arena_fills_to_capacity() {
    let mut a: Arena<u32> = Arena::new(2);
    assert_eq!(a.insert(10), Ok(0));
    assert_eq!(a.insert(20), Ok(1));
    assert_eq!(a.insert(30), Err(SysErr::OutOfMemory));
}

#[test]
fn free_list_allocates_lowest_first_and_recycles() {
    let mut fl: FreeList<u32> = FreeList::new(3);
    assert_eq!(fl.allocate(100), Ok(0));
    assert_eq!(fl.allocate(200), Ok(1));
    assert_eq!(fl.allocate(300), Ok(2));
    assert_eq!(fl.allocate(400), Err(SysErr::OutOfMemory));
    fl.free(1);
    assert_eq!(fl.allocate(500), Ok(1));
    assert_eq!(fl.allocate(600), Err(SysErr::OutOfMemory));
}
