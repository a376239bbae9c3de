use kcore::ext4::{
    ext4_file_type_to_vfs, ext4_mode_to_vfs, extent_map_block, extent_tree_search,
    load_group_descs, parse_dir_block, parse_superblock, read_block, read_bytes, read_inode,
    read_superblock, DiskImage, Ext4AddressSpaceOps, Ext4FileOps, Ext4Inode, Ext4InodeOps,
    Ext4SbData, Ext4SuperOps, FileType, EXT4_EXTENTS_FL, EXT4_FT_DIR, EXT4_FT_REG_FILE,
};
use kcore::FsError;

fn le16(v: u16) -> [u8; 2] {
    [(v & 0xff) as u8, (v >> 8) as u8]
}

fn le32(v: u32) -> [u8; 4] {
    [
        (v & 0xff) as u8,
        ((v >> 8) & 0xff) as u8,
        ((v >> 16) & 0xff) as u8,
        ((v >> 24) & 0xff) as u8,
    ]
}

/// A leaf extent node: header plus the given extents.
fn leaf_node(extents: &[(u32, u16, u64)], pad_to: usize) -> Vec<u8> {
    let mut b = Vec::new();
    b.extend_from_slice(&le16(0xF30A)); // magic
    b.extend_from_slice(&le16(extents.len() as u16)); // entries
    b.extend_from_slice(&le16(4)); // max
    b.extend_from_slice(&le16(0)); // depth
    b.extend_from_slice(&le32(0)); // generation
    for &(ee_block, ee_len, start) in extents {
        b.extend_from_slice(&le32(ee_block));
        b.extend_from_slice(&le16(ee_len));
        b.extend_from_slice(&le16((start >> 32) as u16));
        b.extend_from_slice(&le32(start as u32));
    }
    while b.len() < pad_to {
        b.push(0);
    }
    b
}

fn inode_with_root(node: &[u8]) -> Ext4Inode {
    let mut i_block = node.to_vec();
    while i_block.len() < 60 {
        i_block.push(0);
    }
    i_block.truncate(60);
    Ext4Inode {
        i_mode: 0o100644,
        i_uid: 0,
        i_size_lo: 0,
        i_mtime: 0,
        i_gid: 0,
        i_links_count: 1,
        i_flags: EXT4_EXTENTS_FL,
        i_block,
        i_size_high: 0,
    }
}

#[test]
fn extent_map_scenario() {
    // Leaf header (magic 0xF30A, entries 1, depth 0), extent
    // {ee_block=0, ee_len=4, ee_start=100}.
    let inode = inode_with_root(&leaf_node(&[(0, 4, 100)], 60));
    let disk = DiskImage { bytes: Vec::new() };
    assert_eq!(extent_map_block(&disk, 1024, &inode, 0), Ok(100));
    assert_eq!(extent_map_block(&disk, 1024, &inode, 3), Ok(103));
    assert_eq!(extent_map_block(&disk, 1024, &inode, 4), Err(FsError::NotFound));
}

#[test]
fn extent_map_requires_extents_flag() {
    let mut inode = inode_with_root(&leaf_node(&[(0, 4, 100)], 60));
    inode.i_flags = 0;
    let disk = DiskImage { bytes: Vec::new() };
    assert_eq!(
        extent_map_block(&disk, 1024, &inode, 0),
        Err(FsError::NotSupported)
    );
}

#[test]
fn extent_bad_magic_is_io_error() {
    let mut node = leaf_node(&[(0, 4, 100)], 60);
    node[0] = 0;
    let disk = DiskImage { bytes: Vec::new() };
    assert_eq!(
        extent_tree_search(&disk, 1024, &node, 0),
        Err(FsError::IoError)
    );
}

#[test]
fn extent_unwritten_flag_stripped() {
    // ee_len with the high bit set: 4 blocks, unwritten.
    let inode = inode_with_root(&leaf_node(&[(0, 0x8004, 100)], 60));
    let disk = DiskImage { bytes: Vec::new() };
    assert_eq!(extent_map_block(&disk, 1024, &inode, 3), Ok(103));
    assert_eq!(extent_map_block(&disk, 1024, &inode, 4), Err(FsError::NotFound));
}

#[test]
fn extent_tree_with_index_level() {
    // A depth-1 root pointing at a leaf stored in device block 3.
    let bs = 1024u32;
    let mut image = vec![0u8; 4 * 1024];
    let leaf = leaf_node(&[(0, 8, 200)], 1024);
    image[3 * 1024..4 * 1024].copy_from_slice(&leaf);

    let mut root = Vec::new();
    root.extend_from_slice(&le16(0xF30A));
    root.extend_from_slice(&le16(1)); // one index entry
    root.extend_from_slice(&le16(4));
    root.extend_from_slice(&le16(1)); // depth 1
    root.extend_from_slice(&le32(0));
    root.extend_from_slice(&le32(0)); // ei_block
    root.extend_from_slice(&le32(3)); // ei_leaf_lo: block 3
    root.extend_from_slice(&le16(0)); // ei_leaf_hi
    root.extend_from_slice(&le16(0)); // unused
    while root.len() < 60 {
        root.push(0);
    }

    let disk = DiskImage { bytes: image };
    assert_eq!(extent_tree_search(&disk, bs, &root, 5), Ok(205));
    assert_eq!(extent_tree_search(&disk, bs, &root, 8), Err(FsError::NotFound));
}

#[test]
fn read_bytes_bounds() {
    let disk = DiskImage { bytes: vec![1, 2, 3, 4, 5] };
    assert_eq!(read_bytes(&disk, 1, 3), Ok(vec![2, 3, 4]));
    assert_eq!(read_bytes(&disk, 3, 3), Err(FsError::IoError));
    assert_eq!(read_block(&disk, 1, 4), Err(FsError::IoError));
    assert_eq!(read_block(&disk, 0, 4), Ok(vec![1, 2, 3, 4]));
}

fn minimal_superblock_image() -> Vec<u8> {
    let mut image = vec![0u8; 4096];
    let sb = 1024;
    image[sb + 0x00..sb + 0x04].copy_from_slice(&le32(32)); // inodes_count
    image[sb + 0x04..sb + 0x08].copy_from_slice(&le32(3)); // blocks lo
    image[sb + 0x14..sb + 0x18].copy_from_slice(&le32(1)); // first_data_block
    image[sb + 0x18..sb + 0x1C].copy_from_slice(&le32(0)); // log_block_size: 1024
    image[sb + 0x20..sb + 0x24].copy_from_slice(&le32(2)); // blocks_per_group
    image[sb + 0x28..sb + 0x2C].copy_from_slice(&le32(16)); // inodes_per_group
    image[sb + 0x38..sb + 0x3A].copy_from_slice(&le16(0xEF53)); // magic
    image
}

#[test]
fn superblock_parse_and_mount_geometry() {
    let image = minimal_superblock_image();
    let disk = DiskImage { bytes: image.clone() };
    let sb = parse_superblock(&image[1024..2048]);
    assert_eq!(sb.s_magic, 0xEF53);
    assert_eq!(sb.s_blocks_per_group, 2);

    let (_sb, d) = read_superblock(&disk).unwrap();
    assert_eq!(d.block_size, 1024);
    assert_eq!(d.inode_size, 128); // rev 0
    assert_eq!(d.desc_size, 32); // s_desc_size == 0
    assert_eq!(d.group_count, 2); // ceil(3 / 2)
    assert_eq!(d.first_data_block, 1);
}

#[test]
fn superblock_bad_magic() {
    let mut image = minimal_superblock_image();
    image[1024 + 0x38] = 0;
    let disk = DiskImage { bytes: image };
    assert_eq!(read_superblock(&disk).map(|_| ()), Err(FsError::IoError));
}

#[test]
fn superblock_rejects_incompat_features() {
    for bit in [0x0001u32, 0x0008, 0x8000, 0x10000] {
        let mut image = minimal_superblock_image();
        image[1024 + 0x60..1024 + 0x64].copy_from_slice(&le32(bit));
        let disk = DiskImage { bytes: image };
        assert_eq!(
            read_superblock(&disk).map(|_| ()),
            Err(FsError::NotSupported)
        );
    }
    // An accepted incompatible bit (FILETYPE, 0x2) mounts.
    let mut image = minimal_superblock_image();
    image[1024 + 0x60..1024 + 0x64].copy_from_slice(&le32(0x2));
    let disk = DiskImage { bytes: image };
    assert!(read_superblock(&disk).is_ok());
}

#[test]
fn group_descs_load() {
    let mut image = minimal_superblock_image();
    // Descriptor table in block 2 (first_data_block + 1); one descriptor
    // per group, 32 bytes each; inode table of group 0 at block 5.
    let gdt = 2048;
    image[gdt + 0x08..gdt + 0x0C].copy_from_slice(&le32(5));
    image[gdt + 32 + 0x08..gdt + 32 + 0x0C].copy_from_slice(&le32(9));
    let disk = DiskImage { bytes: image };
    let (_sb, mut d) = read_superblock(&disk).unwrap();
    load_group_descs(&disk, &mut d).unwrap();
    assert_eq!(d.group_descs.len(), 2);
    assert_eq!(d.group_descs[0].bg_inode_table_lo, 5);
    assert_eq!(d.group_descs[1].bg_inode_table_lo, 9);
}

fn test_sbdata(block_size: u32) -> Ext4SbData {
    Ext4SbData {
        block_size,
        inode_size: 128,
        inodes_per_group: 16,
        blocks_per_group: 2,
        group_count: 1,
        desc_size: 32,
        first_data_block: 1,
        group_descs: Vec::new(),
        inode_cache: Vec::new(),
    }
}

#[test]
fn inode_read_decodes_fields() {
    let mut image = vec![0u8; 8 * 1024];
    let mut d = test_sbdata(1024);
    d.group_descs.push(kcore::ext4::Ext4GroupDesc {
        bg_block_bitmap_lo: 0,
        bg_inode_bitmap_lo: 0,
        bg_inode_table_lo: 5,
        bg_inode_table_hi: 0,
    });
    // Inode 2 lives at table block 5, offset (2-1)*128 = 128.
    let base = 5 * 1024 + 128;
    image[base..base + 2].copy_from_slice(&le16(0o100644)); // mode
    image[base + 4..base + 8].copy_from_slice(&le32(1234)); // size lo
    image[base + 32..base + 36].copy_from_slice(&le32(EXT4_EXTENTS_FL)); // flags
    image[base + 40] = 0x0A; // i_block starts with the extent magic
    image[base + 41] = 0xF3;
    let disk = DiskImage { bytes: image };
    let inode = read_inode(&disk, &mut d, 2).unwrap();
    assert_eq!(inode.i_mode, 0o100644);
    assert_eq!(inode.i_size_lo, 1234);
    assert_eq!(inode.i_flags & EXT4_EXTENTS_FL, EXT4_EXTENTS_FL);
    assert_eq!(inode.i_block.len(), 60);
    assert_eq!(inode.i_block[0], 0x0A);
    // The inode is cached now.
    assert_eq!(d.inode_cache.len(), 1);
    assert_eq!(d.inode_cache[0].0, 2);
    let again = read_inode(&disk, &mut d, 2).unwrap();
    assert_eq!(again.i_size_lo, 1234);
    assert_eq!(d.inode_cache.len(), 1);
}

#[test]
fn file_read_through_extents() {
    // A file whose logical block 0 maps to device block 2.
    let bs = 1024u32;
    let mut image = vec![0u8; 4 * 1024];
    for (i, b) in image[2048..2048 + 16].iter_mut().enumerate() {
        *b = i as u8 + 10;
    }
    let mut inode = inode_with_root(&leaf_node(&[(0, 1, 2)], 60));
    inode.i_size_lo = 12;
    let disk = DiskImage { bytes: image };
    let d = test_sbdata(bs);

    let got = Ext4FileOps::read(&disk, &d, &inode, 3, 5).unwrap();
    assert_eq!(got, vec![13, 14, 15, 16, 17]);
    // Reads stop at the file size.
    let tail = Ext4FileOps::read(&disk, &d, &inode, 10, 100).unwrap();
    assert_eq!(tail, vec![20, 21]);
    let past = Ext4FileOps::read(&disk, &d, &inode, 12, 4).unwrap();
    assert!(past.is_empty());
}

#[test]
fn directory_iteration_and_lookup() {
    // One directory data block in device block 2 with two entries.
    let bs = 1024u32;
    let mut image = vec![0u8; 4 * 1024];
    let blk = 2048;
    // entry 1: inode 11, rec_len 12, name "foo"
    image[blk..blk + 4].copy_from_slice(&le32(11));
    image[blk + 4..blk + 6].copy_from_slice(&le16(12));
    image[blk + 6] = 3;
    image[blk + 7] = EXT4_FT_REG_FILE;
    image[blk + 8..blk + 11].copy_from_slice(b"foo");
    // entry 2: inode 12, rec_len spans to block end, name "bar"
    let e2 = blk + 12;
    image[e2..e2 + 4].copy_from_slice(&le32(12));
    image[e2 + 4..e2 + 6].copy_from_slice(&le16(1012));
    image[e2 + 6] = 3;
    image[e2 + 7] = EXT4_FT_DIR;
    image[e2 + 8..e2 + 11].copy_from_slice(b"bar");

    let entries = parse_dir_block(&image[blk..blk + 1024]);
    assert_eq!(entries.len(), 2);
    assert_eq!(entries[0].inode, 11);
    assert_eq!(entries[0].name, b"foo".to_vec());
    assert_eq!(entries[1].inode, 12);
    assert_eq!(entries[1].name, b"bar".to_vec());

    let mut dir = inode_with_root(&leaf_node(&[(0, 1, 2)], 60));
    dir.i_size_lo = 1024;
    dir.i_mode = 0o040755;
    let disk = DiskImage { bytes: image };
    let d = test_sbdata(bs);
    assert_eq!(Ext4InodeOps::lookup(&disk, &d, &dir, b"bar"), Ok(12));
    assert_eq!(
        Ext4InodeOps::lookup(&disk, &d, &dir, b"baz"),
        Err(FsError::NotFound)
    );
    let listing = Ext4FileOps::readdir(&disk, &d, &dir).unwrap();
    assert_eq!(listing.len(), 2);
    assert_eq!(ext4_file_type_to_vfs(listing[1].file_type), FileType::Directory);
}

#[test]
fn dir_block_stops_at_empty_entry() {
    let mut block = vec![0u8; 64];
    block[0..4].copy_from_slice(&le32(0)); // inode 0 ends iteration
    assert!(parse_dir_block(&block).is_empty());
}

#[test]
fn legacy_layout_not_supported_at_entry_points() {
    // An inode without the extents flag is refused by lookup, readdir
    // and (when bytes are to be read) read.
    let mut dir = inode_with_root(&leaf_node(&[(0, 1, 2)], 60));
    dir.i_flags = 0;
    dir.i_mode = 0o040755;
    dir.i_size_lo = 1024;
    let disk = DiskImage { bytes: vec![0u8; 4096] };
    let d = test_sbdata(1024);
    assert_eq!(
        Ext4InodeOps::lookup(&disk, &d, &dir, b"x"),
        Err(FsError::NotSupported)
    );
    assert_eq!(
        Ext4FileOps::readdir(&disk, &d, &dir).map(|_| ()),
        Err(FsError::NotSupported)
    );
    let mut file = inode_with_root(&leaf_node(&[(0, 1, 2)], 60));
    file.i_flags = 0;
    file.i_size_lo = 10;
    assert_eq!(
        Ext4FileOps::read(&disk, &d, &file, 0, 4),
        Err(FsError::NotSupported)
    );
    // Past the end nothing is read, so nothing is refused.
    assert_eq!(Ext4FileOps::read(&disk, &d, &file, 10, 4), Ok(Vec::new()));
}

#[test]
fn mount_succeeds_iff_root_is_reachable() {
    // The minimal image mounts once its descriptor table points at a
    // readable root inode with the extent magic.
    let mut image = vec![0u8; 8 * 1024];
    image[..4096].copy_from_slice(&minimal_superblock_image());
    let gdt = 2048;
    image[gdt + 0x08..gdt + 0x0C].copy_from_slice(&le32(5)); // group 0 inode table at block 5
    image[gdt + 32 + 0x08..gdt + 32 + 0x0C].copy_from_slice(&le32(5));
    let base = 5 * 1024 + 128; // inode 2: index 1, 128-byte inodes
    image[base..base + 2].copy_from_slice(&le16(0o040755));
    let disk = DiskImage { bytes: image.clone() };
    let (_sb, d, root) = kcore::ext4::ext4_mount_dev(&disk).unwrap();
    assert_eq!(d.group_descs.len(), 2);
    assert_eq!(root.i_mode, 0o040755);

    // Cut the device short of the inode table: the mount fails.
    let short = DiskImage { bytes: image[..4096].to_vec() };
    assert_eq!(
        kcore::ext4::ext4_mount_dev(&short).map(|_| ()),
        Err(FsError::IoError)
    );
}

#[test]
fn readdir_refuses_non_directory() {
    let mut file = inode_with_root(&leaf_node(&[(0, 1, 2)], 60));
    file.i_mode = 0o100644; // a regular file
    let disk = DiskImage { bytes: vec![0u8; 4096] };
    let d = test_sbdata(1024);
    assert_eq!(
        Ext4FileOps::readdir(&disk, &d, &file).map(|_| ()),
        Err(FsError::NotADirectory)
    );
    assert!(ext4_mode_to_vfs(0o040755).is_dir());
    assert!(!ext4_mode_to_vfs(0o100644).is_dir());
}

#[test]
fn write_paths_are_read_only() {
    assert_eq!(Ext4AddressSpaceOps.writepage(), Err(FsError::ReadOnly));
    assert_eq!(Ext4SuperOps.alloc_inode(), Err(FsError::NotSupported));
}

#[test]
fn fs_error_from_errno() {
    assert_eq!(FsError::from_errno(11), FsError::WouldBlock);
    assert_eq!(FsError::from_errno(5), FsError::IoError);
    assert_eq!(FsError::from_errno(104), FsError::IoError);
}

#[test]
fn file_type_mapping() {
    assert_eq!(ext4_file_type_to_vfs(1), FileType::Regular);
    assert_eq!(ext4_file_type_to_vfs(2), FileType::Directory);
    assert_eq!(ext4_file_type_to_vfs(7), FileType::Symlink);
    assert_eq!(ext4_file_type_to_vfs(3), FileType::CharDev);
    assert_eq!(ext4_file_type_to_vfs(4), FileType::BlockDev);
    assert_eq!(ext4_file_type_to_vfs(5), FileType::Fifo);
    assert_eq!(ext4_file_type_to_vfs(6), FileType::Socket);
    assert_eq!(ext4_file_type_to_vfs(0), FileType::Regular);
    assert_eq!(ext4_file_type_to_vfs(99), FileType::Regular);
    assert_eq!(ext4_mode_to_vfs(0o100644).bits, 0o100644);
}

#[test]
fn vfs_inode_attributes() {
    let mut inode = inode_with_root(&leaf_node(&[(0, 4, 100)], 60));
    inode.i_mode = 0o100644;
    inode.i_uid = 1000;
    inode.i_gid = 100;
    inode.i_size_lo = 0x89ABCDEF;
    inode.i_size_high = 0x1;
    inode.i_mtime = 1234567890;
    inode.i_links_count = 2;
    let (mode, uid, gid, size, mtime, nlink, data) = kcore::ext4::create_vfs_inode(&inode, 42);
    assert_eq!(mode.bits, 0o100644);
    assert_eq!(uid, 1000);
    assert_eq!(gid, 100);
    assert_eq!(size, 0x1_89AB_CDEF);
    assert_eq!(mtime, 1234567890);
    assert_eq!(nlink, 2);
    assert_eq!(data.ino, 42);
    assert_eq!(data.extent_data, inode.i_block);
}
