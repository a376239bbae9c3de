//! Read-only ext4: superblock and group-descriptor parsing, inode read,
//! extent-tree block mapping, directory iteration, and the read paths.
//!
//! On-disk structures are decoded by explicit byte offsets with
//! little-endian readers; nothing relies on in-memory struct layout. The
//! block device is modeled as a byte image; a caller adapts a real
//! device by filling the image through its page cache.

use vstd::prelude::*;

use crate::FsError;

verus! {

/// Ext4 superblock magic number.
pub const EXT4_SUPER_MAGIC: u16 = 0xEF53;

/// Byte offset of the superblock on the device.
pub const EXT4_SUPER_OFFSET: u64 = 1024;

/// Root directory inode number.
pub const EXT4_ROOT_INO: u32 = 2;

/// Extent tree node magic number.
pub const EXT4_EXT_MAGIC: u16 = 0xF30A;

/// Inode flag: the inode uses an extent tree.
pub const EXT4_EXTENTS_FL: u32 = 0x00080000;

/// Incompatible feature: compression.
pub const EXT4_FEATURE_INCOMPAT_COMPRESSION: u32 = 0x0001;

/// Incompatible feature: journal on a separate device.
pub const EXT4_FEATURE_INCOMPAT_JOURNAL_DEV: u32 = 0x0008;

/// Incompatible feature: data inline in the inode.
pub const EXT4_FEATURE_INCOMPAT_INLINE_DATA: u32 = 0x8000;

/// Incompatible feature: encryption.
pub const EXT4_FEATURE_INCOMPAT_ENCRYPT: u32 = 0x10000;

/// The incompatible features a read-only mount must reject.
pub const EXT4_INCOMPAT_UNSUPPORTED: u32 = 0x1800_9;

/// Directory entry file type: regular file.
pub const EXT4_FT_REG_FILE: u8 = 1;

/// Directory entry file type: directory.
pub const EXT4_FT_DIR: u8 = 2;

/// Directory entry file type: character device.
pub const EXT4_FT_CHRDEV: u8 = 3;

/// Directory entry file type: block device.
pub const EXT4_FT_BLKDEV: u8 = 4;

/// Directory entry file type: FIFO.
pub const EXT4_FT_FIFO: u8 = 5;

/// Directory entry file type: socket.
pub const EXT4_FT_SOCK: u8 = 6;

/// Directory entry file type: symbolic link.
pub const EXT4_FT_SYMLINK: u8 = 7;

/// Page size of the page cache.
pub const PAGE_SIZE: usize = 4096;

/// The block device contents, as one byte image.
pub struct DiskImage {
    /// Device bytes; the capacity is the image length.
    pub bytes: Vec<u8>,
}

/// The 16-bit value read little-endian at `off`.
pub open spec fn spec_le16(b: Seq<u8>, off: int) -> u16 {
    (((b[off + 1] as u16) << 8) | (b[off] as u16)) as u16
}

/// The 32-bit value read little-endian at `off`.
pub open spec fn spec_le32(b: Seq<u8>, off: int) -> u32 {
    (((b[off + 3] as u32) << 24) | ((b[off + 2] as u32) << 16) | ((b[off + 1] as u32) << 8) | (
    b[off] as u32)) as u32
}

/// Read a 16-bit little-endian value.
pub fn le16(b: &[u8], off: usize) -> (r: u16)
    requires
        off + 2 <= b@.len(),
    ensures
        r == spec_le16(b@, off as int),
{
    let n: usize = b.len();
    proof {
        assert(off + 2 <= n);
    }
    ((b[off + 1] as u16) << 8) | (b[off] as u16)
}

/// Read a 32-bit little-endian value.
pub fn le32(b: &[u8], off: usize) -> (r: u32)
    requires
        off + 4 <= b@.len(),
    ensures
        r == spec_le32(b@, off as int),
{
    let n: usize = b.len();
    proof {
        assert(off + 4 <= n);
    }
    ((b[off + 3] as u32) << 24) | ((b[off + 2] as u32) << 16) | ((b[off + 1] as u32) << 8) | (
    b[off] as u32)
}

/// Read `len` bytes at `offset` from the device image. Fails with an I/O
/// error exactly when the range runs past the capacity.
pub fn read_bytes(disk: &DiskImage, offset: u64, len: usize) -> (r: Result<Vec<u8>, FsError>)
    ensures
        r is Ok <==> offset + len <= disk.bytes@.len(),
        r is Ok ==> r->Ok_0@ == disk.bytes@.subrange(offset as int, offset + len),
        r is Err ==> r->Err_0 == FsError::IoError,
{
    let cap: usize = disk.bytes.len();
    if offset > cap as u64 || len as u64 > cap as u64 - offset {
        return Err(FsError::IoError);
    }
    let start = offset as usize;
    let mut out: Vec<u8> = Vec::new();
    let mut i: usize = 0;
    while i < len
        invariant
            i <= len,
            start == offset,
            cap == disk.bytes@.len(),
            start + len <= cap,
            out@ == disk.bytes@.subrange(start as int, start + i),
        decreases len - i,
    {
        out.push(disk.bytes[start + i]);
        proof {
            assert(out@ =~= disk.bytes@.subrange(start as int, start + i + 1));
        }
        i = i + 1;
    }
    Ok(out)
}

/// Read one filesystem block. Fails with an I/O error exactly when the
/// block lies past the capacity.
pub fn read_block(disk: &DiskImage, block_num: u64, block_size: u32) -> (r: Result<
    Vec<u8>,
    FsError,
>)
    ensures
        r is Ok <==> block_num * block_size + block_size <= disk.bytes@.len(),
        r is Ok ==> r->Ok_0@ == disk.bytes@.subrange(
            block_num * block_size,
            block_num * block_size + block_size,
        ),
        r is Err ==> r->Err_0 == FsError::IoError,
{
    let offset = match block_num.checked_mul(block_size as u64) {
        Some(o) => o,
        None => {
            let cap: usize = disk.bytes.len();
            proof {
                assert(block_num * block_size > u64::MAX);
                assert(cap == disk.bytes@.len());
            }
            return Err(FsError::IoError);
        },
    };
    read_bytes(disk, offset, block_size as usize)
}

/// The superblock fields a read-only mount consumes, decoded from the
/// 1024 bytes at device offset 1024.
#[derive(Clone, Copy, PartialEq, Eq, Structural, Debug)]
pub struct Ext4Superblock {
    /// Total inode count
    pub s_inodes_count: u32,
    /// Total block count (low 32 bits)
    pub s_blocks_count_lo: u32,
    /// Free block count (low 32 bits)
    pub s_free_blocks_count_lo: u32,
    /// First data block
    pub s_first_data_block: u32,
    /// Block size exponent: block size = 1024 << this
    pub s_log_block_size: u32,
    /// Blocks per group
    pub s_blocks_per_group: u32,
    /// Inodes per group
    pub s_inodes_per_group: u32,
    /// Magic signature (0xEF53)
    pub s_magic: u16,
    /// Revision level
    pub s_rev_level: u32,
    /// Inode size
    pub s_inode_size: u16,
    /// Incompatible feature flags
    pub s_feature_incompat: u32,
    /// Group descriptor size
    pub s_desc_size: u16,
    /// Total block count (high 32 bits)
    pub s_blocks_count_hi: u32,
}

/// The superblock fields read from a 1024-byte superblock buffer, at the
/// documented little-endian offsets.
pub open spec fn spec_parse_superblock(b: Seq<u8>) -> Ext4Superblock
    recommends
        b.len() >= 1024,
{
    Ext4Superblock {
        s_inodes_count: spec_le32(b, 0x00),
        s_blocks_count_lo: spec_le32(b, 0x04),
        s_free_blocks_count_lo: spec_le32(b, 0x0C),
        s_first_data_block: spec_le32(b, 0x14),
        s_log_block_size: spec_le32(b, 0x18),
        s_blocks_per_group: spec_le32(b, 0x20),
        s_inodes_per_group: spec_le32(b, 0x28),
        s_magic: spec_le16(b, 0x38),
        s_rev_level: spec_le32(b, 0x4C),
        s_inode_size: spec_le16(b, 0x58),
        s_feature_incompat: spec_le32(b, 0x60),
        s_desc_size: spec_le16(b, 0xFE),
        s_blocks_count_hi: spec_le32(b, 0x150),
    }
}

/// Parse a superblock from its 1024-byte buffer.
pub fn parse_superblock(b: &[u8]) -> (r: Ext4Superblock)
    requires
        b@.len() >= 1024,
    ensures
        r == spec_parse_superblock(b@),
{
    Ext4Superblock {
        s_inodes_count: le32(b, 0x00),
        s_blocks_count_lo: le32(b, 0x04),
        s_free_blocks_count_lo: le32(b, 0x0C),
        s_first_data_block: le32(b, 0x14),
        s_log_block_size: le32(b, 0x18),
        s_blocks_per_group: le32(b, 0x20),
        s_inodes_per_group: le32(b, 0x28),
        s_magic: le16(b, 0x38),
        s_rev_level: le32(b, 0x4C),
        s_inode_size: le16(b, 0x58),
        s_feature_incompat: le32(b, 0x60),
        s_desc_size: le16(b, 0xFE),
        s_blocks_count_hi: le32(b, 0x150),
    }
}

/// The group-descriptor fields the read path consumes.
#[derive(Clone, Copy, PartialEq, Eq, Structural, Debug)]
pub struct Ext4GroupDesc {
    /// Block bitmap block (low 32 bits)
    pub bg_block_bitmap_lo: u32,
    /// Inode bitmap block (low 32 bits)
    pub bg_inode_bitmap_lo: u32,
    /// Inode table block (low 32 bits)
    pub bg_inode_table_lo: u32,
    /// Inode table block (high 32 bits; 0 unless desc_size > 32)
    pub bg_inode_table_hi: u32,
}

/// The group descriptor read at `off` in a buffer: the high half of the
/// inode table address is read at +0x28 only when the descriptor size
/// exceeds 32 bytes.
pub open spec fn spec_parse_group_desc(b: Seq<u8>, off: int, desc_size: u32) -> Ext4GroupDesc {
    Ext4GroupDesc {
        bg_block_bitmap_lo: spec_le32(b, off + 0x00),
        bg_inode_bitmap_lo: spec_le32(b, off + 0x04),
        bg_inode_table_lo: spec_le32(b, off + 0x08),
        bg_inode_table_hi: if desc_size > 32 {
            spec_le32(b, off + 0x28)
        } else {
            0u32
        },
    }
}

/// Parse a group descriptor at `off`.
pub fn parse_group_desc(b: &[u8], off: usize, desc_size: u32) -> (r: Ext4GroupDesc)
    requires
        desc_size > 32 ==> off + 0x2c <= b@.len(),
        desc_size <= 32 ==> off + 0x0c <= b@.len(),
    ensures
        r == spec_parse_group_desc(b@, off as int, desc_size),
{
    let n: usize = b.len();
    proof {
        assert(off + 12 <= n);
    }
    Ext4GroupDesc {
        bg_block_bitmap_lo: le32(b, off),
        bg_inode_bitmap_lo: le32(b, off + 0x04),
        bg_inode_table_lo: le32(b, off + 0x08),
        bg_inode_table_hi: if desc_size > 32 {
            le32(b, off + 0x28)
        } else {
            0
        },
    }
}

/// The on-disk inode fields the read path consumes; `i_block` is the
/// 60-byte region holding the extent tree root.
#[derive(Clone, Debug)]
pub struct Ext4Inode {
    /// File mode
    pub i_mode: u16,
    /// Owner UID (low 16 bits)
    pub i_uid: u16,
    /// File size (low 32 bits)
    pub i_size_lo: u32,
    /// Modification time
    pub i_mtime: u32,
    /// Group ID (low 16 bits)
    pub i_gid: u16,
    /// Hard link count
    pub i_links_count: u16,
    /// Inode flags
    pub i_flags: u32,
    /// Block map / extent tree root (60 bytes)
    pub i_block: Vec<u8>,
    /// File size (high 32 bits)
    pub i_size_high: u32,
}

/// The inode model: plain fields plus the root bytes as a sequence.
pub open spec fn spec_inode_eq(a: Ext4Inode, m: (u16, u16, u32, u32, u16, u16, u32, Seq<u8>, u32)) -> bool {
    &&& a.i_mode == m.0
    &&& a.i_uid == m.1
    &&& a.i_size_lo == m.2
    &&& a.i_mtime == m.3
    &&& a.i_gid == m.4
    &&& a.i_links_count == m.5
    &&& a.i_flags == m.6
    &&& a.i_block@ == m.7
    &&& a.i_size_high == m.8
}

/// The inode fields read at `off` in a buffer, at the documented
/// little-endian offsets: mode at 0, size low at 4, flags at 32, the
/// 60-byte block region at 40, size high at 108.
pub open spec fn spec_parse_inode(b: Seq<u8>, off: int) -> (u16, u16, u32, u32, u16, u16, u32, Seq<
    u8,
>, u32) {
    (
        spec_le16(b, off + 0),
        spec_le16(b, off + 2),
        spec_le32(b, off + 4),
        spec_le32(b, off + 16),
        spec_le16(b, off + 24),
        spec_le16(b, off + 26),
        spec_le32(b, off + 32),
        b.subrange(off + 40, off + 100),
        spec_le32(b, off + 108),
    )
}

/// Parse an on-disk inode at `off`.
pub fn parse_inode(b: &[u8], off: usize) -> (r: Ext4Inode)
    requires
        off + 112 <= b@.len(),
    ensures
        spec_inode_eq(r, spec_parse_inode(b@, off as int)),
{
    let n: usize = b.len();
    proof {
        assert(off + 112 <= n);
    }
    let mut i_block: Vec<u8> = Vec::new();
    let mut i: usize = 0;
    while i < 60
        invariant
            i <= 60,
            off + 112 <= n,
            n == b@.len(),
            i_block@ == b@.subrange(off + 40, off + 40 + i),
        decreases 60 - i,
    {
        i_block.push(b[off + 40 + i]);
        proof {
            assert(i_block@ =~= b@.subrange(off + 40, off + 40 + i + 1));
        }
        i = i + 1;
    }
    Ext4Inode {
        i_mode: le16(b, off),
        i_uid: le16(b, off + 2),
        i_size_lo: le32(b, off + 4),
        i_mtime: le32(b, off + 16),
        i_gid: le16(b, off + 24),
        i_links_count: le16(b, off + 26),
        i_flags: le32(b, off + 32),
        i_block,
        i_size_high: le32(b, off + 108),
    }
}

/// An extent tree node header.
#[derive(Clone, Copy, PartialEq, Eq, Structural, Debug)]
pub struct Ext4ExtentHeader {
    /// Magic number (0xF30A)
    pub eh_magic: u16,
    /// Number of valid entries
    pub eh_entries: u16,
    /// Capacity of entries
    pub eh_max: u16,
    /// Depth of the tree below this node (0 = leaf)
    pub eh_depth: u16,
    /// Generation
    pub eh_generation: u32,
}

/// The extent header at the front of a node.
pub open spec fn spec_parse_extent_header(b: Seq<u8>) -> Ext4ExtentHeader
    recommends
        b.len() >= 12,
{
    Ext4ExtentHeader {
        eh_magic: spec_le16(b, 0),
        eh_entries: spec_le16(b, 2),
        eh_max: spec_le16(b, 4),
        eh_depth: spec_le16(b, 6),
        eh_generation: spec_le32(b, 8),
    }
}

/// Parse the extent header at the front of a node.
pub fn parse_extent_header(b: &[u8]) -> (r: Option<Ext4ExtentHeader>)
    ensures
        r is Some <==> b@.len() >= 12,
        r is Some ==> r->Some_0 == spec_parse_extent_header(b@),
{
    if b.len() < 12 {
        return None;
    }
    Some(
        Ext4ExtentHeader {
            eh_magic: le16(b, 0),
            eh_entries: le16(b, 2),
            eh_max: le16(b, 4),
            eh_depth: le16(b, 6),
            eh_generation: le32(b, 8),
        },
    )
}

/// An internal extent tree entry: the first logical block it covers and
/// the physical block of the child node.
#[derive(Clone, Copy, PartialEq, Eq, Structural, Debug)]
pub struct Ext4ExtentIdx {
    /// First logical block covered
    pub ei_block: u32,
    /// Physical block of the child (low 32 bits)
    pub ei_leaf_lo: u32,
    /// Physical block of the child (high 16 bits)
    pub ei_leaf_hi: u16,
}

/// The index entry at `off` in a node.
pub open spec fn spec_parse_extent_idx(b: Seq<u8>, off: int) -> Ext4ExtentIdx {
    Ext4ExtentIdx {
        ei_block: spec_le32(b, off),
        ei_leaf_lo: spec_le32(b, off + 4),
        ei_leaf_hi: spec_le16(b, off + 8),
    }
}

/// Parse the index entry at `off`.
pub fn parse_extent_idx(b: &[u8], off: usize) -> (r: Ext4ExtentIdx)
    requires
        off + 12 <= b@.len(),
    ensures
        r == spec_parse_extent_idx(b@, off as int),
{
    let n: usize = b.len();
    proof {
        assert(off + 12 <= n);
    }
    Ext4ExtentIdx {
        ei_block: le32(b, off),
        ei_leaf_lo: le32(b, off + 4),
        ei_leaf_hi: le16(b, off + 8),
    }
}

/// A leaf extent: a contiguous run of logical-to-physical mapping. The
/// high bit of `ee_len` marks an unwritten extent.
#[derive(Clone, Copy, PartialEq, Eq, Structural, Debug)]
pub struct Ext4Extent {
    /// First logical block
    pub ee_block: u32,
    /// Number of blocks (the high bit flags unwritten)
    pub ee_len: u16,
    /// Physical start block (high 16 bits)
    pub ee_start_hi: u16,
    /// Physical start block (low 32 bits)
    pub ee_start_lo: u32,
}

/// The leaf extent at `off` in a node.
pub open spec fn spec_parse_extent(b: Seq<u8>, off: int) -> Ext4Extent {
    Ext4Extent {
        ee_block: spec_le32(b, off),
        ee_len: spec_le16(b, off + 4),
        ee_start_hi: spec_le16(b, off + 6),
        ee_start_lo: spec_le32(b, off + 8),
    }
}

/// Parse the leaf extent at `off`.
pub fn parse_extent(b: &[u8], off: usize) -> (r: Ext4Extent)
    requires
        off + 12 <= b@.len(),
    ensures
        r == spec_parse_extent(b@, off as int),
{
    let n: usize = b.len();
    proof {
        assert(off + 12 <= n);
    }
    Ext4Extent {
        ee_block: le32(b, off),
        ee_len: le16(b, off + 4),
        ee_start_hi: le16(b, off + 6),
        ee_start_lo: le32(b, off + 8),
    }
}

impl Ext4Extent {
    /// The run length with the unwritten flag stripped.
    pub open spec fn spec_len_blocks(self) -> int {
        (self.ee_len & 0x7fff) as int
    }

    /// The physical start block.
    pub open spec fn spec_start(self) -> int {
        (self.ee_start_hi as int) * 0x100000000 + self.ee_start_lo as int
    }

    /// Whether this extent covers logical block `l`.
    pub open spec fn spec_covers(self, l: int) -> bool {
        self.ee_block <= l < self.ee_block + self.spec_len_blocks()
    }

    /// The physical block this extent maps logical block `l` to.
    pub open spec fn spec_map(self, l: int) -> int {
        self.spec_start() + (l - self.ee_block)
    }
}

/// In-memory mount state: geometry derived from the superblock, the
/// group-descriptor table loaded once at mount, and the inode cache.
pub struct Ext4SbData {
    /// Block size in bytes (1024 << s_log_block_size).
    pub block_size: u32,
    /// On-disk inode size.
    pub inode_size: u32,
    /// Inodes per group.
    pub inodes_per_group: u32,
    /// Blocks per group.
    pub blocks_per_group: u32,
    /// Number of block groups.
    pub group_count: u32,
    /// Group descriptor size.
    pub desc_size: u32,
    /// First data block (1 for 1K blocks, else 0).
    pub first_data_block: u32,
    /// Cached group descriptors, one per group.
    pub group_descs: Vec<Ext4GroupDesc>,
    /// Inode cache, keyed by inode number.
    pub inode_cache: Vec<(u32, Ext4Inode)>,
}

/// The number of block groups: total blocks (64-bit) divided by blocks
/// per group, rounded up.
pub open spec fn spec_group_count(sb: Ext4Superblock) -> int {
    let total = (sb.s_blocks_count_hi as int) * 0x100000000 + sb.s_blocks_count_lo as int;
    total / (sb.s_blocks_per_group as int) + if total % (sb.s_blocks_per_group as int) != 0 {
        1int
    } else {
        0int
    }
}

/// Whether a parsed superblock passes the mount validation: the magic
/// matches, no rejected incompatible feature is set, and the geometry
/// fields are usable.
pub open spec fn spec_sb_valid(sb: Ext4Superblock) -> bool {
    &&& sb.s_magic == EXT4_SUPER_MAGIC
    &&& sb.s_feature_incompat & EXT4_INCOMPAT_UNSUPPORTED == 0
    &&& sb.s_log_block_size <= 12
    &&& sb.s_blocks_per_group != 0
    &&& spec_group_count(sb) <= u32::MAX
    &&& (sb.s_desc_size == 0 || sb.s_desc_size == 32 || 64 <= sb.s_desc_size)
    &&& (if sb.s_desc_size == 0 {
        32int
    } else {
        sb.s_desc_size as int
    }) <= (1024u32 << sb.s_log_block_size)
}

/// Read and validate the superblock at device offset 1024, deriving the
/// mount geometry. A short device or a bad magic is an I/O error; a
/// rejected incompatible feature (compression, encryption, inline data,
/// journal device) is not supported; degenerate geometry (an oversized
/// block-size exponent, zero blocks per group, an overflowing group
/// count) is an I/O error. All other incompatible features are accepted
/// for read-only use.
pub fn read_superblock(disk: &DiskImage) -> (r: Result<(Ext4Superblock, Ext4SbData), FsError>)
    ensures
        r is Ok <==> 2048 <= disk.bytes@.len() && spec_sb_valid(
            spec_parse_superblock(disk.bytes@.subrange(1024, 2048)),
        ),
        r is Ok ==> {
            let sb = spec_parse_superblock(disk.bytes@.subrange(1024, 2048));
            let d = r->Ok_0.1;
            &&& r->Ok_0.0 == sb
            &&& d.block_size == (1024u32 << sb.s_log_block_size)
            &&& d.inode_size == if sb.s_rev_level == 0 {
                128int
            } else {
                sb.s_inode_size as int
            }
            &&& d.inodes_per_group == sb.s_inodes_per_group
            &&& d.blocks_per_group == sb.s_blocks_per_group
            &&& d.group_count == spec_group_count(sb)
            &&& d.desc_size == if sb.s_desc_size == 0 {
                32int
            } else {
                sb.s_desc_size as int
            }
            &&& d.first_data_block == sb.s_first_data_block
            &&& d.group_descs@.len() == 0
            &&& d.inode_cache@.len() == 0
            &&& 1024 <= d.block_size <= 0x400000
        },
        r is Err ==> r->Err_0 == if 2048 <= disk.bytes@.len() && spec_parse_superblock(
            disk.bytes@.subrange(1024, 2048),
        ).s_magic == EXT4_SUPER_MAGIC && spec_parse_superblock(
            disk.bytes@.subrange(1024, 2048),
        ).s_feature_incompat & EXT4_INCOMPAT_UNSUPPORTED != 0 {
            FsError::NotSupported
        } else {
            FsError::IoError
        },
{
    let sb_buf = match read_bytes(disk, EXT4_SUPER_OFFSET, 1024) {
        Ok(b) => b,
        Err(_) => {
            return Err(FsError::IoError);
        },
    };
    let sb = parse_superblock(sb_buf.as_slice());
    if sb.s_magic != EXT4_SUPER_MAGIC {
        return Err(FsError::IoError);
    }
    if sb.s_feature_incompat & EXT4_INCOMPAT_UNSUPPORTED != 0 {
        return Err(FsError::NotSupported);
    }
    if sb.s_log_block_size > 12 {
        return Err(FsError::IoError);
    }
    let log: u32 = sb.s_log_block_size;
    let block_size: u32 = 1024u32 << log;
    proof {
        assert(1024 <= block_size <= 0x400000) by (bit_vector)
            requires
                block_size == 1024u32 << log,
                log <= 12,
        ;
    }
    let inode_size: u32 = if sb.s_rev_level == 0 {
        128
    } else {
        sb.s_inode_size as u32
    };
    let desc_size: u32 = if sb.s_desc_size == 0 {
        32
    } else {
        sb.s_desc_size as u32
    };
    if sb.s_blocks_per_group == 0 {
        return Err(FsError::IoError);
    }
    if !(sb.s_desc_size == 0 || sb.s_desc_size == 32 || sb.s_desc_size >= 64) {
        return Err(FsError::IoError);
    }
    if desc_size > block_size {
        return Err(FsError::IoError);
    }
    let hi: u32 = sb.s_blocks_count_hi;
    let lo: u32 = sb.s_blocks_count_lo;
    let total_blocks: u64 = ((hi as u64) << 32) | (lo as u64);
    proof {
        assert(total_blocks == (hi as int) * 0x100000000 + lo as int) by (bit_vector)
            requires
                total_blocks == ((hi as u64) << 32) | (lo as u64),
        ;
    }
    let bpg: u64 = sb.s_blocks_per_group as u64;
    let q: u64 = total_blocks / bpg;
    if q > u32::MAX as u64 {
        return Err(FsError::IoError);
    }
    let group_count_u64: u64 = q + (if total_blocks % bpg != 0 {
        1
    } else {
        0
    });
    if group_count_u64 > u32::MAX as u64 {
        return Err(FsError::IoError);
    }
    let sb_data = Ext4SbData {
        block_size,
        inode_size,
        inodes_per_group: sb.s_inodes_per_group,
        blocks_per_group: sb.s_blocks_per_group,
        group_count: group_count_u64 as u32,
        desc_size,
        first_data_block: sb.s_first_data_block,
        group_descs: Vec::new(),
        inode_cache: Vec::new(),
    };
    Ok((sb, sb_data))
}

/// Where group descriptor `g` lives on disk: the descriptor table starts
/// in the block after the first data block.
pub open spec fn spec_group_desc_pos(d: Ext4SbData, g: int) -> int
    recommends
        d.desc_size > 0,
        d.block_size > 0,
{
    let dpb = d.block_size as int / d.desc_size as int;
    let blk = d.first_data_block + 1 + g / dpb;
    blk * d.block_size + (g % dpb) * d.desc_size
}

/// The group descriptor `g` parses to on this device.
pub open spec fn spec_group_desc_at(disk: Seq<u8>, d: Ext4SbData, g: int) -> Ext4GroupDesc {
    spec_parse_group_desc(disk, spec_group_desc_pos(d, g), d.desc_size)
}

/// The device byte just past the descriptor-table block holding group
/// `g`'s descriptor.
pub open spec fn spec_gdt_block_end(d: Ext4SbData, g: int) -> int {
    let dpb = d.block_size as int / d.desc_size as int;
    (d.first_data_block + 1 + g / dpb) * d.block_size + d.block_size
}

/// Every descriptor-table block the table needs lies within the device.
pub open spec fn spec_gdt_in_range(disk: Seq<u8>, d: Ext4SbData) -> bool {
    forall|g: int| 0 <= g < d.group_count ==> #[trigger] spec_gdt_block_end(d, g) <= disk.len()
}

/// Load the group-descriptor table, one descriptor per group, from the
/// blocks following the superblock. Fails with an I/O error exactly when
/// a descriptor lies past the device; nothing is stored then.
#[verifier::loop_isolation(false)]
pub fn load_group_descs(disk: &DiskImage, d: &mut Ext4SbData) -> (r: Result<(), FsError>)
    requires
        old(d).desc_size == 32 || old(d).desc_size >= 64,
        old(d).desc_size <= old(d).block_size,
        old(d).block_size >= 1024,
    ensures
        final(d).block_size == old(d).block_size,
        final(d).inode_size == old(d).inode_size,
        final(d).inodes_per_group == old(d).inodes_per_group,
        final(d).blocks_per_group == old(d).blocks_per_group,
        final(d).group_count == old(d).group_count,
        final(d).desc_size == old(d).desc_size,
        final(d).first_data_block == old(d).first_data_block,
        final(d).inode_cache@ == old(d).inode_cache@,
        r is Ok <==> spec_gdt_in_range(disk.bytes@, *old(d)),
        r is Ok ==> {
            &&& final(d).group_descs@.len() == old(d).group_count
            &&& (forall|g: int|
                0 <= g < old(d).group_count ==> #[trigger] final(d).group_descs@[g]
                    == spec_group_desc_at(disk.bytes@, *old(d), g))
        },
        r is Err ==> r->Err_0 == FsError::IoError && final(d).group_descs@ == old(d).group_descs@,
{
    proof {
        assert(d.block_size / d.desc_size >= 1) by (nonlinear_arith)
            requires
                d.block_size >= d.desc_size,
                d.desc_size >= 32,
        ;
    }
    let descs_per_block: u32 = d.block_size / d.desc_size;
    let gdt_block: u64 = d.first_data_block as u64 + 1;
    let mut descs: Vec<Ext4GroupDesc> = Vec::new();
    let mut g: u32 = 0;
    while g < d.group_count
        invariant
            g <= d.group_count,
            descs_per_block == d.block_size / d.desc_size,
            descs_per_block >= 1,
            gdt_block == d.first_data_block + 1,
            *d == *old(d),
            descs@.len() == g,
            forall|k: int|
                0 <= k < g ==> #[trigger] descs@[k] == spec_group_desc_at(
                    disk.bytes@,
                    *old(d),
                    k,
                ),
            forall|k: int|
                0 <= k < g ==> #[trigger] spec_gdt_block_end(*old(d), k) <= disk.bytes@.len(),
        decreases d.group_count - g,
    {
        let block_offset: u32 = g / descs_per_block;
        proof {
            assert((g % descs_per_block) * d.desc_size + d.desc_size <= d.block_size) by (nonlinear_arith)
                requires
                    descs_per_block == d.block_size / d.desc_size,
                    g % descs_per_block < descs_per_block,
                    d.desc_size >= 32,
                    d.block_size >= 1024,
            ;
        }
        let desc_offset: u32 = (g % descs_per_block) * d.desc_size;
        let block_data = match read_block(disk, gdt_block + block_offset as u64, d.block_size) {
            Ok(b) => b,
            Err(_) => {
                proof {
                    assert(spec_gdt_block_end(*old(d), g as int) > disk.bytes@.len());
                }
                return Err(FsError::IoError);
            },
        };
        let desc = parse_group_desc(block_data.as_slice(), desc_offset as usize, d.desc_size);
        proof {
            let pos = spec_group_desc_pos(*old(d), g as int);
            let base = (gdt_block + block_offset) as int * d.block_size as int;
            assert(pos == base + desc_offset) by (nonlinear_arith)
                requires
                    pos == (d.first_data_block + 1 + g / descs_per_block) * d.block_size + (g
                        % descs_per_block) * d.desc_size,
                    base == (gdt_block + block_offset) * d.block_size,
                    gdt_block == d.first_data_block + 1,
                    block_offset == g / descs_per_block,
                    desc_offset == (g % descs_per_block) * d.desc_size,
            ;
            assert(block_data@ == disk.bytes@.subrange(base, base + d.block_size));
            assert forall|j: int|
                0 <= j < 0x2c && desc_offset + j < d.block_size implies #[trigger] block_data@[
                desc_offset + j] == disk.bytes@[pos + j] by {
                assert(block_data@[desc_offset + j] == disk.bytes@.subrange(
                    base,
                    base + d.block_size,
                )[desc_offset + j]);
            }
            assert(desc == spec_group_desc_at(disk.bytes@, *old(d), g as int));
        }
        descs.push(desc);
        g = g + 1;
    }
    d.group_descs = descs;
    Ok(())
}

/// The value the first matching inode number maps to in the cache.
pub open spec fn spec_cache_get(s: Seq<(u32, Ext4Inode)>, ino: u32) -> Option<Ext4Inode>
    decreases s.len(),
{
    if s.len() == 0 {
        None
    } else if s[0].0 == ino {
        Some(s[0].1)
    } else {
        spec_cache_get(s.skip(1), ino)
    }
}

impl Ext4SbData {
    /// Look up an inode in the cache.
    fn cache_lookup(&self, ino: u32) -> (r: Option<Ext4Inode>)
        ensures
            r is Some <==> spec_cache_get(self.inode_cache@, ino) is Some,
            r is Some ==> spec_inode_eq(
                r->Some_0,
                spec_inode_model(spec_cache_get(self.inode_cache@, ino)->0),
            ),
    {
        let n: usize = self.inode_cache.len();
        proof {
            assert(self.inode_cache@.skip(0) =~= self.inode_cache@);
        }
        let mut i: usize = 0;
        while i < n
            invariant
                n == self.inode_cache@.len(),
                i <= n,
                spec_cache_get(self.inode_cache@, ino) == spec_cache_get(
                    self.inode_cache@.skip(i as int),
                    ino,
                ),
            decreases n - i,
        {
            let pair = &self.inode_cache[i];
            proof {
                assert(self.inode_cache@.skip(i as int)[0] == self.inode_cache@[i as int]);
                assert(self.inode_cache@.skip(i as int).skip(1) =~= self.inode_cache@.skip(i + 1));
            }
            if pair.0 == ino {
                return Some(clone_inode(&pair.1));
            }
            i = i + 1;
        }
        None
    }
}

/// The plain-field model of an inode value.
pub open spec fn spec_inode_model(a: Ext4Inode) -> (u16, u16, u32, u32, u16, u16, u32, Seq<u8>, u32) {
    (
        a.i_mode,
        a.i_uid,
        a.i_size_lo,
        a.i_mtime,
        a.i_gid,
        a.i_links_count,
        a.i_flags,
        a.i_block@,
        a.i_size_high,
    )
}

/// A fresh copy of an inode value.
pub fn clone_inode(a: &Ext4Inode) -> (r: Ext4Inode)
    ensures
        spec_inode_eq(r, spec_inode_model(*a)),
{
    Ext4Inode {
        i_mode: a.i_mode,
        i_uid: a.i_uid,
        i_size_lo: a.i_size_lo,
        i_mtime: a.i_mtime,
        i_gid: a.i_gid,
        i_links_count: a.i_links_count,
        i_flags: a.i_flags,
        i_block: crate::tcp::copy_bytes(&a.i_block),
        i_size_high: a.i_size_high,
    }
}

/// Where inode `ino` lives on disk: its group's inode table plus the
/// in-group offset, split into a block number and a byte offset.
pub open spec fn spec_inode_block(d: Ext4SbData, gd: Ext4GroupDesc, ino: u32) -> int
    recommends
        d.inodes_per_group > 0,
        d.block_size > 0,
        ino >= 1,
{
    let index = ((ino - 1) as int) % (d.inodes_per_group as int);
    (gd.bg_inode_table_hi as int) * 0x100000000 + gd.bg_inode_table_lo + (index
        * (d.inode_size as int)) / (d.block_size as int)
}

/// The byte offset of inode `ino` within its block.
pub open spec fn spec_inode_offset(d: Ext4SbData, ino: u32) -> int
    recommends
        d.inodes_per_group > 0,
        d.block_size > 0,
        ino >= 1,
{
    (((ino - 1) as int) % (d.inodes_per_group as int) * d.inode_size) % (d.block_size as int)
}

/// An uncached inode can be read: its group has a loaded descriptor,
/// its block number fits, its record fits its block, and its block lies
/// on the device.
pub open spec fn spec_inode_loc_ok(disk: Seq<u8>, d: Ext4SbData, ino: u32) -> bool
    recommends
        d.inodes_per_group > 0,
        d.block_size > 0,
        ino >= 1,
{
    let group = ((ino - 1) as int) / (d.inodes_per_group as int);
    &&& group < d.group_descs@.len()
    &&& spec_inode_block(d, d.group_descs@[group], ino) <= u64::MAX
    &&& spec_inode_offset(d, ino) + 112 <= d.block_size
    &&& spec_inode_block(d, d.group_descs@[group], ino) * d.block_size + d.block_size
        <= disk.len()
}

/// Read an inode, through the cache: a cached inode is returned as is;
/// otherwise the inode is located through its group descriptor, decoded
/// from its block and cached. Fails with an I/O error exactly when the
/// group descriptor is missing, the inode's block number overflows or
/// lies past the device, or the inode does not fit its block.
#[verifier::loop_isolation(false)]
pub fn read_inode(disk: &DiskImage, d: &mut Ext4SbData, ino: u32) -> (r: Result<Ext4Inode, FsError>)
    requires
        ino >= 1,
        old(d).inodes_per_group > 0,
        1024 <= old(d).block_size <= 0x400000,
        old(d).inode_size >= 112,
    ensures
        final(d).block_size == old(d).block_size,
        final(d).inode_size == old(d).inode_size,
        final(d).inodes_per_group == old(d).inodes_per_group,
        final(d).blocks_per_group == old(d).blocks_per_group,
        final(d).group_count == old(d).group_count,
        final(d).desc_size == old(d).desc_size,
        final(d).first_data_block == old(d).first_data_block,
        final(d).group_descs@ == old(d).group_descs@,
        spec_cache_get(old(d).inode_cache@, ino) is Some ==> {
            &&& r is Ok
            &&& spec_inode_eq(r->Ok_0, spec_inode_model(spec_cache_get(old(d).inode_cache@, ino)->0))
            &&& final(d).inode_cache@ == old(d).inode_cache@
        },
        spec_cache_get(old(d).inode_cache@, ino) is None ==> (r is Ok <==> spec_inode_loc_ok(
            disk.bytes@,
            *old(d),
            ino,
        )),
        spec_cache_get(old(d).inode_cache@, ino) is None && r is Ok ==> {
            let gd = old(d).group_descs@[((ino - 1) as int) / (old(d).inodes_per_group as int)];
            let blk = spec_inode_block(*old(d), gd, ino);
            let off = spec_inode_offset(*old(d), ino);
            &&& ((ino - 1) as int) / (old(d).inodes_per_group as int) < old(d).group_descs@.len()
            &&& spec_inode_eq(
                r->Ok_0,
                spec_parse_inode(
                    disk.bytes@.subrange(blk * old(d).block_size, blk * old(d).block_size + old(
                        d,
                    ).block_size),
                    off,
                ),
            )
            &&& final(d).inode_cache@.len() == old(d).inode_cache@.len() + 1
            &&& final(d).inode_cache@.last().0 == ino
            &&& spec_inode_eq(r->Ok_0, spec_inode_model(final(d).inode_cache@.last().1))
        },
        r is Err ==> r->Err_0 == FsError::IoError && final(d).inode_cache@ == old(d).inode_cache@,
{
    match d.cache_lookup(ino) {
        Some(inode) => {
            return Ok(inode);
        },
        None => {},
    }
    let group: u32 = (ino - 1) / d.inodes_per_group;
    let index: u32 = (ino - 1) % d.inodes_per_group;
    if group as usize >= d.group_descs.len() {
        proof {
            assert(!spec_inode_loc_ok(disk.bytes@, *old(d), ino));
        }
        return Err(FsError::IoError);
    }
    let gd = d.group_descs[group as usize];
    let it_hi: u32 = gd.bg_inode_table_hi;
    let it_lo: u32 = gd.bg_inode_table_lo;
    let inode_table: u64 = ((it_hi as u64) << 32) | (it_lo as u64);
    proof {
        assert(inode_table == (it_hi as int) * 0x100000000 + it_lo as int) by (bit_vector)
            requires
                inode_table == ((it_hi as u64) << 32) | (it_lo as u64),
        ;
    }
    proof {
        assert((index as int) * (d.inode_size as int) <= u64::MAX) by (nonlinear_arith)
            requires
                index <= u32::MAX,
                d.inode_size <= u32::MAX,
        ;
    }
    let byte_pos: u64 = (index as u64) * (d.inode_size as u64);
    let block_in_table: u64 = byte_pos / (d.block_size as u64);
    let inode_block: u64 = match inode_table.checked_add(block_in_table) {
        Some(b) => b,
        None => {
            proof {
                assert(spec_inode_block(*old(d), gd, ino) > u64::MAX);
                assert(!spec_inode_loc_ok(disk.bytes@, *old(d), ino));
            }
            return Err(FsError::IoError);
        },
    };
    let inode_offset: u32 = (byte_pos % (d.block_size as u64)) as u32;
    proof {
        assert(byte_pos % (d.block_size as u64) < d.block_size);
    }
    proof {
        assert(spec_inode_offset(*old(d), ino) == inode_offset);
        assert(spec_inode_block(*old(d), gd, ino) == inode_block);
    }
    if inode_offset + 112 > d.block_size {
        proof {
            assert(!spec_inode_loc_ok(disk.bytes@, *old(d), ino));
        }
        return Err(FsError::IoError);
    }
    let block_data = match read_block(disk, inode_block, d.block_size) {
        Ok(b) => b,
        Err(_) => {
            proof {
                assert(!spec_inode_loc_ok(disk.bytes@, *old(d), ino));
            }
            return Err(FsError::IoError);
        },
    };
    proof {
        assert(spec_inode_loc_ok(disk.bytes@, *old(d), ino));
    }
    let inode = parse_inode(block_data.as_slice(), inode_offset as usize);
    let copy = clone_inode(&inode);
    d.inode_cache.push((ino, copy));
    Ok(inode)
}

/// What searching an extent-tree node yields for a logical block: the
/// physical block of the covering leaf extent, `NotFound` for a hole,
/// an I/O error for a malformed node (bad magic, entries past the node,
/// a child block past the device, or a child whose depth does not
/// decrease).
pub open spec fn spec_extent_search(disk: Seq<u8>, bs: u32, node: Seq<u8>, l: int) -> Result<
    int,
    FsError,
>
    decreases (if node.len() >= 12 {
        spec_parse_extent_header(node).eh_depth as int
    } else {
        0int
    }),
{
    if node.len() < 12 {
        Err(FsError::IoError)
    } else {
        let h = spec_parse_extent_header(node);
        if h.eh_magic != EXT4_EXT_MAGIC {
            Err(FsError::IoError)
        } else if 12 + (h.eh_entries as int) * 12 > node.len() {
            Err(FsError::IoError)
        } else if h.eh_depth == 0 {
            spec_leaf_scan(node, h.eh_entries as int, 0, l)
        } else {
            match spec_find_index(node, h.eh_entries as int, 0, l) {
                None => Err(FsError::NotFound),
                Some(i) => {
                    let idx = spec_parse_extent_idx(node, 12 + i * 12);
                    let child_blk = (idx.ei_leaf_hi as int) * 0x100000000 + idx.ei_leaf_lo;
                    if child_blk * bs + bs > disk.len() {
                        Err(FsError::IoError)
                    } else {
                        let child = disk.subrange(child_blk * bs, child_blk * bs + bs);
                        if child.len() < 12 {
                            Err(FsError::IoError)
                        } else if spec_parse_extent_header(child).eh_depth >= h.eh_depth {
                            Err(FsError::IoError)
                        } else {
                            spec_extent_search(disk, bs, child, l)
                        }
                    }
                },
            }
        }
    }
}

/// Scan the leaf extents of a node from entry `i` on: the first extent
/// covering `l` maps it; a miss is a hole.
pub open spec fn spec_leaf_scan(node: Seq<u8>, entries: int, i: int, l: int) -> Result<
    int,
    FsError,
>
    decreases entries - i,
{
    if i >= entries {
        Err(FsError::NotFound)
    } else {
        let e = spec_parse_extent(node, 12 + i * 12);
        if e.spec_covers(l) {
            Ok(e.spec_map(l))
        } else {
            spec_leaf_scan(node, entries, i + 1, l)
        }
    }
}

/// The first index entry from `i` on whose range `[ei_block, next
/// ei_block)` holds `l` (the last entry's range is unbounded above).
pub open spec fn spec_find_index(node: Seq<u8>, entries: int, i: int, l: int) -> Option<int>
    decreases entries - i,
{
    if i >= entries {
        None
    } else {
        let e = spec_parse_extent_idx(node, 12 + i * 12);
        let upper_ok = if i + 1 < entries {
            l < spec_parse_extent_idx(node, 12 + (i + 1) * 12).ei_block
        } else {
            true
        };
        if e.ei_block <= l && upper_ok {
            Some(i)
        } else {
            spec_find_index(node, entries, i + 1, l)
        }
    }
}

/// Search the extent tree rooted at `node` for the physical block
/// mapping logical block `logical`.
#[verifier::loop_isolation(false)]
pub fn extent_tree_search(disk: &DiskImage, block_size: u32, node: &[u8], logical: u64) -> (r:
    Result<u64, FsError>)
    ensures
        ({
            let sr = spec_extent_search(disk.bytes@, block_size, node@, logical as int);
            match r {
                Ok(p) => sr == Ok::<int, FsError>(p as int),
                Err(e) => sr == Err::<int, FsError>(e),
            }
        }),
    decreases (if node@.len() >= 12 {
        spec_parse_extent_header(node@).eh_depth as int
    } else {
        0int
    }),
{
    let h = match parse_extent_header(node) {
        Some(h) => h,
        None => {
            return Err(FsError::IoError);
        },
    };
    if h.eh_magic != EXT4_EXT_MAGIC {
        return Err(FsError::IoError);
    }
    let entries: usize = h.eh_entries as usize;
    let node_len: usize = node.len();
    if entries > (node_len - 12) / 12 {
        proof {
            assert(12 + (h.eh_entries as int) * 12 > node@.len()) by (nonlinear_arith)
                requires
                    h.eh_entries > (node@.len() - 12) / 12,
                    node@.len() >= 12,
            ;
        }
        return Err(FsError::IoError);
    }
    proof {
        assert(12 + (h.eh_entries as int) * 12 <= node@.len()) by (nonlinear_arith)
            requires
                h.eh_entries <= (node@.len() - 12) / 12,
                node@.len() >= 12,
        ;
    }
    if h.eh_depth == 0 {
        let mut i: usize = 0;
        while i < entries
            invariant
                i <= entries,
                spec_leaf_scan(node@, entries as int, 0, logical as int) == spec_leaf_scan(
                    node@,
                    entries as int,
                    i as int,
                    logical as int,
                ),
            decreases entries - i,
        {
            let e = parse_extent(node, 12 + i * 12);
            let len_blocks: u16 = e.ee_len & 0x7fff;
            let start_block: u64 = e.ee_block as u64;
            if logical >= start_block && logical < start_block + len_blocks as u64 {
                let st_hi: u16 = e.ee_start_hi;
                let st_lo: u32 = e.ee_start_lo;
                let phys_start: u64 = ((st_hi as u64) << 32) | (st_lo as u64);
                proof {
                    assert(phys_start == (st_hi as int) * 0x100000000 + st_lo as int)
                        by (bit_vector)
                        requires
                            phys_start == ((st_hi as u64) << 32) | (st_lo as u64),
                    ;
                    assert(phys_start == e.spec_start());
                    assert(e.spec_covers(logical as int));
                }
                return Ok(phys_start + (logical - start_block));
            }
            i = i + 1;
        }
        return Err(FsError::NotFound);
    }
    let mut i: usize = 0;
    while i < entries
        invariant
            i <= entries,
            spec_find_index(node@, entries as int, 0, logical as int) == spec_find_index(
                node@,
                entries as int,
                i as int,
                logical as int,
            ),
        decreases entries - i,
    {
        let idx = parse_extent_idx(node, 12 + i * 12);
        let upper_ok: bool = if i + 1 < entries {
            logical < parse_extent_idx(node, 12 + (i + 1) * 12).ei_block as u64
        } else {
            true
        };
        if idx.ei_block as u64 <= logical && upper_ok {
            let lf_hi: u16 = idx.ei_leaf_hi;
            let lf_lo: u32 = idx.ei_leaf_lo;
            let child_blk: u64 = ((lf_hi as u64) << 32) | (lf_lo as u64);
            proof {
                assert(child_blk == (lf_hi as int) * 0x100000000 + lf_lo as int) by (bit_vector)
                    requires
                        child_blk == ((lf_hi as u64) << 32) | (lf_lo as u64),
                ;
            }
            let child = match read_block(disk, child_blk, block_size) {
                Ok(b) => b,
                Err(_) => {
                    return Err(FsError::IoError);
                },
            };
            let ch = match parse_extent_header(child.as_slice()) {
                Some(ch) => ch,
                None => {
                    return Err(FsError::IoError);
                },
            };
            if ch.eh_depth >= h.eh_depth {
                return Err(FsError::IoError);
            }
            return extent_tree_search(disk, block_size, child.as_slice(), logical);
        }
        i = i + 1;
    }
    Err(FsError::NotFound)
}

/// Map a logical block of a file through its extent tree. An inode
/// without the extents flag (the legacy indirect layout) is not
/// supported.
pub fn extent_map_block(disk: &DiskImage, block_size: u32, inode: &Ext4Inode, logical_block: u64) -> (r: Result<u64, FsError>)
    ensures
        inode.i_flags & EXT4_EXTENTS_FL == 0 ==> r == Err::<u64, FsError>(FsError::NotSupported),
        inode.i_flags & EXT4_EXTENTS_FL != 0 ==> ({
            let sr = spec_extent_search(disk.bytes@, block_size, inode.i_block@, logical_block as int);
            match r {
                Ok(p) => sr == Ok::<int, FsError>(p as int),
                Err(e) => sr == Err::<int, FsError>(e),
            }
        }),
{
    if inode.i_flags & EXT4_EXTENTS_FL == 0 {
        return Err(FsError::NotSupported);
    }
    extent_tree_search(disk, block_size, inode.i_block.as_slice(), logical_block)
}

/// A directory entry: inode number, record length, file type and name.
#[derive(Clone, Debug)]
pub struct Ext4DirEntry2 {
    /// Inode number
    pub inode: u32,
    /// Record length, advancing to the next entry
    pub rec_len: u16,
    /// Name length
    pub name_len: u8,
    /// File type
    pub file_type: u8,
    /// Name bytes
    pub name: Vec<u8>,
}

/// The model of a directory entry: plain fields and name bytes.
pub open spec fn spec_dirent_model(e: Ext4DirEntry2) -> (u32, u16, u8, u8, Seq<u8>) {
    (e.inode, e.rec_len, e.name_len, e.file_type, e.name@)
}

/// The models of a parsed entry vector.
pub open spec fn spec_dirents_model(s: Seq<Ext4DirEntry2>) -> Seq<(u32, u16, u8, u8, Seq<u8>)> {
    s.map(|i: int, e: Ext4DirEntry2| spec_dirent_model(e))
}

/// The entries of a directory block from `off` on. Iteration stops at an
/// entry with inode 0 or record length 0, at an entry whose header or
/// name runs past the block, and at the block end.
pub open spec fn spec_parse_dir_block(b: Seq<u8>, off: int) -> Seq<(u32, u16, u8, u8, Seq<u8>)>
    decreases b.len() - off,
{
    if off < 0 || off + 8 > b.len() {
        Seq::empty()
    } else {
        let inode = spec_le32(b, off);
        let rec_len = spec_le16(b, off + 4);
        let name_len = b[off + 6];
        let file_type = b[off + 7];
        if inode == 0 || rec_len == 0 {
            Seq::empty()
        } else if off + 8 + name_len > b.len() {
            Seq::empty()
        } else {
            seq![(inode, rec_len, name_len, file_type, b.subrange(off + 8, off + 8 + name_len))]
                + (if off + rec_len + 8 <= b.len() {
                spec_parse_dir_block(b, off + rec_len)
            } else {
                Seq::empty()
            })
        }
    }
}

/// Parse the entries of one directory block.
#[verifier::loop_isolation(false)]
pub fn parse_dir_block(b: &[u8]) -> (r: Vec<Ext4DirEntry2>)
    ensures
        spec_dirents_model(r@) == spec_parse_dir_block(b@, 0),
    {
    let n: usize = b.len();
    let mut out: Vec<Ext4DirEntry2> = Vec::new();
    let mut off: usize = 0;
    loop
        invariant
            off <= n + 0xffff,
            n == b@.len(),
            spec_parse_dir_block(b@, 0) == spec_dirents_model(out@) + spec_parse_dir_block(
                b@,
                off as int,
            ),
        decreases n - off,
    {
        if off >= n || n - off < 8 {
            proof {
                assert(spec_parse_dir_block(b@, off as int) =~~= Seq::<(
                    u32,
                    u16,
                    u8,
                    u8,
                    Seq<u8>,
                )>::empty());
                assert(spec_parse_dir_block(b@, 0) =~~= spec_dirents_model(out@));
            }
            return out;
        }
        let inode = le32(b, off);
        let rec_len = le16(b, off + 4);
        let name_len = b[off + 6];
        let file_type = b[off + 7];
        if inode == 0 || rec_len == 0 {
            proof {
                assert(spec_parse_dir_block(b@, off as int) =~~= Seq::<(
                    u32,
                    u16,
                    u8,
                    u8,
                    Seq<u8>,
                )>::empty());
                assert(spec_parse_dir_block(b@, 0) =~~= spec_dirents_model(out@));
            }
            return out;
        }
        if name_len as usize > n - off - 8 {
            proof {
                assert(spec_parse_dir_block(b@, off as int) =~~= Seq::<(
                    u32,
                    u16,
                    u8,
                    u8,
                    Seq<u8>,
                )>::empty());
                assert(spec_parse_dir_block(b@, 0) =~~= spec_dirents_model(out@));
            }
            return out;
        }
        let mut name: Vec<u8> = Vec::new();
        let mut k: usize = 0;
        while k < name_len as usize
            invariant
                k <= name_len,
                off + 8 + name_len <= n,
                name@ == b@.subrange(off + 8, off + 8 + k),
            decreases name_len - k,
        {
            name.push(b[off + 8 + k]);
            proof {
                assert(name@ =~= b@.subrange(off + 8, off + 8 + k + 1));
            }
            k = k + 1;
        }
        let entry = Ext4DirEntry2 { inode, rec_len, name_len, file_type, name };
        out.push(entry);
        proof {
            assert(spec_dirents_model(out@) =~~= spec_dirents_model(out@.drop_last()).push((
                inode,
                rec_len,
                name_len,
                file_type,
                b@.subrange(off + 8, off + 8 + name_len),
            )));
            if off + rec_len + 8 > b@.len() {
                assert(spec_parse_dir_block(b@, off + rec_len) =~~= Seq::<(
                    u32,
                    u16,
                    u8,
                    u8,
                    Seq<u8>,
                )>::empty());
            }
            assert(spec_parse_dir_block(b@, 0) =~~= spec_dirents_model(out@)
                + spec_parse_dir_block(b@, off + rec_len));
        }
        if rec_len as usize > n - off {
            proof {
                assert(spec_parse_dir_block(b@, off + rec_len) =~~= Seq::<(
                    u32,
                    u16,
                    u8,
                    u8,
                    Seq<u8>,
                )>::empty());
                assert(spec_parse_dir_block(b@, 0) =~~= spec_dirents_model(out@));
            }
            return out;
        }
        off = off + rec_len as usize;
    }
}

/// VFS file types a directory entry can name.
#[derive(Clone, Copy, PartialEq, Eq, Structural, Debug)]
pub enum FileType {
    /// Regular file
    Regular,
    /// Directory
    Directory,
    /// Symbolic link
    Symlink,
    /// Character device
    CharDev,
    /// Block device
    BlockDev,
    /// FIFO
    Fifo,
    /// Socket
    Socket,
}

/// The VFS file type an on-disk directory-entry type maps to; anything
/// unknown is treated as a regular file.
pub open spec fn spec_file_type(ft: u8) -> FileType {
    if ft == EXT4_FT_DIR {
        FileType::Directory
    } else if ft == EXT4_FT_SYMLINK {
        FileType::Symlink
    } else if ft == EXT4_FT_CHRDEV {
        FileType::CharDev
    } else if ft == EXT4_FT_BLKDEV {
        FileType::BlockDev
    } else if ft == EXT4_FT_FIFO {
        FileType::Fifo
    } else if ft == EXT4_FT_SOCK {
        FileType::Socket
    } else {
        FileType::Regular
    }
}

/// Map an on-disk directory-entry file type to a VFS file type.
pub fn ext4_file_type_to_vfs(ft: u8) -> (r: FileType)
    ensures
        r == spec_file_type(ft),
{
    if ft == EXT4_FT_DIR {
        FileType::Directory
    } else if ft == EXT4_FT_SYMLINK {
        FileType::Symlink
    } else if ft == EXT4_FT_CHRDEV {
        FileType::CharDev
    } else if ft == EXT4_FT_BLKDEV {
        FileType::BlockDev
    } else if ft == EXT4_FT_FIFO {
        FileType::Fifo
    } else if ft == EXT4_FT_SOCK {
        FileType::Socket
    } else {
        FileType::Regular
    }
}

/// A VFS inode mode word.
#[derive(Clone, Copy, PartialEq, Eq, Structural, Debug)]
pub struct InodeMode {
    /// The mode bits, as stored on disk.
    pub bits: u16,
}

/// Convert an on-disk inode mode to the VFS mode word.
pub fn ext4_mode_to_vfs(mode: u16) -> (r: InodeMode)
    ensures
        r.bits == mode,
{
    InodeMode { bits: mode }
}

/// Whether a mode word names a directory.
pub open spec fn spec_mode_is_dir(mode: u16) -> bool {
    mode & 0xf000 == 0x4000
}

impl InodeMode {
    /// Whether this mode names a directory.
    pub fn is_dir(&self) -> (r: bool)
        ensures
            r == spec_mode_is_dir(self.bits),
    {
        self.bits & 0xf000 == 0x4000
    }
}

/// Per-VFS-inode ext4 state: the inode number and the 60-byte snapshot
/// of the block region used as the extent-tree root.
#[derive(Clone, Debug)]
pub struct Ext4InodeData {
    /// Ext4 inode number
    pub ino: u32,
    /// Cached extent tree root (the 60 i_block bytes)
    pub extent_data: Vec<u8>,
}

/// Extract what a VFS inode is created from: the mode word, owner and
/// group, combined 64-bit size, modification time and link count, plus
/// the per-inode ext4 state (the inode number and the 60-byte snapshot
/// of the extent-tree root). Wrapping these in the VFS's reference-
/// counted inode object is the VFS layer's side.
pub fn create_vfs_inode(inode: &Ext4Inode, ino: u32) -> (r: (
    InodeMode,
    u32,
    u32,
    u64,
    u32,
    u16,
    Ext4InodeData,
))
    ensures
        r.0.bits == inode.i_mode,
        r.1 == inode.i_uid,
        r.2 == inode.i_gid,
        r.3 == spec_inode_size(*inode),
        r.4 == inode.i_mtime,
        r.5 == inode.i_links_count,
        r.6.ino == ino,
        r.6.extent_data@ == inode.i_block@,
{
    let mode = ext4_mode_to_vfs(inode.i_mode);
    let size = size_of_inode(inode);
    let data = Ext4InodeData { ino, extent_data: crate::tcp::copy_bytes(&inode.i_block) };
    (mode, inode.i_uid as u32, inode.i_gid as u32, size, inode.i_mtime, inode.i_links_count, data)
}

/// The file size of an inode: high and low halves combined.
pub open spec fn spec_inode_size(inode: Ext4Inode) -> int {
    (inode.i_size_high as int) * 0x100000000 + inode.i_size_lo as int
}

/// The first matching name among directory-entry models, scanning in
/// order; the result is the entry's inode number.
pub open spec fn spec_dirents_find(s: Seq<(u32, u16, u8, u8, Seq<u8>)>, name: Seq<u8>) -> Option<
    u32,
>
    decreases s.len(),
{
    if s.len() == 0 {
        None
    } else if s[0].4 == name {
        Some(s[0].0)
    } else {
        spec_dirents_find(s.skip(1), name)
    }
}

/// Find `name` among the parsed entries of one directory block.
fn dirents_find(entries: &Vec<Ext4DirEntry2>, name: &[u8]) -> (r: Option<u32>)
    ensures
        r == spec_dirents_find(spec_dirents_model(entries@), name@),
{
    let n: usize = entries.len();
    proof {
        assert(spec_dirents_model(entries@).skip(0) =~~= spec_dirents_model(entries@));
    }
    let mut i: usize = 0;
    while i < n
        invariant
            n == entries@.len(),
            i <= n,
            spec_dirents_find(spec_dirents_model(entries@), name@) == spec_dirents_find(
                spec_dirents_model(entries@).skip(i as int),
                name@,
            ),
        decreases n - i,
    {
        let e = &entries[i];
        proof {
            assert(spec_dirents_model(entries@).skip(i as int)[0] == spec_dirent_model(
                entries@[i as int],
            ));
            assert(spec_dirents_model(entries@).skip(i as int).skip(1) =~~= spec_dirents_model(
                entries@,
            ).skip(i + 1));
        }
        if bytes_eq(&e.name, name) {
            return Some(e.inode);
        }
        i = i + 1;
    }
    None
}

/// Whether a vector holds exactly the bytes of a slice.
fn bytes_eq(a: &Vec<u8>, b: &[u8]) -> (r: bool)
    ensures
        r == (a@ == b@),
{
    if a.len() != b.len() {
        proof {
            assert(a@.len() != b@.len());
        }
        return false;
    }
    let n: usize = a.len();
    let mut i: usize = 0;
    while i < n
        invariant
            n == a@.len(),
            n == b@.len(),
            i <= n,
            forall|j: int| 0 <= j < i ==> a@[j] == b@[j],
        decreases n - i,
    {
        if a[i] != b[i] {
            return false;
        }
        i = i + 1;
    }
    proof {
        assert(a@ =~= b@);
    }
    true
}

/// The number of data blocks a file of `size` bytes spans.
pub open spec fn spec_block_count(size: int, bs: u32) -> int
    recommends
        bs > 0,
{
    size / (bs as int) + if size % (bs as int) != 0 {
        1int
    } else {
        0int
    }
}

/// The directory entries of blocks `i` up to `n`, through the extent
/// tree, concatenated in block order; an unmappable or unreadable block
/// is an error.
pub open spec fn spec_dir_blocks(
    disk: Seq<u8>,
    bs: u32,
    root: Seq<u8>,
    i: int,
    n: int,
) -> Result<Seq<(u32, u16, u8, u8, Seq<u8>)>, FsError>
    decreases n - i,
{
    if i >= n {
        Ok(Seq::empty())
    } else {
        match spec_extent_search(disk, bs, root, i) {
            Err(e) => Err(e),
            Ok(p) => if p * bs + bs > disk.len() || p < 0 {
                Err(FsError::IoError)
            } else {
                match spec_dir_blocks(disk, bs, root, i + 1, n) {
                    Err(e) => Err(e),
                    Ok(rest) => Ok(
                        spec_parse_dir_block(disk.subrange(p * bs, p * bs + bs), 0) + rest,
                    ),
                }
            },
        }
    }
}

/// The inode number `name` resolves to in the directory's blocks `i` up
/// to `n`: the first matching entry wins, block by block; a directory
/// without the name is `NotFound`.
pub open spec fn spec_dir_lookup(
    disk: Seq<u8>,
    bs: u32,
    root: Seq<u8>,
    name: Seq<u8>,
    i: int,
    n: int,
) -> Result<u32, FsError>
    decreases n - i,
{
    if i >= n {
        Err(FsError::NotFound)
    } else {
        match spec_extent_search(disk, bs, root, i) {
            Err(e) => Err(e),
            Ok(p) => if p * bs + bs > disk.len() || p < 0 {
                Err(FsError::IoError)
            } else {
                match spec_dirents_find(
                    spec_parse_dir_block(disk.subrange(p * bs, p * bs + bs), 0),
                    name,
                ) {
                    Some(ino) => Ok(ino),
                    None => spec_dir_lookup(disk, bs, root, name, i + 1, n),
                }
            },
        }
    }
}

/// Ext4 implementation of the VFS inode operations.
pub struct Ext4InodeOps;

impl Ext4InodeOps {
    /// Look a name up in a directory: walk the directory's blocks in
    /// order through the extent tree and return the inode number of the
    /// first entry whose name matches; `NotFound` when no entry does.
    /// An inode without the extents flag (the legacy indirect layout) is
    /// not supported; errors from the extent map or the device propagate.
    #[verifier::loop_isolation(false)]
    pub fn lookup(
        disk: &DiskImage,
        d: &Ext4SbData,
        dir_inode: &Ext4Inode,
        name: &[u8],
    ) -> (r: Result<u32, FsError>)
        requires
            1024 <= d.block_size,
        ensures
            dir_inode.i_flags & EXT4_EXTENTS_FL == 0 ==> r == Err::<u32, FsError>(
                FsError::NotSupported,
            ),
            dir_inode.i_flags & EXT4_EXTENTS_FL != 0 ==> r == spec_dir_lookup(
                disk.bytes@,
                d.block_size,
                dir_inode.i_block@,
                name@,
                0,
                spec_block_count(spec_inode_size(*dir_inode), d.block_size),
            ),
    {
        if dir_inode.i_flags & EXT4_EXTENTS_FL == 0 {
            return Err(FsError::NotSupported);
        }
        let bs: u64 = d.block_size as u64;
        let file_size: u64 = size_of_inode(dir_inode);
        proof {
            assert(file_size / bs < u64::MAX) by (nonlinear_arith)
                requires
                    bs >= 1024,
                    file_size <= u64::MAX,
            ;
        }
        let num_blocks: u64 = file_size / bs + (if file_size % bs != 0 {
            1
        } else {
            0
        });
        let mut block_idx: u64 = 0;
        while block_idx < num_blocks
            invariant
                block_idx <= num_blocks,
                num_blocks == spec_block_count(spec_inode_size(*dir_inode), d.block_size),
                spec_dir_lookup(
                    disk.bytes@,
                    d.block_size,
                    dir_inode.i_block@,
                    name@,
                    0,
                    num_blocks as int,
                ) == spec_dir_lookup(
                    disk.bytes@,
                    d.block_size,
                    dir_inode.i_block@,
                    name@,
                    block_idx as int,
                    num_blocks as int,
                ),
            decreases num_blocks - block_idx,
        {
            let phys = match extent_map_block(disk, d.block_size, dir_inode, block_idx) {
                Ok(p) => p,
                Err(e) => {
                    return Err(e);
                },
            };
            let block_data = match read_block(disk, phys, d.block_size) {
                Ok(b) => b,
                Err(e) => {
                    return Err(e);
                },
            };
            let entries = parse_dir_block(block_data.as_slice());
            match dirents_find(&entries, name) {
                Some(ino) => {
                    return Ok(ino);
                },
                None => {},
            }
            block_idx = block_idx + 1;
        }
        Err(FsError::NotFound)
    }

    /// Read the block backing one page of a file: map the page's first
    /// logical block through the extent tree and return that block's
    /// bytes. A hole surfaces as the extent map's `NotFound`.
    pub fn readpage(disk: &DiskImage, d: &Ext4SbData, inode: &Ext4Inode, page_offset: u64) -> (r:
        Result<Vec<u8>, FsError>)
        requires
            1024 <= d.block_size,
            page_offset * PAGE_SIZE <= u64::MAX,
        ensures
            ({
                let logical = page_offset * PAGE_SIZE / d.block_size as int;
                if inode.i_flags & EXT4_EXTENTS_FL == 0 {
                    r == Err::<Vec<u8>, FsError>(FsError::NotSupported)
                } else {
                    match spec_extent_search(
                        disk.bytes@,
                        d.block_size,
                        inode.i_block@,
                        logical,
                    ) {
                        Ok(p) => if p * d.block_size + d.block_size <= disk.bytes@.len() {
                            r is Ok && r->Ok_0@ == disk.bytes@.subrange(
                                p * d.block_size,
                                p * d.block_size + d.block_size,
                            )
                        } else {
                            r == Err::<Vec<u8>, FsError>(FsError::IoError)
                        },
                        Err(e) => r == Err::<Vec<u8>, FsError>(e),
                    }
                }
            }),
    {
        let logical: u64 = (page_offset * PAGE_SIZE as u64) / d.block_size as u64;
        let phys = match extent_map_block(disk, d.block_size, inode, logical) {
            Ok(p) => p,
            Err(e) => {
                return Err(e);
            },
        };
        read_block(disk, phys, d.block_size)
    }
}

/// The 64-bit size of an inode.
pub fn size_of_inode(inode: &Ext4Inode) -> (r: u64)
    ensures
        r == spec_inode_size(*inode),
{
    let hi: u32 = inode.i_size_high;
    let lo: u32 = inode.i_size_lo;
    let r: u64 = ((hi as u64) << 32) | (lo as u64);
    proof {
        assert(r == (hi as int) * 0x100000000 + lo as int) by (bit_vector)
            requires
                r == ((hi as u64) << 32) | (lo as u64),
        ;
    }
    r
}

/// Ext4 implementation of the VFS file operations.
pub struct Ext4FileOps;

/// What reading `want` bytes at `pos` from a file yields: chunks copied
/// from the blocks the extent tree maps, an error when a block cannot be
/// mapped or read.
pub open spec fn spec_file_read(disk: Seq<u8>, bs: u32, root: Seq<u8>, pos: int, want: int) -> Result<Seq<u8>, FsError>
    recommends
        bs >= 1024,
    decreases want,
{
    if want <= 0 {
        Ok(Seq::empty())
    } else if bs == 0 {
        Err(FsError::IoError)
    } else {
        let lb = pos / (bs as int);
        let off = pos % (bs as int);
        let chunk = if bs - off < want {
            bs - off
        } else {
            want
        };
        match spec_extent_search(disk, bs, root, lb) {
            Err(e) => Err(e),
            Ok(p) => if p * bs + bs > disk.len() || p < 0 {
                Err(FsError::IoError)
            } else {
                match spec_file_read(disk, bs, root, pos + chunk, want - chunk) {
                    Err(e) => Err(e),
                    Ok(rest) => Ok(disk.subrange(p * bs + off, p * bs + off + chunk) + rest),
                }
            },
        }
    }
}

impl Ext4FileOps {
    /// Read up to `buf_len` bytes at `pos`: nothing past the file size,
    /// and at most the bytes remaining, copied block by block through
    /// the extent tree. An inode without the extents flag is not
    /// supported when there are bytes to read.
    #[verifier::loop_isolation(false)]
    pub fn read(
        disk: &DiskImage,
        d: &Ext4SbData,
        inode: &Ext4Inode,
        pos: u64,
        buf_len: usize,
    ) -> (r: Result<Vec<u8>, FsError>)
        requires
            1024 <= d.block_size <= 0x400000,
            spec_inode_size(*inode) + d.block_size <= u64::MAX,
        ensures
            pos >= spec_inode_size(*inode) ==> r is Ok && r->Ok_0@ == Seq::<u8>::empty(),
            pos < spec_inode_size(*inode) && inode.i_flags & EXT4_EXTENTS_FL == 0 ==> r == Err::<
                Vec<u8>,
                FsError,
            >(FsError::NotSupported),
            pos < spec_inode_size(*inode) && inode.i_flags & EXT4_EXTENTS_FL != 0 ==> {
                let want: int = if buf_len <= spec_inode_size(*inode) - pos {
                    buf_len as int
                } else {
                    spec_inode_size(*inode) - pos
                };
                match spec_file_read(disk.bytes@, d.block_size, inode.i_block@, pos as int, want) {
                    Ok(data) => r is Ok && r->Ok_0@ == data,
                    Err(e) => r == Err::<Vec<u8>, FsError>(e),
                }
            },
    {
        let file_size: u64 = size_of_inode(inode);
        if pos >= file_size {
            return Ok(Vec::new());
        }
        if inode.i_flags & EXT4_EXTENTS_FL == 0 {
            return Err(FsError::NotSupported);
        }
        let avail: u64 = file_size - pos;
        let want: u64 = if (buf_len as u64) <= avail {
            buf_len as u64
        } else {
            avail
        };
        let bs: u64 = d.block_size as u64;
        let mut out: Vec<u8> = Vec::new();
        let mut cur: u64 = pos;
        let mut remaining: u64 = want;
        let ghost want0: int = want as int;
        while remaining > 0
            invariant
                cur == pos + (want - remaining),
                remaining <= want,
                bs == d.block_size,
                1024 <= d.block_size <= 0x400000,
                pos + want <= u64::MAX,
                inode.i_flags & EXT4_EXTENTS_FL != 0,
                ({
                    match spec_file_read(
                        disk.bytes@,
                        d.block_size,
                        inode.i_block@,
                        pos as int,
                        want as int,
                    ) {
                        Ok(data) => spec_file_read(
                            disk.bytes@,
                            d.block_size,
                            inode.i_block@,
                            cur as int,
                            remaining as int,
                        ) is Ok && data == out@ + spec_file_read(
                            disk.bytes@,
                            d.block_size,
                            inode.i_block@,
                            cur as int,
                            remaining as int,
                        )->Ok_0,
                        Err(e) => spec_file_read(
                            disk.bytes@,
                            d.block_size,
                            inode.i_block@,
                            cur as int,
                            remaining as int,
                        ) == Err::<Seq<u8>, FsError>(e),
                    }
                }),
            decreases remaining,
        {
            let lb: u64 = cur / bs;
            let off: u64 = cur % bs;
            let chunk: u64 = if bs - off < remaining {
                bs - off
            } else {
                remaining
            };
            let phys = match extent_map_block(disk, d.block_size, inode, lb) {
                Ok(p) => p,
                Err(e) => {
                    return Err(e);
                },
            };
            let block_data = match read_block(disk, phys, d.block_size) {
                Ok(b) => b,
                Err(_) => {
                    return Err(FsError::IoError);
                },
            };
            let mut k: usize = 0;
            let ghost out0 = out@;
            while k < chunk as usize
                invariant
                    k <= chunk,
                    off + chunk <= bs,
                    block_data@.len() == bs,
                    out@ == out0 + block_data@.subrange(off as int, off + k),
                decreases chunk - k,
            {
                out.push(block_data[off as usize + k]);
                proof {
                    assert(out@ =~= out0 + block_data@.subrange(off as int, off + k + 1));
                }
                k = k + 1;
            }
            proof {
                let p = phys as int;
                let bsi = d.block_size as int;
                assert(block_data@.subrange(off as int, off + chunk) =~= disk.bytes@.subrange(
                    p * bsi + off,
                    p * bsi + off + chunk,
                ));
                assert(out@ =~= out0 + disk.bytes@.subrange(p * bsi + off, p * bsi + off + chunk));
            }
            cur = cur + chunk;
            remaining = remaining - chunk;
        }
        proof {
            assert(spec_file_read(
                disk.bytes@,
                d.block_size,
                inode.i_block@,
                cur as int,
                0,
            ) == Ok::<Seq<u8>, FsError>(Seq::empty()));
            assert(spec_file_read(disk.bytes@, d.block_size, inode.i_block@, pos as int, want as int) is Ok
                ==> spec_file_read(disk.bytes@, d.block_size, inode.i_block@, pos as int, want as int)->Ok_0
                =~= out@);
        }
        Ok(out)
    }

    /// List a directory: the entries of every data block, in block
    /// order. A non-directory inode is refused; an inode without the
    /// extents flag is not supported; errors from the extent map or the
    /// device propagate.
    #[verifier::loop_isolation(false)]
    pub fn readdir(disk: &DiskImage, d: &Ext4SbData, inode: &Ext4Inode) -> (r: Result<
        Vec<Ext4DirEntry2>,
        FsError,
    >)
        requires
            1024 <= d.block_size,
        ensures
            !spec_mode_is_dir(inode.i_mode) ==> r == Err::<Vec<Ext4DirEntry2>, FsError>(
                FsError::NotADirectory,
            ),
            spec_mode_is_dir(inode.i_mode) && inode.i_flags & EXT4_EXTENTS_FL == 0 ==> r == Err::<
                Vec<Ext4DirEntry2>,
                FsError,
            >(FsError::NotSupported),
            spec_mode_is_dir(inode.i_mode) && inode.i_flags & EXT4_EXTENTS_FL != 0 ==> ({
                let sr = spec_dir_blocks(
                    disk.bytes@,
                    d.block_size,
                    inode.i_block@,
                    0,
                    spec_block_count(spec_inode_size(*inode), d.block_size),
                );
                match sr {
                    Ok(entries) => r is Ok && spec_dirents_model(r->Ok_0@) == entries,
                    Err(e) => r == Err::<Vec<Ext4DirEntry2>, FsError>(e),
                }
            }),
    {
        let mode = InodeMode { bits: inode.i_mode };
        if !mode.is_dir() {
            return Err(FsError::NotADirectory);
        }
        if inode.i_flags & EXT4_EXTENTS_FL == 0 {
            return Err(FsError::NotSupported);
        }
        let bs: u64 = d.block_size as u64;
        let file_size: u64 = size_of_inode(inode);
        proof {
            assert(file_size / bs < u64::MAX) by (nonlinear_arith)
                requires
                    bs >= 1024,
                    file_size <= u64::MAX,
            ;
        }
        let num_blocks: u64 = file_size / bs + (if file_size % bs != 0 {
            1
        } else {
            0
        });
        let mut out: Vec<Ext4DirEntry2> = Vec::new();
        let mut block_idx: u64 = 0;
        while block_idx < num_blocks
            invariant
                block_idx <= num_blocks,
                num_blocks == spec_block_count(spec_inode_size(*inode), d.block_size),
                ({
                    let whole = spec_dir_blocks(
                        disk.bytes@,
                        d.block_size,
                        inode.i_block@,
                        0,
                        num_blocks as int,
                    );
                    let rest = spec_dir_blocks(
                        disk.bytes@,
                        d.block_size,
                        inode.i_block@,
                        block_idx as int,
                        num_blocks as int,
                    );
                    match whole {
                        Ok(entries) => rest is Ok && entries == spec_dirents_model(out@)
                            + rest->Ok_0,
                        Err(e) => rest == Err::<Seq<(u32, u16, u8, u8, Seq<u8>)>, FsError>(e),
                    }
                }),
            decreases num_blocks - block_idx,
        {
            let phys = match extent_map_block(disk, d.block_size, inode, block_idx) {
                Ok(p) => p,
                Err(e) => {
                    return Err(e);
                },
            };
            let block_data = match read_block(disk, phys, d.block_size) {
                Ok(b) => b,
                Err(e) => {
                    return Err(e);
                },
            };
            let mut entries = parse_dir_block(block_data.as_slice());
            let ghost out_pre = out@;
            let ghost entries_pre = entries@;
            out.append(&mut entries);
            proof {
                assert(spec_dirents_model(out@) =~~= spec_dirents_model(out_pre)
                    + spec_dirents_model(entries_pre));
            }
            block_idx = block_idx + 1;
        }
        Ok(out)
    }
}

/// Ext4 implementation of the VFS superblock operations.
pub struct Ext4SuperOps;

impl Ext4SuperOps {
    /// Allocating inodes is refused: the filesystem is read-only.
    pub fn alloc_inode(&self) -> (r: Result<u32, FsError>)
        ensures
            r == Err::<u32, FsError>(FsError::NotSupported),
    {
        Err(FsError::NotSupported)
    }
}

/// Ext4 address-space operations: raw device pages for the page cache.
pub struct Ext4AddressSpaceOps;

impl Ext4AddressSpaceOps {
    /// Read one page-cache page straight from the device.
    pub fn readpage(disk: &DiskImage, page_offset: u64) -> (r: Result<Vec<u8>, FsError>)
        requires
            page_offset * PAGE_SIZE + PAGE_SIZE <= u64::MAX,
        ensures
            r is Ok <==> page_offset * PAGE_SIZE + PAGE_SIZE <= disk.bytes@.len(),
            r is Ok ==> r->Ok_0@ == disk.bytes@.subrange(
                page_offset * PAGE_SIZE,
                page_offset * PAGE_SIZE + PAGE_SIZE,
            ),
    {
        read_bytes(disk, page_offset * (PAGE_SIZE as u64), PAGE_SIZE)
    }

    /// Writing pages is refused: the filesystem is read-only.
    pub fn writepage(&self) -> (r: Result<usize, FsError>)
        ensures
            r == Err::<usize, FsError>(FsError::ReadOnly),
    {
        Err(FsError::ReadOnly)
    }
}

/// The device byte just past the descriptor-table block holding group
/// `g`'s descriptor, derived from the superblock alone.
pub open spec fn spec_sb_gdt_end(sb: Ext4Superblock, g: int) -> int {
    let bs = (1024u32 << sb.s_log_block_size) as int;
    let ds = if sb.s_desc_size == 0 {
        32int
    } else {
        sb.s_desc_size as int
    };
    (sb.s_first_data_block + 1 + g / (bs / ds)) * bs + bs
}

/// A device mounts: its superblock is valid with a usable inode size and
/// inode count, every descriptor-table block lies on the device, and the
/// root inode (inode 2) can be located and read through its group's
/// descriptor.
pub open spec fn spec_mount_ok(disk: Seq<u8>) -> bool {
    &&& 2048 <= disk.len()
    &&& spec_sb_valid(spec_parse_superblock(disk.subrange(1024, 2048)))
    &&& ({
        let sb = spec_parse_superblock(disk.subrange(1024, 2048));
        let bs = (1024u32 << sb.s_log_block_size) as int;
        let ds = if sb.s_desc_size == 0 {
            32int
        } else {
            sb.s_desc_size as int
        };
        let isz = if sb.s_rev_level == 0 {
            128int
        } else {
            sb.s_inode_size as int
        };
        let ipg = sb.s_inodes_per_group as int;
        &&& isz >= 112
        &&& ipg != 0
        &&& (forall|g: int|
            0 <= g < spec_group_count(sb) ==> #[trigger] spec_sb_gdt_end(sb, g) <= disk.len())
        &&& ({
            let group = ((EXT4_ROOT_INO - 1) as int) / ipg;
            let dpb = bs / ds;
            let pos = (sb.s_first_data_block + 1 + group / dpb) * bs + (group % dpb) * ds;
            let gd = spec_parse_group_desc(
                disk,
                pos,
                if sb.s_desc_size == 0 {
                    32u32
                } else {
                    sb.s_desc_size as u32
                },
            );
            let index = ((EXT4_ROOT_INO - 1) as int) % ipg;
            let blk = (gd.bg_inode_table_hi as int) * 0x100000000 + gd.bg_inode_table_lo + (index
                * isz) / bs;
            &&& group < spec_group_count(sb)
            &&& blk <= u64::MAX
            &&& (index * isz) % bs + 112 <= bs
            &&& blk * bs + bs <= disk.len()
        })
    })
}

/// Mount an ext4 device read-only: validate the superblock, load the
/// group-descriptor table and read the root inode (inode 2). Returns
/// the parsed superblock, the mount state and the root inode; succeeds
/// exactly when the device mounts.
pub fn ext4_mount_dev(disk: &DiskImage) -> (r: Result<
    (Ext4Superblock, Ext4SbData, Ext4Inode),
    FsError,
>)
    ensures
        r is Ok <==> spec_mount_ok(disk.bytes@),
        r is Ok ==> {
            let sb = spec_parse_superblock(disk.bytes@.subrange(1024, 2048));
            let d = r->Ok_0.1;
            &&& 2048 <= disk.bytes@.len()
            &&& spec_sb_valid(sb)
            &&& r->Ok_0.0 == sb
            &&& d.block_size == (1024u32 << sb.s_log_block_size)
            &&& d.inodes_per_group == sb.s_inodes_per_group
            &&& d.first_data_block == sb.s_first_data_block
            &&& d.group_count == spec_group_count(sb)
            &&& d.group_descs@.len() == d.group_count
            &&& (forall|g: int|
                0 <= g < d.group_count ==> #[trigger] d.group_descs@[g] == spec_group_desc_at(
                    disk.bytes@,
                    d,
                    g,
                ))
            &&& d.inode_cache@.len() == 1
            &&& d.inode_cache@[0].0 == EXT4_ROOT_INO
        },
{
    let (sb, mut sb_data) = match read_superblock(disk) {
        Ok(x) => x,
        Err(e) => {
            return Err(e);
        },
    };
    if sb_data.inode_size < 112 {
        return Err(FsError::IoError);
    }
    if sb_data.inodes_per_group == 0 {
        return Err(FsError::IoError);
    }
    let ghost d0 = sb_data;
    proof {
        assert forall|g: int| 0 <= g < d0.group_count implies #[trigger] spec_gdt_block_end(
            d0,
            g,
        ) == spec_sb_gdt_end(sb, g) by {}
    }
    match load_group_descs(disk, &mut sb_data) {
        Ok(_) => {},
        Err(e) => {
            proof {
                assert(!spec_gdt_in_range(disk.bytes@, d0));
                let g = choose|g: int|
                    0 <= g < d0.group_count && !(#[trigger] spec_gdt_block_end(d0, g)
                        <= disk.bytes@.len());
                assert(spec_sb_gdt_end(sb, g) > disk.bytes@.len());
                assert(!spec_mount_ok(disk.bytes@));
            }
            return Err(e);
        },
    }
    let ghost d1 = sb_data;
    proof {
        assert forall|g: int| 0 <= g < spec_group_count(sb) implies #[trigger] spec_sb_gdt_end(
            sb,
            g,
        ) <= disk.bytes@.len() by {
            assert(spec_gdt_block_end(d0, g) <= disk.bytes@.len());
        }
        let ipg = d1.inodes_per_group as int;
        let group = ((EXT4_ROOT_INO - 1) as int) / ipg;
        assert(group < d1.group_descs@.len() ==> d1.group_descs@[group] == spec_group_desc_at(
            disk.bytes@,
            d0,
            group,
        ));
    }
    let root = match read_inode(disk, &mut sb_data, EXT4_ROOT_INO) {
        Ok(i) => i,
        Err(e) => {
            proof {
                assert(!spec_inode_loc_ok(disk.bytes@, d1, EXT4_ROOT_INO));
                assert(!spec_mount_ok(disk.bytes@));
            }
            return Err(e);
        },
    };
    proof {
        assert(spec_inode_loc_ok(disk.bytes@, d1, EXT4_ROOT_INO));
        assert(spec_mount_ok(disk.bytes@));
    }
    Ok((sb, sb_data, root))
}

/// The upper bound of index entry `i`'s logical range: the next entry's
/// first block, or unbounded for the last entry.
pub open spec fn spec_idx_upper(node: Seq<u8>, entries: int, i: int, l: int) -> bool {
    if i + 1 < entries {
        l < spec_parse_extent_idx(node, 12 + (i + 1) * 12).ei_block
    } else {
        true
    }
}

/// The leaf extents of a leaf node from entry `i` on, in order.
pub open spec fn spec_leaf_extents(node: Seq<u8>, entries: int, i: int) -> Seq<Ext4Extent>
    decreases entries - i,
{
    if i >= entries {
        Seq::empty()
    } else {
        seq![spec_parse_extent(node, 12 + i * 12)] + spec_leaf_extents(node, entries, i + 1)
    }
}

/// The child node of index entry `i`: the block its leaf pointer names.
pub open spec fn spec_child_node(disk: Seq<u8>, bs: u32, node: Seq<u8>, i: int) -> Seq<u8> {
    let idx = spec_parse_extent_idx(node, 12 + i * 12);
    let child_blk = (idx.ei_leaf_hi as int) * 0x100000000 + idx.ei_leaf_lo;
    disk.subrange(child_blk * bs, child_blk * bs + bs)
}

/// The node's depth, for termination measures; 0 when the node is too
/// short to parse.
pub open spec fn spec_node_depth(node: Seq<u8>) -> int {
    if node.len() >= 12 {
        spec_parse_extent_header(node).eh_depth as int
    } else {
        0int
    }
}

/// All leaf extents under a node, left to right.
pub open spec fn spec_node_leaves(disk: Seq<u8>, bs: u32, node: Seq<u8>) -> Seq<Ext4Extent>
    decreases spec_node_depth(node), 1int, 0int,
{
    if node.len() < 12 {
        Seq::empty()
    } else {
        let h = spec_parse_extent_header(node);
        if h.eh_depth == 0 {
            spec_leaf_extents(node, h.eh_entries as int, 0)
        } else {
            spec_children_leaves(disk, bs, node, h.eh_entries as int, 0)
        }
    }
}

/// The leaf extents under the children of an index node, from entry `i`
/// on. A child whose depth does not decrease contributes nothing (such a
/// tree is not well formed).
pub open spec fn spec_children_leaves(
    disk: Seq<u8>,
    bs: u32,
    node: Seq<u8>,
    entries: int,
    i: int,
) -> Seq<Ext4Extent>
    decreases spec_node_depth(node), 0int, entries - i,
{
    if i >= entries {
        Seq::empty()
    } else {
        let child = spec_child_node(disk, bs, node, i);
        (if spec_node_depth(child) < spec_node_depth(node) {
            spec_node_leaves(disk, bs, child)
        } else {
            Seq::empty()
        }) + spec_children_leaves(disk, bs, node, entries, i + 1)
    }
}

/// Linear lookup: the first extent in the list covering `l` maps it; a
/// miss is a hole.
pub open spec fn spec_linear_search(s: Seq<Ext4Extent>, l: int) -> Result<int, FsError>
    decreases s.len(),
{
    if s.len() == 0 {
        Err(FsError::NotFound)
    } else if s[0].spec_covers(l) {
        Ok(s[0].spec_map(l))
    } else {
        spec_linear_search(s.skip(1), l)
    }
}

/// A well-formed extent tree node: it parses, its entries fit, and for
/// an index node every child lies on the device, is itself well formed
/// at a strictly smaller depth, holds only leaf extents within its index
/// entry's logical range, and the index entries' first blocks strictly
/// increase.
pub open spec fn spec_node_wf(disk: Seq<u8>, bs: u32, node: Seq<u8>) -> bool
    decreases spec_node_depth(node), 1int, 0int,
{
    &&& node.len() >= 12
    &&& bs >= 12
    &&& spec_parse_extent_header(node).eh_magic == EXT4_EXT_MAGIC
    &&& 12 + (spec_parse_extent_header(node).eh_entries as int) * 12 <= node.len()
    &&& (spec_parse_extent_header(node).eh_depth > 0 ==> spec_children_wf(
        disk,
        bs,
        node,
        spec_parse_extent_header(node).eh_entries as int,
        0,
    ))
}

/// The children of an index node from entry `i` on are well formed and
/// properly bounded.
pub open spec fn spec_children_wf(disk: Seq<u8>, bs: u32, node: Seq<u8>, entries: int, i: int) -> bool
    decreases spec_node_depth(node), 0int, entries - i,
{
    if i >= entries {
        true
    } else {
        let idx = spec_parse_extent_idx(node, 12 + i * 12);
        let child_blk = (idx.ei_leaf_hi as int) * 0x100000000 + idx.ei_leaf_lo;
        let child = spec_child_node(disk, bs, node, i);
        &&& child_blk * bs + bs <= disk.len()
        &&& spec_node_depth(child) < spec_node_depth(node)
        &&& spec_node_wf(disk, bs, child)
        &&& (forall|k: int|
            0 <= k < spec_node_leaves(disk, bs, child).len() ==> {
                let e = #[trigger] spec_node_leaves(disk, bs, child)[k];
                &&& idx.ei_block <= e.ee_block
                &&& (i + 1 < entries ==> e.ee_block + e.spec_len_blocks() <= spec_parse_extent_idx(
                    node,
                    12 + (i + 1) * 12,
                ).ei_block)
            })
        &&& (i + 1 < entries ==> idx.ei_block < spec_parse_extent_idx(
            node,
            12 + (i + 1) * 12,
        ).ei_block)
        &&& spec_children_wf(disk, bs, node, entries, i + 1)
    }
}

/// Scanning a leaf node equals linear lookup over its extents.
proof fn lemma_leaf_scan_linear(node: Seq<u8>, entries: int, i: int, l: int)
    ensures
        spec_leaf_scan(node, entries, i, l) == spec_linear_search(
            spec_leaf_extents(node, entries, i),
            l,
        ),
    decreases entries - i,
{
    if i < entries {
        lemma_leaf_scan_linear(node, entries, i + 1, l);
        assert(spec_leaf_extents(node, entries, i)[0] == spec_parse_extent(node, 12 + i * 12));
        assert(spec_leaf_extents(node, entries, i).skip(1) =~= spec_leaf_extents(
            node,
            entries,
            i + 1,
        ));
    } else {
        assert(spec_leaf_extents(node, entries, i) =~= Seq::<Ext4Extent>::empty());
    }
}

/// Linear lookup skips a prefix none of whose extents covers `l`.
proof fn lemma_linear_skip_prefix(a: Seq<Ext4Extent>, b: Seq<Ext4Extent>, l: int)
    requires
        forall|k: int| 0 <= k < a.len() ==> !(#[trigger] a[k]).spec_covers(l),
    ensures
        spec_linear_search(a + b, l) == spec_linear_search(b, l),
    decreases a.len(),
{
    if a.len() == 0 {
        assert(a + b =~= b);
    } else {
        assert((a + b)[0] == a[0]);
        assert((a + b).skip(1) =~= a.skip(1) + b);
        lemma_linear_skip_prefix(a.skip(1), b, l);
    }
}

/// Linear lookup over a concatenation is settled by the first part when
/// it hits.
proof fn lemma_linear_first_part(a: Seq<Ext4Extent>, b: Seq<Ext4Extent>, l: int)
    requires
        spec_linear_search(a, l) is Ok,
    ensures
        spec_linear_search(a + b, l) == spec_linear_search(a, l),
    decreases a.len(),
{
    if a.len() > 0 {
        assert((a + b)[0] == a[0]);
        if !a[0].spec_covers(l) {
            assert((a + b).skip(1) =~= a.skip(1) + b);
            lemma_linear_first_part(a.skip(1), b, l);
        }
    }
}

/// When no extent of a list covers `l`, linear lookup misses.
proof fn lemma_linear_no_cover(s: Seq<Ext4Extent>, l: int)
    requires
        forall|k: int| 0 <= k < s.len() ==> !(#[trigger] s[k]).spec_covers(l),
    ensures
        spec_linear_search(s, l) == Err::<int, FsError>(FsError::NotFound),
    decreases s.len(),
{
    if s.len() > 0 {
        lemma_linear_no_cover(s.skip(1), l);
    }
}

/// A failed index lookup means `l` lies before the first entry.
proof fn lemma_find_index_none(disk: Seq<u8>, bs: u32, node: Seq<u8>, entries: int, i: int, l: int)
    requires
        spec_children_wf(disk, bs, node, entries, i),
        spec_find_index(node, entries, i, l) is None,
        i < entries,
    ensures
        l < spec_parse_extent_idx(node, 12 + i * 12).ei_block,
    decreases entries - i,
{
    let e = spec_parse_extent_idx(node, 12 + i * 12);
    if e.ei_block <= l && spec_idx_upper(node, entries, i, l) {
        assert(spec_find_index(node, entries, i, l) is Some);
    }
    if e.ei_block <= l {
        assert(i + 1 < entries);
        lemma_find_index_none(disk, bs, node, entries, i + 1, l);
        assert(l >= spec_parse_extent_idx(node, 12 + (i + 1) * 12).ei_block);
        assert(false);
    }
}

/// Mapping a logical block through a well-formed extent tree equals
/// mapping it by a linear scan of all leaf extents: the tree is only an
/// index over the same mapping.
pub proof fn lemma_extent_tree_linear(disk: Seq<u8>, bs: u32, node: Seq<u8>, l: int)
    requires
        spec_node_wf(disk, bs, node),
    ensures
        spec_extent_search(disk, bs, node, l) == spec_linear_search(
            spec_node_leaves(disk, bs, node),
            l,
        ),
    decreases spec_node_depth(node), 1int, 0int,
{
    let h = spec_parse_extent_header(node);
    let entries = h.eh_entries as int;
    if h.eh_depth == 0 {
        lemma_leaf_scan_linear(node, entries, 0, l);
    } else {
        lemma_tree_linear_children(disk, bs, node, entries, 0, l);
        assert(spec_node_leaves(disk, bs, node) == spec_children_leaves(
            disk,
            bs,
            node,
            entries,
            0,
        ));
    }
}

/// The index-node case of the tree/linear equivalence, over the children
/// from entry `i` on.
proof fn lemma_tree_linear_children(
    disk: Seq<u8>,
    bs: u32,
    node: Seq<u8>,
    entries: int,
    i: int,
    l: int,
)
    requires
        spec_node_wf(disk, bs, node),
        spec_parse_extent_header(node).eh_depth > 0,
        entries == spec_parse_extent_header(node).eh_entries as int,
        spec_children_wf(disk, bs, node, entries, i),
        0 <= i <= entries,
        i > 0 ==> l >= spec_parse_extent_idx(node, 12 + (i - 1) * 12).ei_block,
    ensures
        ({
            let sr = match spec_find_index(node, entries, i, l) {
                None => Err::<int, FsError>(FsError::NotFound),
                Some(j) => {
                    let idx = spec_parse_extent_idx(node, 12 + j * 12);
                    let child_blk = (idx.ei_leaf_hi as int) * 0x100000000 + idx.ei_leaf_lo;
                    if child_blk * bs + bs > disk.len() {
                        Err(FsError::IoError)
                    } else {
                        let child = disk.subrange(child_blk * bs, child_blk * bs + bs);
                        if child.len() < 12 {
                            Err(FsError::IoError)
                        } else if spec_parse_extent_header(child).eh_depth
                            >= spec_parse_extent_header(node).eh_depth {
                            Err(FsError::IoError)
                        } else {
                            spec_extent_search(disk, bs, child, l)
                        }
                    }
                },
            };
            sr == spec_linear_search(spec_children_leaves(disk, bs, node, entries, i), l)
        }),
    decreases spec_node_depth(node), 0int, entries - i,
{
    if i >= entries {
        assert(spec_children_leaves(disk, bs, node, entries, i) =~= Seq::<Ext4Extent>::empty());
    } else {
        let idx = spec_parse_extent_idx(node, 12 + i * 12);
        let child_blk = (idx.ei_leaf_hi as int) * 0x100000000 + idx.ei_leaf_lo;
        let child = spec_child_node(disk, bs, node, i);
        let lv = spec_node_leaves(disk, bs, child);
        let rest = spec_children_leaves(disk, bs, node, entries, i + 1);
        assert(spec_children_leaves(disk, bs, node, entries, i) == lv + rest);
        if idx.ei_block <= l && spec_idx_upper(node, entries, i, l) {
            assert(spec_find_index(node, entries, i, l) == Some(i));
            lemma_extent_tree_linear(disk, bs, child, l);
            lemma_linear_shape(lv, l);
            match spec_extent_search(disk, bs, child, l) {
                Ok(p) => {
                    lemma_linear_first_part(lv, rest, l);
                },
                Err(e) => {
                    if e == FsError::NotFound {
                        assert forall|k: int| 0 <= k < lv.len() implies !(#[trigger] lv[k]).spec_covers(
                            l,
                        ) by {
                            if lv[k].spec_covers(l) {
                                lemma_linear_has_cover(lv, l, k);
                            }
                        }
                        lemma_linear_no_cover(lv, l);
                        assert forall|k: int| 0 <= k < rest.len() implies !(#[trigger] rest[k]).spec_covers(
                            l,
                        ) by {
                            lemma_rest_above(disk, bs, node, entries, i + 1, l, k);
                        }
                        lemma_linear_no_cover(rest, l);
                        lemma_linear_skip_prefix(lv, rest, l);
                    } else {
                        assert(false);
                    }
                },
            }
        } else if idx.ei_block <= l {
            assert(i + 1 < entries);
            assert(l >= spec_parse_extent_idx(node, 12 + (i + 1) * 12).ei_block);
            assert(spec_find_index(node, entries, i, l) == spec_find_index(
                node,
                entries,
                i + 1,
                l,
            ));
            lemma_tree_linear_children(disk, bs, node, entries, i + 1, l);
            assert forall|k: int| 0 <= k < lv.len() implies !(#[trigger] lv[k]).spec_covers(l) by {
                assert(lv[k].ee_block + lv[k].spec_len_blocks() <= spec_parse_extent_idx(
                    node,
                    12 + (i + 1) * 12,
                ).ei_block);
            }
            lemma_linear_skip_prefix(lv, rest, l);
        } else {
            assert(l < idx.ei_block);
            lemma_find_index_none_when_low(disk, bs, node, entries, i, l);
            assert forall|k: int| 0 <= k < lv.len() implies !(#[trigger] lv[k]).spec_covers(l) by {
                assert(lv[k].ee_block >= idx.ei_block);
            }
            lemma_linear_no_cover(lv, l);
            assert forall|k: int| 0 <= k < rest.len() implies !(#[trigger] rest[k]).spec_covers(
                l,
            ) by {
                lemma_rest_above(disk, bs, node, entries, i + 1, l, k);
            }
            lemma_linear_no_cover(rest, l);
            lemma_linear_skip_prefix(lv, rest, l);
        }
    }
}

/// Linear lookup yields a mapping or a miss, never another error.
proof fn lemma_linear_shape(s: Seq<Ext4Extent>, l: int)
    ensures
        spec_linear_search(s, l) is Ok || spec_linear_search(s, l) == Err::<int, FsError>(
            FsError::NotFound,
        ),
    decreases s.len(),
{
    if s.len() > 0 && !s[0].spec_covers(l) {
        lemma_linear_shape(s.skip(1), l);
    }
}

/// A hit in linear lookup means some extent covers `l`; conversely a
/// miss at every index is contradicted by a covering extent.
proof fn lemma_linear_has_cover(s: Seq<Ext4Extent>, l: int, k: int)
    requires
        0 <= k < s.len(),
        s[k].spec_covers(l),
    ensures
        spec_linear_search(s, l) is Ok,
    decreases s.len(),
{
    if !s[0].spec_covers(l) {
        assert(k >= 1);
        assert(s.skip(1)[k - 1] == s[k]);
        lemma_linear_has_cover(s.skip(1), l, k - 1);
    }
}

/// Every leaf extent under children from entry `j` on starts at or after
/// entry `j`'s first block; with `l` below that block none covers `l`.
proof fn lemma_rest_above(
    disk: Seq<u8>,
    bs: u32,
    node: Seq<u8>,
    entries: int,
    j: int,
    l: int,
    k: int,
)
    requires
        spec_children_wf(disk, bs, node, entries, j),
        j > 0 ==> spec_idx_upper(node, entries, j - 1, l),
        0 <= k < spec_children_leaves(disk, bs, node, entries, j).len(),
        j >= 1,
        j <= entries,
    ensures
        !spec_children_leaves(disk, bs, node, entries, j)[k].spec_covers(l),
    decreases entries - j,
{
    if j < entries {
        let idx = spec_parse_extent_idx(node, 12 + j * 12);
        let child = spec_child_node(disk, bs, node, j);
        let lv = spec_node_leaves(disk, bs, child);
        let rest = spec_children_leaves(disk, bs, node, entries, j + 1);
        assert(spec_children_leaves(disk, bs, node, entries, j) == lv + rest);
        assert(l < idx.ei_block);
        if k < lv.len() {
            assert((lv + rest)[k] == lv[k]);
            assert(lv[k].ee_block >= idx.ei_block);
        } else {
            assert((lv + rest)[k] == rest[k - lv.len()]);
            assert(spec_idx_upper(node, entries, j, l)) by {
                if j + 1 < entries {
                    assert(idx.ei_block < spec_parse_extent_idx(
                        node,
                        12 + (j + 1) * 12,
                    ).ei_block);
                }
            }
            lemma_rest_above(disk, bs, node, entries, j + 1, l, k - lv.len());
        }
    }
}

/// When `l` lies before entry `i`'s first block of a well-formed index
/// node, no entry from `i` on matches: the first blocks only increase.
proof fn lemma_find_index_none_when_low(
    disk: Seq<u8>,
    bs: u32,
    node: Seq<u8>,
    entries: int,
    i: int,
    l: int,
)
    requires
        spec_children_wf(disk, bs, node, entries, i),
        0 <= i < entries,
        l < spec_parse_extent_idx(node, 12 + i * 12).ei_block,
    ensures
        spec_find_index(node, entries, i, l) is None,
    decreases entries - i,
{
    assert(!(spec_parse_extent_idx(node, 12 + i * 12).ei_block <= l));
    if i + 1 < entries {
        assert(spec_parse_extent_idx(node, 12 + i * 12).ei_block < spec_parse_extent_idx(
            node,
            12 + (i + 1) * 12,
        ).ei_block);
        lemma_find_index_none_when_low(disk, bs, node, entries, i + 1, l);
        assert(spec_find_index(node, entries, i, l) == spec_find_index(node, entries, i + 1, l));
    } else {
        assert(spec_find_index(node, entries, i + 1, l) is None);
        assert(spec_find_index(node, entries, i, l) == spec_find_index(node, entries, i + 1, l));
    }
}

} // verus!
