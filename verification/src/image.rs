//! The structured (sparse) image container model: the fixed-size file header
//! and the per-chunk headers of its declared chunk table, with verified
//! little-endian parsing and serialization.
//!
//! Only the header layout lives here; computing a split of an image into
//! bounded parts is the planner's job.

use vstd::bytes::u16_to_le_bytes;
use vstd::bytes::u32_from_le_bytes;
use vstd::bytes::u32_to_le_bytes;
use vstd::bytes::spec_u16_to_le_bytes;
use vstd::bytes::spec_u16_from_le_bytes;
use vstd::bytes::spec_u32_to_le_bytes;
use vstd::bytes::spec_u32_from_le_bytes;
use vstd::bytes::u16_from_le_bytes;
use vstd::prelude::*;
use vstd::slice::slice_subrange;

verus! {

/// Length in bytes of the container's file header.
pub const FILE_HEADER_LEN: usize = 28;

/// Length in bytes of one chunk header.
pub const CHUNK_HEADER_LEN: usize = 12;

/// First four little-endian bytes of a structured image.
pub const HEADER_MAGIC: u32 = 0xed26ff3a;

/// Block granularity assumed for raw images.
pub const DEFAULT_BLOCK_SIZE: u32 = 4096;

/// Why a header failed to parse.
#[derive(Clone, Copy, Debug, PartialEq, Eq, Structural)]
pub enum ParseError {
    /// The file header does not begin with [`HEADER_MAGIC`]: the image is
    /// not in the structured container format.
    UnknownMagic,
    /// The container version is not 1.0.
    UnknownVersion,
    /// The header sizes declared by the container differ from
    /// [`FILE_HEADER_LEN`] / [`CHUNK_HEADER_LEN`].
    UnexpectedSize,
    /// A chunk header carries an unrecognized chunk type code.
    UnknownChunkType,
}

/// The container's file header, without its fixed magic/version/size fields.
#[derive(Clone, Copy, Debug, PartialEq, Eq, Structural)]
pub struct FileHead {
    /// Block size in bytes.
    pub block_size: u32,
    /// Number of blocks in the expanded image.
    pub blocks: u32,
    /// Number of chunks in the declared chunk table.
    pub chunks: u32,
    /// Optional checksum over the expanded image.
    pub checksum: u32,
}

/// The type of one chunk of the container.
#[derive(Clone, Copy, Debug, PartialEq, Eq, Structural)]
pub enum ChunkKind {
    /// Header is followed by data to copy to the output verbatim.
    Raw,
    /// Header is followed by four bytes to fill the output with.
    Fill,
    /// No data; the output blocks may hold anything.
    DontCare,
    /// Header is followed by a four-byte checksum.
    Crc32,
}

/// One entry of the declared chunk table.
#[derive(Clone, Copy, Debug, PartialEq, Eq, Structural)]
pub struct ChunkHead {
    pub kind: ChunkKind,
    /// Output size of the chunk in blocks.
    pub chunk_size: u32,
    /// On-wire size of the chunk (header plus data) in bytes.
    pub total_size: u32,
}

/// The on-wire type code of a chunk kind.
pub open spec fn spec_chunk_kind_code(k: ChunkKind) -> u16 {
    match k {
        ChunkKind::Raw => 0xcac1,
        ChunkKind::Fill => 0xcac2,
        ChunkKind::DontCare => 0xcac3,
        ChunkKind::Crc32 => 0xcac4,
    }
}

/// Bytes of data that follow a chunk header in the container, as its
/// declared total size says. A total size below the header length declares
/// no data at all.
pub open spec fn spec_chunk_data_len(c: ChunkHead) -> int {
    if c.total_size >= CHUNK_HEADER_LEN {
        c.total_size - CHUNK_HEADER_LEN
    } else {
        0
    }
}

/// What parsing a 28-byte file header yields: the magic, the version pair
/// 1.0 and the two declared header lengths are checked in that order, then
/// the four counters are read little-endian.
pub open spec fn spec_parse_file_header(b: Seq<u8>) -> Result<FileHead, ParseError>
    recommends
        b.len() == FILE_HEADER_LEN,
{
    if spec_u32_from_le_bytes(b.subrange(0, 4)) != HEADER_MAGIC {
        Err(ParseError::UnknownMagic)
    } else if spec_u16_from_le_bytes(b.subrange(4, 6)) != 1 {
        Err(ParseError::UnknownVersion)
    } else if spec_u16_from_le_bytes(b.subrange(6, 8)) != 0 {
        Err(ParseError::UnknownVersion)
    } else if spec_u16_from_le_bytes(b.subrange(8, 10)) != FILE_HEADER_LEN as u16 {
        Err(ParseError::UnexpectedSize)
    } else if spec_u16_from_le_bytes(b.subrange(10, 12)) != CHUNK_HEADER_LEN as u16 {
        Err(ParseError::UnexpectedSize)
    } else {
        Ok(FileHead {
            block_size: spec_u32_from_le_bytes(b.subrange(12, 16)),
            blocks: spec_u32_from_le_bytes(b.subrange(16, 20)),
            chunks: spec_u32_from_le_bytes(b.subrange(20, 24)),
            checksum: spec_u32_from_le_bytes(b.subrange(24, 28)),
        })
    }
}

/// The 28 bytes that serialize a file header.
pub open spec fn spec_file_header_bytes(h: FileHead) -> Seq<u8> {
    spec_u32_to_le_bytes(HEADER_MAGIC) + spec_u16_to_le_bytes(1) + spec_u16_to_le_bytes(0)
        + spec_u16_to_le_bytes(FILE_HEADER_LEN as u16) + spec_u16_to_le_bytes(
        CHUNK_HEADER_LEN as u16,
    ) + spec_u32_to_le_bytes(h.block_size) + spec_u32_to_le_bytes(h.blocks) + spec_u32_to_le_bytes(
        h.chunks,
    ) + spec_u32_to_le_bytes(h.checksum)
}

/// What parsing a 12-byte chunk header yields: the type code, two reserved
/// bytes that are skipped, then the two sizes little-endian.
pub open spec fn spec_parse_chunk_header(b: Seq<u8>) -> Result<ChunkHead, ParseError>
    recommends
        b.len() == CHUNK_HEADER_LEN,
{
    let code = spec_u16_from_le_bytes(b.subrange(0, 2));
    if code != 0xcac1 && code != 0xcac2 && code != 0xcac3 && code != 0xcac4 {
        Err(ParseError::UnknownChunkType)
    } else {
        Ok(ChunkHead {
            kind: if code == 0xcac1 {
                ChunkKind::Raw
            } else if code == 0xcac2 {
                ChunkKind::Fill
            } else if code == 0xcac3 {
                ChunkKind::DontCare
            } else {
                ChunkKind::Crc32
            },
            chunk_size: spec_u32_from_le_bytes(b.subrange(4, 8)),
            total_size: spec_u32_from_le_bytes(b.subrange(8, 12)),
        })
    }
}

/// The 12 bytes that serialize a chunk header; the reserved pair is zero.
pub open spec fn spec_chunk_header_bytes(c: ChunkHead) -> Seq<u8> {
    spec_u16_to_le_bytes(spec_chunk_kind_code(c.kind)) + spec_u16_to_le_bytes(0)
        + spec_u32_to_le_bytes(c.chunk_size) + spec_u32_to_le_bytes(c.total_size)
}

/// A serialized file header is exactly [`FILE_HEADER_LEN`] bytes.
pub proof fn lemma_file_header_bytes_len(h: FileHead)
    ensures
        spec_file_header_bytes(h).len() == FILE_HEADER_LEN,
{
    vstd::bytes::lemma_auto_spec_u16_to_from_le_bytes();
    vstd::bytes::lemma_auto_spec_u32_to_from_le_bytes();
}

/// A serialized chunk header is exactly [`CHUNK_HEADER_LEN`] bytes.
pub proof fn lemma_chunk_header_bytes_len(c: ChunkHead)
    ensures
        spec_chunk_header_bytes(c).len() == CHUNK_HEADER_LEN,
{
    vstd::bytes::lemma_auto_spec_u16_to_from_le_bytes();
    vstd::bytes::lemma_auto_spec_u32_to_from_le_bytes();
}

/// Parse the container's file header from its first 28 bytes.
pub fn parse_file_header(b: &[u8]) -> (r: Result<FileHead, ParseError>)
    requires
        b@.len() == FILE_HEADER_LEN,
    ensures
        r == spec_parse_file_header(b@),
{
    let magic = u32_from_le_bytes(slice_subrange(b, 0, 4));
    if magic != HEADER_MAGIC {
        return Err(ParseError::UnknownMagic);
    }
    if u16_from_le_bytes(slice_subrange(b, 4, 6)) != 1 {
        return Err(ParseError::UnknownVersion);
    }
    if u16_from_le_bytes(slice_subrange(b, 6, 8)) != 0 {
        return Err(ParseError::UnknownVersion);
    }
    if u16_from_le_bytes(slice_subrange(b, 8, 10)) != FILE_HEADER_LEN as u16 {
        return Err(ParseError::UnexpectedSize);
    }
    if u16_from_le_bytes(slice_subrange(b, 10, 12)) != CHUNK_HEADER_LEN as u16 {
        return Err(ParseError::UnexpectedSize);
    }
    Ok(FileHead {
        block_size: u32_from_le_bytes(slice_subrange(b, 12, 16)),
        blocks: u32_from_le_bytes(slice_subrange(b, 16, 20)),
        chunks: u32_from_le_bytes(slice_subrange(b, 20, 24)),
        checksum: u32_from_le_bytes(slice_subrange(b, 24, 28)),
    })
}

/// Serialize a file header to its 28 container bytes.
pub fn file_header_bytes(h: &FileHead) -> (r: Vec<u8>)
    ensures
        r@ == spec_file_header_bytes(*h),
        r@.len() == FILE_HEADER_LEN,
{
    let mut v = u32_to_le_bytes(HEADER_MAGIC);
    let mut w = u16_to_le_bytes(1);
    v.append(&mut w);
    let mut w = u16_to_le_bytes(0);
    v.append(&mut w);
    let mut w = u16_to_le_bytes(FILE_HEADER_LEN as u16);
    v.append(&mut w);
    let mut w = u16_to_le_bytes(CHUNK_HEADER_LEN as u16);
    v.append(&mut w);
    let mut w = u32_to_le_bytes(h.block_size);
    v.append(&mut w);
    let mut w = u32_to_le_bytes(h.blocks);
    v.append(&mut w);
    let mut w = u32_to_le_bytes(h.chunks);
    v.append(&mut w);
    let mut w = u32_to_le_bytes(h.checksum);
    v.append(&mut w);
    v
}

/// Parse one chunk-table entry from its 12 container bytes.
pub fn parse_chunk_header(b: &[u8]) -> (r: Result<ChunkHead, ParseError>)
    requires
        b@.len() == CHUNK_HEADER_LEN,
    ensures
        r == spec_parse_chunk_header(b@),
{
    let code = u16_from_le_bytes(slice_subrange(b, 0, 2));
    let kind = if code == 0xcac1 {
        ChunkKind::Raw
    } else if code == 0xcac2 {
        ChunkKind::Fill
    } else if code == 0xcac3 {
        ChunkKind::DontCare
    } else if code == 0xcac4 {
        ChunkKind::Crc32
    } else {
        return Err(ParseError::UnknownChunkType);
    };
    Ok(ChunkHead {
        kind,
        chunk_size: u32_from_le_bytes(slice_subrange(b, 4, 8)),
        total_size: u32_from_le_bytes(slice_subrange(b, 8, 12)),
    })
}

/// Serialize a chunk-table entry to its 12 container bytes.
pub fn chunk_header_bytes(c: &ChunkHead) -> (r: Vec<u8>)
    ensures
        r@ == spec_chunk_header_bytes(*c),
        r@.len() == CHUNK_HEADER_LEN,
{
    let code: u16 = match c.kind {
        ChunkKind::Raw => 0xcac1,
        ChunkKind::Fill => 0xcac2,
        ChunkKind::DontCare => 0xcac3,
        ChunkKind::Crc32 => 0xcac4,
    };
    let mut v = u16_to_le_bytes(code);
    let mut w = u16_to_le_bytes(0);
    v.append(&mut w);
    let mut w = u32_to_le_bytes(c.chunk_size);
    v.append(&mut w);
    let mut w = u32_to_le_bytes(c.total_size);
    v.append(&mut w);
    v
}

/// How many bytes of chunk data follow this entry's header in the
/// container: its declared total size less the header itself.
pub fn chunk_data_len(c: &ChunkHead) -> (r: usize)
    ensures
        r == spec_chunk_data_len(*c),
{
    if c.total_size >= CHUNK_HEADER_LEN as u32 {
        (c.total_size - CHUNK_HEADER_LEN as u32) as usize
    } else {
        0
    }
}

} // verus!
