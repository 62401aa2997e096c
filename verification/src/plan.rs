//! The transfer planner: given an image (structured container or raw file)
//! and the transport's advertised maximum buffer size, compute an
//! [`ImagePlan`] — an ordered sequence of bounded [`Part`]s whose chunk
//! payloads, concatenated in order, reproduce the source image's logical
//! content.
//!
//! The split itself is computed by an outside codec; nothing is assumed of
//! its output. Every plan handed back by [`plan_structured`] or [`plan_raw`]
//! has first passed a verified validation that establishes the two plan
//! invariants: no part's on-wire size exceeds the maximum, and the chunk
//! payload positions tile the source's data exactly, in order.

use crate::image::ChunkHead;
use crate::image::FileHead;
use crate::image::chunk_header_bytes;
use crate::image::file_header_bytes;
use crate::image::spec_chunk_data_len;
use crate::image::spec_chunk_header_bytes;
use crate::image::spec_file_header_bytes;
use crate::image::CHUNK_HEADER_LEN;
use crate::image::DEFAULT_BLOCK_SIZE;
use crate::image::FILE_HEADER_LEN;
use vstd::prelude::*;

verus! {

/// A contiguous byte range of the source file, uploaded verbatim after its
/// format-defined header bytes.
#[derive(Clone, Debug)]
pub struct Chunk {
    /// Metadata prefixed before the payload when uploaded; opaque here.
    pub header_bytes: Vec<u8>,
    /// Byte offset into the source file the payload is read from.
    pub source_offset: usize,
    /// Payload length in bytes.
    pub size: usize,
}

/// One bounded upload unit: sent to the transport's download buffer as one
/// stream, then committed.
#[derive(Clone, Debug)]
pub struct Part {
    /// Bytes sent before any chunk; opaque here.
    pub header_bytes: Vec<u8>,
    /// The part's chunks, streamed in order.
    pub chunks: Vec<Chunk>,
    /// Total on-wire size of the part: all header bytes plus all payloads.
    pub total_size: usize,
}

/// An ordered sequence of parts covering one image.
#[derive(Clone, Debug)]
pub struct ImagePlan {
    pub parts: Vec<Part>,
}

/// Why planning failed.
#[derive(Clone, Copy, Debug, PartialEq, Eq, Structural)]
pub enum PlanError {
    /// The codec refused the split: the maximum buffer size cannot fit even
    /// one header and one block.
    SplitTooSmall,
    /// The codec's output failed validation against the source model.
    SplitRejected,
    /// The header or its chunk table holds values the splitter's 32-bit
    /// arithmetic cannot take: a zero or near-maximal block size, a chunk
    /// whose blocks do not fit a 32-bit byte count, or totals past the
    /// address range.
    InvalidTable,
    /// A raw image too large for the splitter's 32-bit block offsets.
    ImageTooLarge,
}

/// What the outside codec reports for one chunk of a computed split.
#[derive(Clone, Copy, Debug)]
pub struct ChunkDesc {
    pub head: ChunkHead,
    pub offset: usize,
    pub size: usize,
}

/// What the outside codec reports for one part of a computed split.
#[derive(Clone, Debug)]
pub struct PartDesc {
    pub head: FileHead,
    pub chunks: Vec<ChunkDesc>,
}

// ---------------------------------------------------------------------------
// The mathematical model: byte positions read from the source.
// ---------------------------------------------------------------------------

/// The `n` consecutive byte positions starting at `off`.
pub open spec fn spec_positions(off: int, n: int) -> Seq<int> {
    Seq::new(n as nat, |i: int| off + i)
}

/// All byte positions a chunk sequence reads, in order.
pub open spec fn spec_chunk_positions(cs: Seq<Chunk>) -> Seq<int>
    decreases cs.len(),
{
    if cs.len() == 0 {
        Seq::empty()
    } else {
        spec_positions(cs[0].source_offset as int, cs[0].size as int) + spec_chunk_positions(
            cs.drop_first(),
        )
    }
}

/// All chunks of a part sequence, flattened in order.
pub open spec fn spec_all_chunks(ps: Seq<Part>) -> Seq<Chunk>
    decreases ps.len(),
{
    if ps.len() == 0 {
        Seq::empty()
    } else {
        ps[0].chunks@ + spec_all_chunks(ps.drop_first())
    }
}

/// All byte positions a plan reads, across its parts in order.
pub open spec fn spec_plan_positions(ps: Seq<Part>) -> Seq<int> {
    spec_chunk_positions(spec_all_chunks(ps))
}

/// The byte positions of the data areas a declared chunk table lays out in
/// the container, starting with the area of the first entry at `start`:
/// each entry's data follows its chunk header and runs for its declared
/// data length; the next entry starts `total_size` bytes further.
pub open spec fn spec_table_positions_from(table: Seq<ChunkHead>, start: int) -> Seq<int>
    decreases table.len(),
{
    if table.len() == 0 {
        Seq::empty()
    } else {
        spec_positions(start + CHUNK_HEADER_LEN, spec_chunk_data_len(table[0]))
            + spec_table_positions_from(table.drop_first(), start + table[0].total_size)
    }
}

/// The logical content of a structured image, as byte positions of the
/// source file: the data areas of its declared chunk table, in order,
/// the first entry standing right after the file header.
pub open spec fn spec_table_positions(table: Seq<ChunkHead>) -> Seq<int> {
    spec_table_positions_from(table, FILE_HEADER_LEN as int)
}

/// Like [`spec_table_positions_from`], with the first `off` data bytes of
/// the leading entry already consumed.
pub open spec fn spec_table_positions_rem(table: Seq<ChunkHead>, start: int, off: int) -> Seq<
    int,
> {
    if table.len() == 0 {
        Seq::empty()
    } else {
        spec_positions(start + CHUNK_HEADER_LEN + off, spec_chunk_data_len(table[0]) - off)
            + spec_table_positions_from(table.drop_first(), start + table[0].total_size)
    }
}

// ---------------------------------------------------------------------------
// Coverage: a chunk sequence tiles the table's data areas exactly.
// ---------------------------------------------------------------------------

/// The cursor walk that the validation performs, as a spec: the chunk
/// sequence `cs` consumes the data areas of `table` in order, `off` bytes
/// of the leading area already consumed, the leading area's chunk header
/// standing at `start`. Empty chunks are skipped, exhausted areas advance
/// the cursor, and every non-empty chunk must read from the current cursor
/// position without crossing into the next area.
pub open spec fn spec_covers(cs: Seq<Chunk>, table: Seq<ChunkHead>, start: int, off: int) -> bool
    decreases cs.len(), table.len(),
{
    if cs.len() > 0 && cs[0].size == 0 {
        spec_covers(cs.drop_first(), table, start, off)
    } else if table.len() == 0 {
        cs.len() == 0
    } else if off == spec_chunk_data_len(table[0]) {
        spec_covers(cs, table.drop_first(), start + table[0].total_size, 0)
    } else if cs.len() == 0 {
        false
    } else {
        &&& cs[0].source_offset == start + CHUNK_HEADER_LEN + off
        &&& cs[0].size <= spec_chunk_data_len(table[0]) - off
        &&& spec_covers(cs.drop_first(), table, start, off + cs[0].size)
    }
}

/// The raw-image counterpart: the chunk sequence reads the contiguous
/// positions from `pos` up to `end`, in order.
pub open spec fn spec_covers_raw(cs: Seq<Chunk>, pos: int, end: int) -> bool
    decreases cs.len(),
{
    if cs.len() == 0 {
        pos == end
    } else if cs[0].size == 0 {
        spec_covers_raw(cs.drop_first(), pos, end)
    } else {
        &&& cs[0].source_offset == pos
        &&& pos + cs[0].size <= end
        &&& spec_covers_raw(cs.drop_first(), pos + cs[0].size, end)
    }
}

// ---------------------------------------------------------------------------
// Boundedness and well-formedness.
// ---------------------------------------------------------------------------

/// A chunk's payload lies within addressable file offsets.
pub open spec fn spec_chunk_in_range(c: Chunk) -> bool {
    c.source_offset + c.size <= usize::MAX
}

/// The on-wire length of a chunk sequence: each chunk's header bytes plus
/// its payload.
pub open spec fn spec_chunks_wire_len(cs: Seq<Chunk>) -> int
    decreases cs.len(),
{
    if cs.len() == 0 {
        0
    } else {
        cs[0].header_bytes@.len() + cs[0].size + spec_chunks_wire_len(cs.drop_first())
    }
}

/// The on-wire length of a part: its header bytes plus all its chunks.
pub open spec fn spec_part_wire_len(p: Part) -> int {
    p.header_bytes@.len() + spec_chunks_wire_len(p.chunks@)
}

/// A part is sound for a transport maximum `max`: its recorded total size
/// is its true on-wire length, that length does not exceed `max`, and all
/// its chunks are addressable.
pub open spec fn spec_part_ok(p: Part, max: u32) -> bool {
    &&& spec_part_wire_len(p) == p.total_size
    &&& p.total_size <= max
    &&& forall|k: int| 0 <= k < p.chunks@.len() ==> spec_chunk_in_range(#[trigger] p.chunks@[k])
}

/// Every part of the sequence is sound for `max`.
pub open spec fn spec_parts_bounded(ps: Seq<Part>, max: u32) -> bool {
    forall|i: int| 0 <= i < ps.len() ==> spec_part_ok(#[trigger] ps[i], max)
}

/// The extent of the raw-image content a plan must cover: the file itself
/// when it fits the transport buffer in one piece, the file padded up to
/// whole blocks when it must be split into structured parts.
pub open spec fn spec_raw_extent(size: int, max: int) -> int {
    if size < max {
        size
    } else {
        ((size + DEFAULT_BLOCK_SIZE - 1) / (DEFAULT_BLOCK_SIZE as int)) * (
        DEFAULT_BLOCK_SIZE as int)
    }
}

// ---------------------------------------------------------------------------
// Positions lemmas: the cursor walk implies exact tiling.
// ---------------------------------------------------------------------------

proof fn lemma_positions_split(a: int, n: int, m: int)
    requires
        0 <= n <= m,
    ensures
        spec_positions(a, m) == spec_positions(a, n) + spec_positions(a + n, m - n),
{
    assert(spec_positions(a, m) =~= spec_positions(a, n) + spec_positions(a + n, m - n));
}

proof fn lemma_covers_positions(cs: Seq<Chunk>, table: Seq<ChunkHead>, start: int, off: int)
    requires
        spec_covers(cs, table, start, off),
        table.len() > 0 ==> 0 <= off <= spec_chunk_data_len(table[0]),
    ensures
        spec_chunk_positions(cs) == spec_table_positions_rem(table, start, off),
    decreases cs.len(), table.len(),
{
    if cs.len() > 0 && cs[0].size == 0 {
        lemma_covers_positions(cs.drop_first(), table, start, off);
        assert(spec_chunk_positions(cs) =~= spec_chunk_positions(cs.drop_first()));
    } else if table.len() == 0 {
        assert(spec_chunk_positions(cs) =~= Seq::<int>::empty());
    } else if off == spec_chunk_data_len(table[0]) {
        lemma_covers_positions(cs, table.drop_first(), start + table[0].total_size, 0);
        assert(spec_table_positions_rem(table, start, off) =~= spec_table_positions_rem(
            table.drop_first(),
            start + table[0].total_size,
            0,
        ));
    } else {
        let c = cs[0];
        let dl = spec_chunk_data_len(table[0]);
        lemma_covers_positions(cs.drop_first(), table, start, off + c.size);
        lemma_positions_split(start + CHUNK_HEADER_LEN + off, c.size as int, dl - off);
        assert(spec_chunk_positions(cs) =~= spec_table_positions_rem(table, start, off));
    }
}

proof fn lemma_covers_raw_positions(cs: Seq<Chunk>, pos: int, end: int)
    requires
        spec_covers_raw(cs, pos, end),
        pos <= end,
    ensures
        spec_chunk_positions(cs) == spec_positions(pos, end - pos),
    decreases cs.len(),
{
    if cs.len() == 0 {
        assert(spec_chunk_positions(cs) =~= spec_positions(pos, 0));
    } else if cs[0].size == 0 {
        lemma_covers_raw_positions(cs.drop_first(), pos, end);
        assert(spec_chunk_positions(cs) =~= spec_chunk_positions(cs.drop_first()));
    } else {
        lemma_covers_raw_positions(cs.drop_first(), pos + cs[0].size, end);
        lemma_positions_split(pos, cs[0].size as int, end - pos);
        assert(spec_chunk_positions(cs) =~= spec_positions(pos, end - pos));
    }
}

/// Round trip for a structured image: a plan whose chunks pass the cursor
/// walk against the declared chunk table reads, in order, exactly the byte
/// positions of the table's data areas — concatenating its payloads
/// reproduces the container's logical content.
pub proof fn lemma_structured_plan_round_trip(plan: ImagePlan, table: Seq<ChunkHead>)
    requires
        spec_covers(spec_all_chunks(plan.parts@), table, FILE_HEADER_LEN as int, 0),
    ensures
        spec_plan_positions(plan.parts@) == spec_table_positions(table),
{
    lemma_covers_positions(spec_all_chunks(plan.parts@), table, FILE_HEADER_LEN as int, 0);
    assert(spec_table_positions_rem(table, FILE_HEADER_LEN as int, 0) =~= spec_table_positions(
        table,
    ));
}

/// Round trip for a raw image: a plan whose chunks pass the contiguous
/// cursor walk up to `end` reads exactly the positions `0 .. end` in order.
pub proof fn lemma_raw_plan_round_trip(plan: ImagePlan, end: int)
    requires
        spec_covers_raw(spec_all_chunks(plan.parts@), 0, end),
        0 <= end,
    ensures
        spec_plan_positions(plan.parts@) == spec_positions(0, end),
{
    lemma_covers_raw_positions(spec_all_chunks(plan.parts@), 0, end);
}


// ---------------------------------------------------------------------------
// What the splitter's arithmetic can take.
// ---------------------------------------------------------------------------

/// Total declared blocks of a chunk table.
pub open spec fn spec_block_sum(table: Seq<ChunkHead>) -> int
    decreases table.len(),
{
    if table.len() == 0 {
        0
    } else {
        table[0].chunk_size + spec_block_sum(table.drop_first())
    }
}

/// Total declared on-wire bytes of a chunk table.
pub open spec fn spec_total_sum(table: Seq<ChunkHead>) -> int
    decreases table.len(),
{
    if table.len() == 0 {
        0
    } else {
        table[0].total_size + spec_total_sum(table.drop_first())
    }
}

/// A header and table the outside splitter can process without its 32-bit
/// arithmetic dividing by zero, overflowing, or running past the address
/// range: the block size is positive and leaves room for the minimal-size
/// check, every entry's blocks fit a 32-bit byte count beside a chunk
/// header, the blocks sum fits 32 bits, and every data offset the splitter
/// derives stays addressable.
pub open spec fn spec_table_ok(head: FileHead, table: Seq<ChunkHead>) -> bool {
    &&& 0 < head.block_size
    &&& head.block_size + FILE_HEADER_LEN + 2 * CHUNK_HEADER_LEN <= u32::MAX
    &&& forall|k: int|
        0 <= k < table.len() ==> (#[trigger] table[k]).chunk_size * head.block_size
            + CHUNK_HEADER_LEN <= u32::MAX
    &&& spec_block_sum(table) <= u32::MAX
    &&& FILE_HEADER_LEN + CHUNK_HEADER_LEN + spec_total_sum(table) + u32::MAX <= usize::MAX
}

proof fn lemma_block_sum_take_step(table: Seq<ChunkHead>, j: int)
    requires
        0 <= j < table.len(),
    ensures
        spec_block_sum(table.take(j + 1)) == spec_block_sum(table.take(j)) + table[j].chunk_size,
        spec_total_sum(table.take(j + 1)) == spec_total_sum(table.take(j)) + table[j].total_size,
    decreases j,
{
    if j == 0 {
        assert(table.take(0) =~= Seq::<ChunkHead>::empty());
        assert(table.take(1).drop_first() =~= Seq::<ChunkHead>::empty());
        assert(table.take(1)[0] == table[0]);
    } else {
        lemma_block_sum_take_step(table.drop_first(), j - 1);
        assert(table.take(j + 1).drop_first() =~= table.drop_first().take(j));
        assert(table.take(j).drop_first() =~= table.drop_first().take(j - 1));
        assert(table.take(j + 1)[0] == table[0]);
        assert(table.take(j)[0] == table[0]);
        assert(table.drop_first()[j - 1] == table[j]);
    }
}

/// Decide [`spec_table_ok`].
fn check_table(head: &FileHead, table: &Vec<ChunkHead>) -> (b: bool)
    ensures
        b == spec_table_ok(*head, table@),
{
    if head.block_size == 0 {
        return false;
    }
    if head.block_size > u32::MAX - (FILE_HEADER_LEN + 2 * CHUNK_HEADER_LEN) as u32 {
        return false;
    }
    let mut blocks: u128 = 0;
    let mut totals: u128 = 0;
    let mut k: usize = 0;
    while k < table.len()
        invariant
            k <= table@.len(),
            0 < head.block_size,
            head.block_size + FILE_HEADER_LEN + 2 * CHUNK_HEADER_LEN <= u32::MAX,
            blocks == spec_block_sum(table@.take(k as int)),
            totals == spec_total_sum(table@.take(k as int)),
            blocks <= k as int * 0x1_0000_0000,
            totals <= k as int * 0x1_0000_0000,
            forall|j: int|
                0 <= j < k ==> (#[trigger] table@[j]).chunk_size * head.block_size
                    + CHUNK_HEADER_LEN <= u32::MAX,
        decreases table@.len() - k,
    {
        let c = &table[k];
        proof {
            assert((c.chunk_size as int) * (head.block_size as int) <= 0xffff_fffeu64
                * 0xffff_ffffu64) by (nonlinear_arith)
                requires
                    c.chunk_size <= 0xffff_ffffu32,
                    head.block_size <= 0xffff_fffeu32,
            ;
        }
        let prod: u64 = (c.chunk_size as u64) * (head.block_size as u64);
        if prod > (u32::MAX - CHUNK_HEADER_LEN as u32) as u64 {
            return false;
        }
        proof {
            lemma_block_sum_take_step(table@, k as int);
        }
        blocks = blocks + c.chunk_size as u128;
        totals = totals + c.total_size as u128;
        k += 1;
    }
    proof {
        assert(table@.take(table@.len() as int) =~= table@);
    }
    if blocks > u32::MAX as u128 {
        return false;
    }
    if (FILE_HEADER_LEN + CHUNK_HEADER_LEN) as u128 + totals + u32::MAX as u128
        > usize::MAX as u128 {
        return false;
    }
    true
}

// ---------------------------------------------------------------------------
// The outside codec, behind trusted conversions.
// ---------------------------------------------------------------------------

/// The split the outside codec computes for a structured image: a pure
/// function of the header, the declared table and the maximum alone.
pub uninterp spec fn spec_split_image(head: FileHead, table: Seq<ChunkHead>, max: u32) -> Option<
    Seq<PartDesc>,
>;

/// The split the outside codec computes for a raw image: a pure function
/// of the raw size and the maximum alone.
pub uninterp spec fn spec_split_raw(raw_size: usize, max: u32) -> Option<Seq<PartDesc>>;

#[verifier::external_type_specification]
#[verifier::external_body]
pub struct ExFileHeader(android_sparse_image::FileHeader);

#[verifier::external_type_specification]
#[verifier::external_body]
pub struct ExChunkHeader(android_sparse_image::ChunkHeader);

#[verifier::external_type_specification]
#[verifier::external_body]
pub struct ExChunkType(android_sparse_image::ChunkType);

#[verifier::external_type_specification]
#[verifier::external_body]
pub struct ExSplit(android_sparse_image::split::Split);

#[verifier::external_type_specification]
#[verifier::external_body]
pub struct ExSplitChunk(android_sparse_image::split::SplitChunk);

/// Relies on android_sparse_image::ChunkType: maps each of its four
/// variants to the like-named [`crate::image::ChunkKind`] variant.
#[verifier::external_body]
fn kind_from_codec(t: android_sparse_image::ChunkType) -> crate::image::ChunkKind {
    match t {
        android_sparse_image::ChunkType::Raw => crate::image::ChunkKind::Raw,
        android_sparse_image::ChunkType::Fill => crate::image::ChunkKind::Fill,
        android_sparse_image::ChunkType::DontCare => crate::image::ChunkKind::DontCare,
        android_sparse_image::ChunkType::Crc32 => crate::image::ChunkKind::Crc32,
    }
}

/// Relies on android_sparse_image::ChunkHeader: carries the same three
/// fields as [`ChunkHead`], moved one for one.
#[verifier::external_body]
fn chunk_head_to_codec(c: &ChunkHead) -> android_sparse_image::ChunkHeader {
    android_sparse_image::ChunkHeader {
        chunk_type: match c.kind {
            crate::image::ChunkKind::Raw => android_sparse_image::ChunkType::Raw,
            crate::image::ChunkKind::Fill => android_sparse_image::ChunkType::Fill,
            crate::image::ChunkKind::DontCare => android_sparse_image::ChunkType::DontCare,
            crate::image::ChunkKind::Crc32 => android_sparse_image::ChunkType::Crc32,
        },
        chunk_size: c.chunk_size,
        total_size: c.total_size,
    }
}

/// Relies on android_sparse_image::split::SplitChunk: its fields are moved
/// one for one into the plain [`ChunkDesc`] model.
#[verifier::external_body]
fn chunk_to_desc(c: android_sparse_image::split::SplitChunk) -> ChunkDesc {
    ChunkDesc {
        head: ChunkHead {
            kind: kind_from_codec(c.header.chunk_type),
            chunk_size: c.header.chunk_size,
            total_size: c.header.total_size,
        },
        offset: c.offset,
        size: c.size,
    }
}

/// Relies on android_sparse_image::split::Split: its header fields and its
/// chunks are moved one for one into the plain [`PartDesc`] model.
#[verifier::external_body]
fn split_to_desc(s: android_sparse_image::split::Split) -> PartDesc {
    PartDesc {
        head: FileHead {
            block_size: s.header.block_size,
            blocks: s.header.blocks,
            chunks: s.header.chunks,
            checksum: s.header.checksum,
        },
        chunks: s.chunks.into_iter().map(chunk_to_desc).collect(),
    }
}

/// Relies on android_sparse_image::split::split_image: computes a split of
/// a structured image's declared chunk table into parts intended to fit
/// `max` bytes each, or refuses with its (only) too-small error. The result
/// is a pure function of the arguments, named [`spec_split_image`]; nothing
/// else is assumed of it — the planner validates every split it accepts.
/// The preconditions keep the splitter's 32-bit arithmetic away from its
/// division by the block size and from overflow.
#[verifier::external_body]
fn codec_split_image(head: &FileHead, table: &Vec<ChunkHead>, max: u32) -> (r: Option<
    Vec<PartDesc>,
>)
    requires
        spec_table_ok(*head, table@),
    ensures
        match r {
            Some(d) => spec_split_image(*head, table@, max) == Some(d@),
            None => spec_split_image(*head, table@, max) is None,
        },
{
    let h = android_sparse_image::FileHeader {
        block_size: head.block_size,
        blocks: head.blocks,
        chunks: head.chunks,
        checksum: head.checksum,
    };
    let cs: Vec<android_sparse_image::ChunkHeader> = table.iter().map(chunk_head_to_codec).collect();
    match android_sparse_image::split::split_image(&h, &cs, max) {
        Ok(splits) => Some(splits.into_iter().map(split_to_desc).collect()),
        Err(_) => None,
    }
}

/// Relies on android_sparse_image::split::split_raw: computes a split of a
/// raw image of `raw_size` bytes (padded up to whole blocks) into parts
/// intended to fit `max` bytes each, or refuses with its (only) too-small
/// error. The result is a pure function of the arguments, named
/// [`spec_split_raw`]; nothing else is assumed of it — the planner
/// validates every split it accepts. The precondition keeps the splitter's
/// 32-bit block offsets from overflowing.
#[verifier::external_body]
fn codec_split_raw(raw_size: usize, max: u32) -> (r: Option<Vec<PartDesc>>)
    requires
        raw_size <= 0xffff_f000,
    ensures
        match r {
            Some(d) => spec_split_raw(raw_size, max) == Some(d@),
            None => spec_split_raw(raw_size, max) is None,
        },
{
    match android_sparse_image::split::split_raw(raw_size, max) {
        Ok(splits) => Some(splits.into_iter().map(split_to_desc).collect()),
        Err(_) => None,
    }
}


// ---------------------------------------------------------------------------
// Validity of a codec split, stated over its plain description.
// ---------------------------------------------------------------------------

/// On-wire bytes of a described chunk sequence: a chunk header for each
/// entry, plus its payload.
pub open spec fn spec_desc_wire(cs: Seq<ChunkDesc>) -> int
    decreases cs.len(),
{
    if cs.len() == 0 {
        0
    } else {
        CHUNK_HEADER_LEN + cs[0].size + spec_desc_wire(cs.drop_first())
    }
}

/// A described part is sound for `max`: its on-wire size (file header plus
/// chunks) fits, and every payload stays within addressable offsets.
pub open spec fn spec_desc_part_ok(d: PartDesc, max: u32) -> bool {
    &&& FILE_HEADER_LEN + spec_desc_wire(d.chunks@) <= max
    &&& forall|k: int|
        0 <= k < d.chunks@.len() ==> (#[trigger] d.chunks@[k]).offset + d.chunks@[k].size
            <= usize::MAX
}

/// Every described part is sound for `max`.
pub open spec fn spec_descs_bounded(ds: Seq<PartDesc>, max: u32) -> bool {
    forall|i: int| 0 <= i < ds.len() ==> spec_desc_part_ok(#[trigger] ds[i], max)
}

/// All described chunks of a described split, flattened in order.
pub open spec fn spec_all_desc_chunks(ds: Seq<PartDesc>) -> Seq<ChunkDesc>
    decreases ds.len(),
{
    if ds.len() == 0 {
        Seq::empty()
    } else {
        ds[0].chunks@ + spec_all_desc_chunks(ds.drop_first())
    }
}

/// The cursor walk of [`spec_covers`], over described chunks.
pub open spec fn spec_covers_descs(
    cs: Seq<ChunkDesc>,
    table: Seq<ChunkHead>,
    start: int,
    off: int,
) -> bool
    decreases cs.len(), table.len(),
{
    if cs.len() > 0 && cs[0].size == 0 {
        spec_covers_descs(cs.drop_first(), table, start, off)
    } else if table.len() == 0 {
        cs.len() == 0
    } else if off == spec_chunk_data_len(table[0]) {
        spec_covers_descs(cs, table.drop_first(), start + table[0].total_size, 0)
    } else if cs.len() == 0 {
        false
    } else {
        &&& cs[0].offset == start + CHUNK_HEADER_LEN + off
        &&& cs[0].size <= spec_chunk_data_len(table[0]) - off
        &&& spec_covers_descs(cs.drop_first(), table, start, off + cs[0].size)
    }
}

/// The contiguous walk of [`spec_covers_raw`], over described chunks.
pub open spec fn spec_covers_descs_raw(cs: Seq<ChunkDesc>, pos: int, end: int) -> bool
    decreases cs.len(),
{
    if cs.len() == 0 {
        pos == end
    } else if cs[0].size == 0 {
        spec_covers_descs_raw(cs.drop_first(), pos, end)
    } else {
        &&& cs[0].offset == pos
        &&& pos + cs[0].size <= end
        &&& spec_covers_descs_raw(cs.drop_first(), pos + cs[0].size, end)
    }
}

/// A described structured split the planner accepts: bounded parts whose
/// chunks tile the declared table's data areas.
pub open spec fn spec_descs_valid(ds: Seq<PartDesc>, table: Seq<ChunkHead>, max: u32) -> bool {
    &&& spec_descs_bounded(ds, max)
    &&& spec_covers_descs(spec_all_desc_chunks(ds), table, FILE_HEADER_LEN as int, 0)
}

/// A described raw split the planner accepts: bounded parts whose chunks
/// tile `0 .. end` contiguously.
pub open spec fn spec_descs_valid_raw(ds: Seq<PartDesc>, max: u32, end: int) -> bool {
    &&& spec_descs_bounded(ds, max)
    &&& spec_covers_descs_raw(spec_all_desc_chunks(ds), 0, end)
}

// ---------------------------------------------------------------------------
// Built parts agree with their descriptions.
// ---------------------------------------------------------------------------

/// A part as the verified builder serializes it from a codec description:
/// the headers are the exact serializations, the reads are copied, and the
/// recorded total is the described on-wire size.
pub open spec fn spec_built_part(p: Part, d: PartDesc) -> bool {
    &&& p.header_bytes@ == spec_file_header_bytes(d.head)
    &&& p.chunks@.len() == d.chunks@.len()
    &&& (forall|k: int|
        0 <= k < d.chunks@.len() ==> {
            &&& (#[trigger] p.chunks@[k]).header_bytes@ == spec_chunk_header_bytes(
                d.chunks@[k].head,
            )
            &&& p.chunks@[k].source_offset == d.chunks@[k].offset
            &&& p.chunks@[k].size == d.chunks@[k].size
        })
    &&& p.total_size == FILE_HEADER_LEN + spec_desc_wire(d.chunks@)
}

/// Every part built from the matching description, in order.
pub open spec fn spec_built_plan(ps: Seq<Part>, ds: Seq<PartDesc>) -> bool {
    &&& ps.len() == ds.len()
    &&& forall|i: int| 0 <= i < ds.len() ==> spec_built_part(#[trigger] ps[i], ds[i])
}

/// Chunks carrying the same reads as a description, each with a
/// chunk-header-sized prefix.
pub open spec fn spec_chunks_match(cs: Seq<Chunk>, ds: Seq<ChunkDesc>) -> bool {
    &&& cs.len() == ds.len()
    &&& forall|k: int|
        0 <= k < cs.len() ==> {
            &&& (#[trigger] cs[k]).header_bytes@.len() == CHUNK_HEADER_LEN
            &&& cs[k].source_offset == ds[k].offset
            &&& cs[k].size == ds[k].size
        }
}

proof fn lemma_match_drop_first(cs: Seq<Chunk>, ds: Seq<ChunkDesc>)
    requires
        spec_chunks_match(cs, ds),
        cs.len() > 0,
    ensures
        spec_chunks_match(cs.drop_first(), ds.drop_first()),
{
    assert forall|k: int| 0 <= k < cs.drop_first().len() implies {
        &&& (#[trigger] cs.drop_first()[k]).header_bytes@.len() == CHUNK_HEADER_LEN
        &&& cs.drop_first()[k].source_offset == ds.drop_first()[k].offset
        &&& cs.drop_first()[k].size == ds.drop_first()[k].size
    } by {
        assert(cs.drop_first()[k] == cs[k + 1]);
        assert(ds.drop_first()[k] == ds[k + 1]);
    }
}

proof fn lemma_match_covers(cs: Seq<Chunk>, ds: Seq<ChunkDesc>, table: Seq<ChunkHead>, start: int, off: int)
    requires
        spec_chunks_match(cs, ds),
    ensures
        spec_covers(cs, table, start, off) == spec_covers_descs(ds, table, start, off),
    decreases cs.len(), table.len(),
{
    if cs.len() > 0 && cs[0].size == 0 {
        lemma_match_drop_first(cs, ds);
        lemma_match_covers(cs.drop_first(), ds.drop_first(), table, start, off);
    } else if table.len() == 0 {
    } else if off == spec_chunk_data_len(table[0]) {
        lemma_match_covers(cs, ds, table.drop_first(), start + table[0].total_size, 0);
    } else if cs.len() == 0 {
    } else {
        lemma_match_drop_first(cs, ds);
        lemma_match_covers(cs.drop_first(), ds.drop_first(), table, start, off + cs[0].size);
    }
}

proof fn lemma_match_covers_raw(cs: Seq<Chunk>, ds: Seq<ChunkDesc>, pos: int, end: int)
    requires
        spec_chunks_match(cs, ds),
    ensures
        spec_covers_raw(cs, pos, end) == spec_covers_descs_raw(ds, pos, end),
    decreases cs.len(),
{
    if cs.len() == 0 {
    } else if cs[0].size == 0 {
        lemma_match_drop_first(cs, ds);
        lemma_match_covers_raw(cs.drop_first(), ds.drop_first(), pos, end);
    } else {
        lemma_match_drop_first(cs, ds);
        lemma_match_covers_raw(cs.drop_first(), ds.drop_first(), pos + cs[0].size, end);
    }
}

proof fn lemma_match_wire(cs: Seq<Chunk>, ds: Seq<ChunkDesc>)
    requires
        spec_chunks_match(cs, ds),
    ensures
        spec_chunks_wire_len(cs) == spec_desc_wire(ds),
    decreases cs.len(),
{
    if cs.len() > 0 {
        lemma_match_drop_first(cs, ds);
        lemma_match_wire(cs.drop_first(), ds.drop_first());
    }
}

proof fn lemma_match_concat(a: Seq<Chunk>, b: Seq<Chunk>, c: Seq<ChunkDesc>, d: Seq<ChunkDesc>)
    requires
        spec_chunks_match(a, c),
        spec_chunks_match(b, d),
    ensures
        spec_chunks_match(a + b, c + d),
{
    assert forall|k: int| 0 <= k < (a + b).len() implies {
        &&& (#[trigger] (a + b)[k]).header_bytes@.len() == CHUNK_HEADER_LEN
        &&& (a + b)[k].source_offset == (c + d)[k].offset
        &&& (a + b)[k].size == (c + d)[k].size
    } by {
        if k < a.len() {
            assert((a + b)[k] == a[k]);
            assert((c + d)[k] == c[k]);
        } else {
            assert((a + b)[k] == b[k - a.len()]);
            assert((c + d)[k] == d[k - c.len()]);
        }
    }
}

proof fn lemma_built_chunks_match(p: Part, d: PartDesc)
    requires
        spec_built_part(p, d),
    ensures
        spec_chunks_match(p.chunks@, d.chunks@),
{
    assert forall|k: int| 0 <= k < p.chunks@.len() implies {
        &&& (#[trigger] p.chunks@[k]).header_bytes@.len() == CHUNK_HEADER_LEN
        &&& p.chunks@[k].source_offset == d.chunks@[k].offset
        &&& p.chunks@[k].size == d.chunks@[k].size
    } by {
        crate::image::lemma_chunk_header_bytes_len(d.chunks@[k].head);
    }
}

proof fn lemma_built_plan_match(ps: Seq<Part>, ds: Seq<PartDesc>)
    requires
        spec_built_plan(ps, ds),
    ensures
        spec_chunks_match(spec_all_chunks(ps), spec_all_desc_chunks(ds)),
    decreases ps.len(),
{
    if ps.len() == 0 {
        assert(spec_chunks_match(spec_all_chunks(ps), spec_all_desc_chunks(ds)));
    } else {
        lemma_built_chunks_match(ps[0], ds[0]);
        assert forall|i: int| 0 <= i < ds.drop_first().len() implies spec_built_part(
            #[trigger] ps.drop_first()[i],
            ds.drop_first()[i],
        ) by {
            assert(ps.drop_first()[i] == ps[i + 1]);
            assert(ds.drop_first()[i] == ds[i + 1]);
        }
        lemma_built_plan_match(ps.drop_first(), ds.drop_first());
        lemma_match_concat(
            ps[0].chunks@,
            spec_all_chunks(ps.drop_first()),
            ds[0].chunks@,
            spec_all_desc_chunks(ds.drop_first()),
        );
    }
}

proof fn lemma_built_part_ok(p: Part, d: PartDesc, max: u32)
    requires
        spec_built_part(p, d),
    ensures
        spec_part_ok(p, max) == spec_desc_part_ok(d, max),
{
    crate::image::lemma_file_header_bytes_len(d.head);
    lemma_built_chunks_match(p, d);
    lemma_match_wire(p.chunks@, d.chunks@);
    assert(spec_part_wire_len(p) == p.total_size);
    if spec_part_ok(p, max) {
        assert forall|k: int|
            0 <= k < d.chunks@.len() implies (#[trigger] d.chunks@[k]).offset + d.chunks@[k].size
            <= usize::MAX by {
            assert(spec_chunk_in_range(p.chunks@[k]));
        }
    }
    if spec_desc_part_ok(d, max) {
        assert forall|k: int|
            0 <= k < p.chunks@.len() implies spec_chunk_in_range(#[trigger] p.chunks@[k]) by {
            assert(d.chunks@[k].offset + d.chunks@[k].size <= usize::MAX);
        }
    }
}

proof fn lemma_built_plan_bounded(ps: Seq<Part>, ds: Seq<PartDesc>, max: u32)
    requires
        spec_built_plan(ps, ds),
    ensures
        spec_parts_bounded(ps, max) == spec_descs_bounded(ds, max),
{
    if spec_parts_bounded(ps, max) {
        assert forall|i: int| 0 <= i < ds.len() implies spec_desc_part_ok(
            #[trigger] ds[i],
            max,
        ) by {
            assert(spec_part_ok(ps[i], max));
            lemma_built_part_ok(ps[i], ds[i], max);
        }
    }
    if spec_descs_bounded(ds, max) {
        assert forall|i: int| 0 <= i < ps.len() implies spec_part_ok(#[trigger] ps[i], max) by {
            assert(spec_desc_part_ok(ds[i], max));
            lemma_built_part_ok(ps[i], ds[i], max);
        }
    }
}

proof fn lemma_desc_wire_nonneg(cs: Seq<ChunkDesc>)
    ensures
        spec_desc_wire(cs) >= 0,
    decreases cs.len(),
{
    if cs.len() > 0 {
        lemma_desc_wire_nonneg(cs.drop_first());
    }
}

proof fn lemma_desc_wire_take_step(cs: Seq<ChunkDesc>, j: int)
    requires
        0 <= j < cs.len(),
    ensures
        spec_desc_wire(cs.take(j + 1)) == spec_desc_wire(cs.take(j)) + CHUNK_HEADER_LEN
            + cs[j].size,
    decreases j,
{
    if j == 0 {
        assert(cs.take(0) =~= Seq::<ChunkDesc>::empty());
        assert(cs.take(1).drop_first() =~= Seq::<ChunkDesc>::empty());
        assert(cs.take(1)[0] == cs[0]);
    } else {
        lemma_desc_wire_take_step(cs.drop_first(), j - 1);
        assert(cs.take(j + 1).drop_first() =~= cs.drop_first().take(j));
        assert(cs.take(j).drop_first() =~= cs.drop_first().take(j - 1));
        assert(cs.take(j + 1)[0] == cs[0]);
        assert(cs.take(j)[0] == cs[0]);
        assert(cs.drop_first()[j - 1] == cs[j]);
    }
}

proof fn lemma_desc_wire_split(cs: Seq<ChunkDesc>, j: int)
    requires
        0 <= j <= cs.len(),
    ensures
        spec_desc_wire(cs) == spec_desc_wire(cs.take(j)) + spec_desc_wire(cs.skip(j)),
    decreases j,
{
    if j == 0 {
        assert(cs.take(0) =~= Seq::<ChunkDesc>::empty());
        assert(cs.skip(0) =~= cs);
    } else {
        lemma_desc_wire_split(cs, j - 1);
        lemma_desc_wire_take_step(cs, j - 1);
        assert(cs.skip(j - 1).drop_first() =~= cs.skip(j));
        assert(cs.skip(j - 1)[0] == cs[j - 1]);
        assert(cs.skip(j - 1).len() > 0);
    }
}

// ---------------------------------------------------------------------------
// Building parts from codec output (verified).
// ---------------------------------------------------------------------------

/// Serialize one codec part description into a [`Part`], its headers
/// produced by the verified serializers; refuses exactly the descriptions
/// whose on-wire size does not fit an address.
fn build_part(d: &PartDesc) -> (r: Option<Part>)
    ensures
        r matches Some(p) ==> spec_built_part(p, *d),
        r is None ==> FILE_HEADER_LEN + spec_desc_wire(d.chunks@) > usize::MAX,
{
    let header = file_header_bytes(&d.head);
    let mut chunks: Vec<Chunk> = Vec::new();
    let mut wire: u128 = FILE_HEADER_LEN as u128;
    let mut j: usize = 0;
    while j < d.chunks.len()
        invariant
            j <= d.chunks@.len(),
            chunks@.len() == j,
            header@ == spec_file_header_bytes(d.head),
            wire == FILE_HEADER_LEN + spec_desc_wire(d.chunks@.take(j as int)),
            wire <= usize::MAX as u128,
            forall|k: int|
                0 <= k < j ==> {
                    &&& (#[trigger] chunks@[k]).header_bytes@ == spec_chunk_header_bytes(
                        d.chunks@[k].head,
                    )
                    &&& chunks@[k].source_offset == d.chunks@[k].offset
                    &&& chunks@[k].size == d.chunks@[k].size
                },
        decreases d.chunks@.len() - j,
    {
        let c = &d.chunks[j];
        chunks.push(
            Chunk {
                header_bytes: chunk_header_bytes(&c.head),
                source_offset: c.offset,
                size: c.size,
            },
        );
        wire = wire + CHUNK_HEADER_LEN as u128 + c.size as u128;
        proof {
            lemma_desc_wire_take_step(d.chunks@, j as int);
        }
        if wire > usize::MAX as u128 {
            proof {
                lemma_desc_wire_split(d.chunks@, j as int + 1);
                lemma_desc_wire_nonneg(d.chunks@.skip(j as int + 1));
            }
            return None;
        }
        j += 1;
    }
    proof {
        assert(d.chunks@.take(d.chunks@.len() as int) =~= d.chunks@);
    }
    Some(Part { header_bytes: header, chunks, total_size: wire as usize })
}

/// Serialize every codec part description, in order; refused exactly when
/// some description's on-wire size does not fit an address.
fn build_parts(descs: &Vec<PartDesc>) -> (r: Option<Vec<Part>>)
    ensures
        r matches Some(ps) ==> spec_built_plan(ps@, descs@),
        r is None ==> exists|i: int|
            0 <= i < descs@.len() && FILE_HEADER_LEN + spec_desc_wire(
                (#[trigger] descs@[i]).chunks@,
            ) > usize::MAX,
{
    let mut parts: Vec<Part> = Vec::new();
    let mut i: usize = 0;
    while i < descs.len()
        invariant
            i <= descs@.len(),
            parts@.len() == i,
            forall|k: int| 0 <= k < i ==> spec_built_part(#[trigger] parts@[k], descs@[k]),
        decreases descs@.len() - i,
    {
        match build_part(&descs[i]) {
            Some(p) => parts.push(p),
            None => {
                return None;
            },
        }
        i += 1;
    }
    Some(parts)
}

// ---------------------------------------------------------------------------
// Wire-length bookkeeping lemmas.
// ---------------------------------------------------------------------------

proof fn lemma_wire_len_nonneg(cs: Seq<Chunk>)
    ensures
        spec_chunks_wire_len(cs) >= 0,
    decreases cs.len(),
{
    if cs.len() > 0 {
        lemma_wire_len_nonneg(cs.drop_first());
    }
}

proof fn lemma_wire_len_take_step(cs: Seq<Chunk>, j: int)
    requires
        0 <= j < cs.len(),
    ensures
        spec_chunks_wire_len(cs.take(j + 1)) == spec_chunks_wire_len(cs.take(j))
            + cs[j].header_bytes@.len() + cs[j].size,
    decreases j,
{
    if j == 0 {
        assert(cs.take(0) =~= Seq::<Chunk>::empty());
        assert(cs.take(1).drop_first() =~= Seq::<Chunk>::empty());
        assert(cs.take(1)[0] == cs[0]);
    } else {
        lemma_wire_len_take_step(cs.drop_first(), j - 1);
        assert(cs.take(j + 1).drop_first() =~= cs.drop_first().take(j));
        assert(cs.take(j).drop_first() =~= cs.drop_first().take(j - 1));
        assert(cs.take(j + 1)[0] == cs[0]);
        assert(cs.take(j)[0] == cs[0]);
        assert(cs.drop_first()[j - 1] == cs[j]);
    }
}

proof fn lemma_wire_len_split(cs: Seq<Chunk>, j: int)
    requires
        0 <= j <= cs.len(),
    ensures
        spec_chunks_wire_len(cs) == spec_chunks_wire_len(cs.take(j)) + spec_chunks_wire_len(
            cs.skip(j),
        ),
    decreases j,
{
    if j == 0 {
        assert(cs.take(0) =~= Seq::<Chunk>::empty());
        assert(cs.skip(0) =~= cs);
    } else {
        lemma_wire_len_split(cs, j - 1);
        lemma_wire_len_take_step(cs, j - 1);
        assert(cs.skip(j - 1).drop_first() =~= cs.skip(j));
        assert(cs.skip(j - 1)[0] == cs[j - 1]);
        assert(cs.skip(j - 1).len() > 0);
    }
}

// ---------------------------------------------------------------------------
// Validation (verified): boundedness.
// ---------------------------------------------------------------------------

/// Decide [`spec_parts_bounded`]: walk every part, recompute its on-wire
/// length, and compare it against the recorded total and the maximum.
fn check_parts(parts: &Vec<Part>, max: u32) -> (b: bool)
    ensures
        b == spec_parts_bounded(parts@, max),
{
    let mut i: usize = 0;
    while i < parts.len()
        invariant
            i <= parts@.len(),
            forall|k: int| 0 <= k < i ==> spec_part_ok(#[trigger] parts@[k], max),
        decreases parts@.len() - i,
    {
        let p = &parts[i];
        let mut wire: u128 = p.header_bytes.len() as u128;
        let mut j: usize = 0;
        while j < p.chunks.len()
            invariant
                i < parts@.len(),
                p == parts@[i as int],
                j <= p.chunks@.len(),
                wire == p.header_bytes@.len() + spec_chunks_wire_len(p.chunks@.take(j as int)),
                wire <= usize::MAX as u128,
                forall|k: int|
                    0 <= k < j ==> spec_chunk_in_range(#[trigger] p.chunks@[k]),
            decreases p.chunks@.len() - j,
        {
            let c = &p.chunks[j];
            if c.size > usize::MAX - c.source_offset {
                assert(!spec_chunk_in_range(p.chunks@[j as int]));
                assert(!spec_part_ok(parts@[i as int], max));
                return false;
            }
            wire = wire + c.header_bytes.len() as u128 + c.size as u128;
            proof {
                lemma_wire_len_take_step(p.chunks@, j as int);
            }
            if wire > usize::MAX as u128 {
                proof {
                    lemma_wire_len_split(p.chunks@, j as int + 1);
                    lemma_wire_len_nonneg(p.chunks@.skip(j as int + 1));
                }
                assert(spec_part_wire_len(parts@[i as int]) > usize::MAX);
                assert(!spec_part_ok(parts@[i as int], max));
                return false;
            }
            j += 1;
        }
        proof {
            assert(p.chunks@.take(p.chunks@.len() as int) =~= p.chunks@);
        }
        if wire != p.total_size as u128 || wire > max as u128 {
            assert(!spec_part_ok(parts@[i as int], max));
            return false;
        }
        assert(spec_part_ok(parts@[i as int], max));
        i += 1;
    }
    true
}

// ---------------------------------------------------------------------------
// Validation (verified): coverage.
// ---------------------------------------------------------------------------

/// The chunks of `ps` not yet consumed by the validation walk: the tail of
/// part `i` from chunk `j` on, then all later parts.
pub open spec fn spec_rem_chunks(ps: Seq<Part>, i: int, j: int) -> Seq<Chunk> {
    if i >= ps.len() {
        Seq::empty()
    } else {
        ps[i].chunks@.skip(j) + spec_all_chunks(ps.skip(i + 1))
    }
}

proof fn lemma_rem_chunks_start(ps: Seq<Part>)
    ensures
        spec_rem_chunks(ps, 0, 0) == spec_all_chunks(ps),
{
    if ps.len() > 0 {
        assert(ps.skip(1) =~= ps.drop_first());
        assert(ps[0].chunks@.skip(0) =~= ps[0].chunks@);
        assert(spec_rem_chunks(ps, 0, 0) =~= spec_all_chunks(ps));
    } else {
        assert(spec_rem_chunks(ps, 0, 0) =~= spec_all_chunks(ps));
    }
}

proof fn lemma_rem_chunks_step(ps: Seq<Part>, i: int, j: int)
    requires
        0 <= i < ps.len(),
        0 <= j < ps[i].chunks@.len(),
    ensures
        spec_rem_chunks(ps, i, j).len() > 0,
        spec_rem_chunks(ps, i, j)[0] == ps[i].chunks@[j],
        spec_rem_chunks(ps, i, j).drop_first() == spec_rem_chunks(ps, i, j + 1),
{
    assert(spec_rem_chunks(ps, i, j).drop_first() =~= spec_rem_chunks(ps, i, j + 1));
}

proof fn lemma_rem_chunks_next_part(ps: Seq<Part>, i: int)
    requires
        0 <= i < ps.len(),
    ensures
        spec_rem_chunks(ps, i, ps[i].chunks@.len() as int) == spec_rem_chunks(ps, i + 1, 0),
{
    if i + 1 < ps.len() {
        assert(ps.skip(i + 1)[0] == ps[i + 1]);
        assert(ps.skip(i + 1).drop_first() =~= ps.skip(i + 2));
        assert(spec_rem_chunks(ps, i, ps[i].chunks@.len() as int) =~= spec_rem_chunks(
            ps,
            i + 1,
            0,
        ));
    } else {
        assert(spec_rem_chunks(ps, i, ps[i].chunks@.len() as int) =~= spec_rem_chunks(
            ps,
            i + 1,
            0,
        ));
    }
}

/// The data length of one table entry, for the validation walk.
fn data_len_u64(c: &ChunkHead) -> (r: u64)
    ensures
        r == spec_chunk_data_len(*c),
{
    if c.total_size >= CHUNK_HEADER_LEN as u32 {
        (c.total_size - CHUNK_HEADER_LEN as u32) as u64
    } else {
        0
    }
}

/// Decide the cursor walk [`spec_covers`] of a plan's chunks against a
/// declared chunk table.
fn check_coverage(parts: &Vec<Part>, table: &Vec<ChunkHead>) -> (b: bool)
    ensures
        b == spec_covers(spec_all_chunks(parts@), table@, FILE_HEADER_LEN as int, 0),
{
    proof {
        lemma_rem_chunks_start(parts@);
        assert(table@.skip(0) =~= table@);
    }
    let ghost goal = spec_covers(spec_all_chunks(parts@), table@, FILE_HEADER_LEN as int, 0);
    let mut t: usize = 0;
    let mut off: u64 = 0;
    let mut astart: u128 = FILE_HEADER_LEN as u128;
    let mut i: usize = 0;
    while i < parts.len()
        invariant
            i <= parts@.len(),
            t <= table@.len(),
            astart <= FILE_HEADER_LEN + t as int * 0x1_0000_0000,
            t < table@.len() ==> off <= spec_chunk_data_len(table@[t as int]),
            goal == spec_covers(spec_all_chunks(parts@), table@, FILE_HEADER_LEN as int, 0),
            goal == spec_covers(
                spec_rem_chunks(parts@, i as int, 0),
                table@.skip(t as int),
                astart as int,
                off as int,
            ),
        decreases parts@.len() - i,
    {
        let mut j: usize = 0;
        while j < parts[i].chunks.len()
            invariant
                i < parts@.len(),
                j <= parts@[i as int].chunks@.len(),
                t <= table@.len(),
                astart <= FILE_HEADER_LEN + t as int * 0x1_0000_0000,
                t < table@.len() ==> off <= spec_chunk_data_len(table@[t as int]),
                goal == spec_covers(spec_all_chunks(parts@), table@, FILE_HEADER_LEN as int, 0),
                goal == spec_covers(
                    spec_rem_chunks(parts@, i as int, j as int),
                    table@.skip(t as int),
                    astart as int,
                    off as int,
                ),
            decreases parts@[i as int].chunks@.len() - j,
        {
            let c = &parts[i].chunks[j];
            proof {
                lemma_rem_chunks_step(parts@, i as int, j as int);
            }
            if c.size > 0 {
                // Advance the cursor past exhausted data areas.
                while t < table.len() && off == data_len_u64(&table[t])
                    invariant
                        i < parts@.len(),
                        j < parts@[i as int].chunks@.len(),
                        *c == parts@[i as int].chunks@[j as int],
                        c.size > 0,
                        t <= table@.len(),
                        astart <= FILE_HEADER_LEN + t as int * 0x1_0000_0000,
                        t < table@.len() ==> off <= spec_chunk_data_len(table@[t as int]),
                        goal == spec_covers(
                            spec_all_chunks(parts@),
                            table@,
                            FILE_HEADER_LEN as int,
                            0,
                        ),
                        goal == spec_covers(
                            spec_rem_chunks(parts@, i as int, j as int),
                            table@.skip(t as int),
                            astart as int,
                            off as int,
                        ),
                    decreases table@.len() - t,
                {
                    proof {
                        lemma_rem_chunks_step(parts@, i as int, j as int);
                        assert(table@.skip(t as int)[0] == table@[t as int]);
                        assert(table@.skip(t as int).drop_first() =~= table@.skip(t as int + 1));
                    }
                    astart = astart + table[t].total_size as u128;
                    t += 1;
                    off = 0;
                }
                proof {
                    lemma_rem_chunks_step(parts@, i as int, j as int);
                }
                if t == table.len() {
                    proof {
                        assert(table@.skip(t as int) =~= Seq::<ChunkHead>::empty());
                        assert(!goal);
                    }
                    return false;
                }
                proof {
                    assert(table@.skip(t as int)[0] == table@[t as int]);
                }
                let dl = data_len_u64(&table[t]);
                let exp: u128 = astart + CHUNK_HEADER_LEN as u128 + off as u128;
                if c.source_offset as u128 != exp {
                    proof {
                        assert(!goal);
                    }
                    return false;
                }
                if c.size as u128 > (dl - off) as u128 {
                    proof {
                        assert(!goal);
                    }
                    return false;
                }
                off = off + c.size as u64;
            }
            j += 1;
        }
        proof {
            lemma_rem_chunks_next_part(parts@, i as int);
        }
        i += 1;
    }
    // All chunks consumed: the remaining areas must hold no data.
    while t < table.len()
        invariant
            t <= table@.len(),
            astart <= FILE_HEADER_LEN + t as int * 0x1_0000_0000,
            goal == spec_covers(spec_all_chunks(parts@), table@, FILE_HEADER_LEN as int, 0),
            goal == spec_covers(
                Seq::<Chunk>::empty(),
                table@.skip(t as int),
                astart as int,
                off as int,
            ),
        decreases table@.len() - t,
    {
        proof {
            assert(table@.skip(t as int)[0] == table@[t as int]);
            assert(table@.skip(t as int).drop_first() =~= table@.skip(t as int + 1));
        }
        let dl = data_len_u64(&table[t]);
        if off != dl {
            proof {
                assert(!goal);
            }
            return false;
        }
        astart = astart + table[t].total_size as u128;
        t += 1;
        off = 0;
    }
    proof {
        assert(table@.skip(t as int) =~= Seq::<ChunkHead>::empty());
    }
    true
}

/// Decide the contiguous cursor walk [`spec_covers_raw`] of a plan's chunks
/// from position zero up to `end`.
fn check_raw_coverage(parts: &Vec<Part>, end: u128) -> (b: bool)
    ensures
        b == spec_covers_raw(spec_all_chunks(parts@), 0, end as int),
{
    proof {
        lemma_rem_chunks_start(parts@);
    }
    let ghost goal = spec_covers_raw(spec_all_chunks(parts@), 0, end as int);
    let mut pos: u128 = 0;
    let mut i: usize = 0;
    while i < parts.len()
        invariant
            i <= parts@.len(),
            pos <= end,
            goal == spec_covers_raw(spec_all_chunks(parts@), 0, end as int),
            goal == spec_covers_raw(spec_rem_chunks(parts@, i as int, 0), pos as int, end as int),
        decreases parts@.len() - i,
    {
        let mut j: usize = 0;
        while j < parts[i].chunks.len()
            invariant
                i < parts@.len(),
                j <= parts@[i as int].chunks@.len(),
                pos <= end,
                goal == spec_covers_raw(spec_all_chunks(parts@), 0, end as int),
                goal == spec_covers_raw(
                    spec_rem_chunks(parts@, i as int, j as int),
                    pos as int,
                    end as int,
                ),
            decreases parts@[i as int].chunks@.len() - j,
        {
            let c = &parts[i].chunks[j];
            proof {
                lemma_rem_chunks_step(parts@, i as int, j as int);
            }
            if c.size > 0 {
                if c.source_offset as u128 != pos {
                    proof {
                        assert(!goal);
                    }
                    return false;
                }
                if c.size as u128 > end - pos {
                    proof {
                        assert(!goal);
                    }
                    return false;
                }
                pos = pos + c.size as u128;
            }
            j += 1;
        }
        proof {
            lemma_rem_chunks_next_part(parts@, i as int);
        }
        i += 1;
    }
    pos == end
}

// ---------------------------------------------------------------------------
// The planner.
// ---------------------------------------------------------------------------

/// Plan the upload of a structured image from its parsed file header and
/// declared chunk table. A header or table the splitter's arithmetic
/// cannot take is rejected up front; the outside codec then computes the
/// split, and its (named) result is accepted exactly when the verified
/// validation shows every part sound for `max` and the chunk payloads
/// tiling the table's data areas.
pub fn plan_structured(head: &FileHead, table: &Vec<ChunkHead>, max: u32) -> (r: Result<
    ImagePlan,
    PlanError,
>)
    ensures
        (r == Err::<ImagePlan, PlanError>(PlanError::InvalidTable)) == !spec_table_ok(
            *head,
            table@,
        ),
        spec_table_ok(*head, table@) ==> ((r == Err::<ImagePlan, PlanError>(
            PlanError::SplitTooSmall,
        )) == (spec_split_image(*head, table@, max) is None)),
        spec_table_ok(*head, table@) ==> (spec_split_image(*head, table@, max) matches Some(ds)
            ==> ((r is Ok) == spec_descs_valid(ds, table@, max)) && (!spec_descs_valid(
            ds,
            table@,
            max,
        ) ==> r == Err::<ImagePlan, PlanError>(PlanError::SplitRejected))),
        r matches Ok(plan) ==> {
            &&& spec_parts_bounded(plan.parts@, max)
            &&& spec_covers(spec_all_chunks(plan.parts@), table@, FILE_HEADER_LEN as int, 0)
            &&& spec_plan_positions(plan.parts@) == spec_table_positions(table@)
        },
{
    if !check_table(head, table) {
        return Err(PlanError::InvalidTable);
    }
    let descs = match codec_split_image(head, table, max) {
        Some(d) => d,
        None => {
            return Err(PlanError::SplitTooSmall);
        },
    };
    let parts = match build_parts(&descs) {
        Some(p) => p,
        None => {
            proof {
                let i = choose|i: int|
                    0 <= i < descs@.len() && FILE_HEADER_LEN + spec_desc_wire(
                        (#[trigger] descs@[i]).chunks@,
                    ) > usize::MAX;
                assert(!spec_desc_part_ok(descs@[i], max));
                assert(!spec_descs_bounded(descs@, max));
            }
            return Err(PlanError::SplitRejected);
        },
    };
    let ok_bounded = check_parts(&parts, max);
    let ok_covered = check_coverage(&parts, table);
    proof {
        lemma_built_plan_bounded(parts@, descs@, max);
        lemma_built_plan_match(parts@, descs@);
        lemma_match_covers(
            spec_all_chunks(parts@),
            spec_all_desc_chunks(descs@),
            table@,
            FILE_HEADER_LEN as int,
            0,
        );
    }
    if ok_bounded && ok_covered {
        let plan = ImagePlan { parts };
        proof {
            lemma_structured_plan_round_trip(plan, table@);
        }
        Ok(plan)
    } else {
        Err(PlanError::SplitRejected)
    }
}

/// Plan the upload of a raw image of `size` bytes. An image that fits the
/// transport buffer outright becomes one part holding one chunk covering
/// the whole file, owed unconditionally. A larger image must first fit the
/// splitter's 32-bit block offsets; the outside codec then computes the
/// split, and its (named) result is accepted exactly when the verified
/// validation shows every part sound for `max` and the chunk payloads
/// tiling the file padded up to whole blocks.
pub fn plan_raw(size: usize, max: u32) -> (r: Result<ImagePlan, PlanError>)
    ensures
        r matches Ok(plan) ==> {
            &&& spec_parts_bounded(plan.parts@, max)
            &&& spec_plan_positions(plan.parts@) == spec_positions(
                0,
                spec_raw_extent(size as int, max as int),
            )
        },
        (size as int) < max ==> (r matches Ok(plan) && plan.parts@.len() == 1
            && plan.parts@[0].chunks@.len() == 1 && plan.parts@[0].chunks@[0].source_offset == 0
            && plan.parts@[0].chunks@[0].size == size && plan.parts@[0].total_size == size
            && plan.parts@[0].header_bytes@.len() == 0
            && plan.parts@[0].chunks@[0].header_bytes@.len() == 0),
        (size as int) >= max ==> ((r == Err::<ImagePlan, PlanError>(PlanError::ImageTooLarge))
            == (size > 0xffff_f000)),
        (size as int) >= max && size <= 0xffff_f000 ==> ((r == Err::<ImagePlan, PlanError>(
            PlanError::SplitTooSmall,
        )) == (spec_split_raw(size, max) is None)),
        (size as int) >= max && size <= 0xffff_f000 ==> (spec_split_raw(size, max) matches Some(
            ds,
        ) ==> ((r is Ok) == spec_descs_valid_raw(
            ds,
            max,
            spec_raw_extent(size as int, max as int),
        )) && (!spec_descs_valid_raw(ds, max, spec_raw_extent(size as int, max as int)) ==> r
            == Err::<ImagePlan, PlanError>(PlanError::SplitRejected))),
{
    if (size as u64) < (max as u64) {
        let chunk = Chunk { header_bytes: Vec::new(), source_offset: 0, size };
        let mut chunks: Vec<Chunk> = Vec::new();
        chunks.push(chunk);
        let part = Part { header_bytes: Vec::new(), chunks, total_size: size };
        let mut parts: Vec<Part> = Vec::new();
        parts.push(part);
        let plan = ImagePlan { parts };
        proof {
            let all = spec_all_chunks(plan.parts@);
            assert(plan.parts@.drop_first() =~= Seq::<Part>::empty());
            assert(spec_all_chunks(Seq::<Part>::empty()) =~= Seq::<Chunk>::empty());
            assert(all =~= plan.parts@[0].chunks@);
            assert(all.len() == 1 && all[0] == plan.parts@[0].chunks@[0]);
            assert(all.drop_first() =~= Seq::<Chunk>::empty());
            assert(spec_covers_raw(Seq::<Chunk>::empty(), size as int, size as int));
            assert(spec_covers_raw(Seq::<Chunk>::empty(), 0, 0));
            assert(spec_covers_raw(all, 0, size as int));
            lemma_raw_plan_round_trip(plan, size as int);
            assert(spec_chunks_wire_len(all.drop_first()) == 0);
            assert(spec_part_wire_len(plan.parts@[0]) == size);
            assert(spec_part_ok(plan.parts@[0], max));
        }
        return Ok(plan);
    }
    if size > 0xffff_f000 {
        return Err(PlanError::ImageTooLarge);
    }
    let blocks: u128 = (size as u128 + DEFAULT_BLOCK_SIZE as u128 - 1) / DEFAULT_BLOCK_SIZE as u128;
    let padded: u128 = blocks * DEFAULT_BLOCK_SIZE as u128;
    proof {
        assert(padded as int == spec_raw_extent(size as int, max as int)) by (nonlinear_arith)
            requires
                padded == ((size as int + DEFAULT_BLOCK_SIZE - 1) / (DEFAULT_BLOCK_SIZE as int)) * (
                DEFAULT_BLOCK_SIZE as int),
                size as int >= max as int,
        ;
    }
    let descs = match codec_split_raw(size, max) {
        Some(d) => d,
        None => {
            return Err(PlanError::SplitTooSmall);
        },
    };
    let parts = match build_parts(&descs) {
        Some(p) => p,
        None => {
            proof {
                let i = choose|i: int|
                    0 <= i < descs@.len() && FILE_HEADER_LEN + spec_desc_wire(
                        (#[trigger] descs@[i]).chunks@,
                    ) > usize::MAX;
                assert(!spec_desc_part_ok(descs@[i], max));
                assert(!spec_descs_bounded(descs@, max));
            }
            return Err(PlanError::SplitRejected);
        },
    };
    let ok_bounded = check_parts(&parts, max);
    let ok_covered = check_raw_coverage(&parts, padded);
    proof {
        lemma_built_plan_bounded(parts@, descs@, max);
        lemma_built_plan_match(parts@, descs@);
        lemma_match_covers_raw(
            spec_all_chunks(parts@),
            spec_all_desc_chunks(descs@),
            0,
            padded as int,
        );
    }
    if ok_bounded && ok_covered {
        let plan = ImagePlan { parts };
        proof {
            lemma_raw_plan_round_trip(plan, padded as int);
        }
        Ok(plan)
    } else {
        Err(PlanError::SplitRejected)
    }
}

} // verus!
