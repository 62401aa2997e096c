//! The chunked upload executor, as a state machine: from a plan, a cursor
//! and a cancellation snapshot it decides the next transport action; the
//! caller performs the action (open a stream, send bytes, commit) and
//! advances the cursor with what happened. Parts are streamed strictly in
//! order, each part's commit starts only after its stream is finalized, and
//! cancellation is consulted before each part, each chunk, and each buffer
//! fill — a confirmed abort stops the walk before the next byte moves.

use crate::interrupt::InterruptState;
use crate::plan::ImagePlan;
use crate::plan::spec_chunk_in_range;
use crate::plan::spec_parts_bounded;
use vstd::prelude::*;

verus! {

/// Where within the current part the executor stands.
#[derive(Clone, Copy, Debug, PartialEq, Eq, Structural)]
pub enum UploadPhase {
    /// About to open the part's download stream.
    PartStart,
    /// Stream opened; the part's header bytes go next.
    PartHeader,
    /// About to send the header bytes of this chunk.
    ChunkHeader { chunk: usize },
    /// Streaming this chunk's payload; `sent` bytes of it are already out.
    ChunkData { chunk: usize, sent: usize },
    /// All chunks streamed; the stream must be finalized.
    StreamEnd,
    /// Stream finalized; the part awaits its commit.
    CommitPart,
}

/// The executor's position within a plan.
#[derive(Clone, Copy, Debug, PartialEq, Eq, Structural)]
pub struct UploadCursor {
    pub part: usize,
    pub phase: UploadPhase,
}

/// What the caller must do next.
#[derive(Clone, Copy, Debug, PartialEq, Eq, Structural)]
pub enum UploadAction {
    /// A confirmed abort: stop at once, performing no further transport I/O.
    Abort,
    /// Open a transport download stream of exactly `size` bytes.
    OpenStream { size: usize },
    /// Send the header bytes of part `part`.
    SendPartHeader { part: usize },
    /// Send the header bytes of the given chunk.
    SendChunkHeader { part: usize, chunk: usize },
    /// Send up to `len` payload bytes of the given chunk, read from the
    /// source file at `offset`.
    SendFileData { part: usize, chunk: usize, offset: usize, len: usize },
    /// Finalize the open stream.
    FinishStream,
    /// Commit the streamed part to the target partition.
    Commit { part: usize },
    /// Every part is uploaded and committed.
    Done,
}

/// Every chunk of the plan addresses a payload within file offsets.
pub open spec fn spec_plan_in_range(plan: ImagePlan) -> bool {
    forall|i: int, k: int|
        0 <= i < plan.parts@.len() && 0 <= k < plan.parts@[i].chunks@.len()
            ==> spec_chunk_in_range(#[trigger] plan.parts@[i].chunks@[k])
}

/// A bounded plan addresses every payload within file offsets.
pub proof fn lemma_bounded_plan_in_range(plan: ImagePlan, max: u32)
    requires
        spec_parts_bounded(plan.parts@, max),
    ensures
        spec_plan_in_range(plan),
{
    assert forall|i: int, k: int|
        0 <= i < plan.parts@.len() && 0 <= k < plan.parts@[i].chunks@.len() implies spec_chunk_in_range(
        #[trigger] plan.parts@[i].chunks@[k],
    ) by {
        assert(crate::plan::spec_part_ok(plan.parts@[i], max));
    }
}

/// The cursor points at an existing part, chunk and payload byte.
pub open spec fn spec_cursor_wf(plan: ImagePlan, cur: UploadCursor) -> bool {
    &&& cur.part <= plan.parts@.len()
    &&& (cur.part == plan.parts@.len() ==> cur.phase == UploadPhase::PartStart)
    &&& (cur.part < plan.parts@.len() ==> match cur.phase {
        UploadPhase::PartStart => true,
        UploadPhase::PartHeader => true,
        UploadPhase::ChunkHeader { chunk } => chunk < plan.parts@[cur.part as int].chunks@.len(),
        UploadPhase::ChunkData { chunk, sent } => chunk < plan.parts@[
            cur.part as int
        ].chunks@.len() && sent < plan.parts@[cur.part as int].chunks@[chunk as int].size,
        UploadPhase::StreamEnd => true,
        UploadPhase::CommitPart => true,
    })
}

/// The executor starts at the first part, before any stream is opened.
pub open spec fn spec_initial_cursor() -> UploadCursor {
    UploadCursor { part: 0, phase: UploadPhase::PartStart }
}

pub fn initial_cursor() -> (c: UploadCursor)
    ensures
        c == spec_initial_cursor(),
{
    UploadCursor { part: 0, phase: UploadPhase::PartStart }
}

/// The initial cursor is well formed for every plan.
pub proof fn lemma_initial_cursor_wf(plan: ImagePlan)
    ensures
        spec_cursor_wf(plan, spec_initial_cursor()),
{
}

/// The decision the executor takes at a cursor, given a cancellation
/// snapshot: a confirmed abort wins at every granularity the pipeline
/// checks — before a part's stream is opened, before each chunk's header,
/// and before each buffer fill. A snapshot that is merely `interrupted`
/// does not stop anything.
pub open spec fn spec_next_action(
    plan: ImagePlan,
    cur: UploadCursor,
    cancel: InterruptState,
) -> UploadAction {
    if cur.part >= plan.parts@.len() {
        UploadAction::Done
    } else {
        let p = plan.parts@[cur.part as int];
        match cur.phase {
            UploadPhase::PartStart => if cancel.confirmed_abort {
                UploadAction::Abort
            } else {
                UploadAction::OpenStream { size: p.total_size }
            },
            UploadPhase::PartHeader => UploadAction::SendPartHeader { part: cur.part },
            UploadPhase::ChunkHeader { chunk } => if cancel.confirmed_abort {
                UploadAction::Abort
            } else {
                UploadAction::SendChunkHeader { part: cur.part, chunk }
            },
            UploadPhase::ChunkData { chunk, sent } => if cancel.confirmed_abort {
                UploadAction::Abort
            } else {
                UploadAction::SendFileData {
                    part: cur.part,
                    chunk,
                    offset: (p.chunks@[chunk as int].source_offset + sent) as usize,
                    len: (p.chunks@[chunk as int].size - sent) as usize,
                }
            },
            UploadPhase::StreamEnd => UploadAction::FinishStream,
            UploadPhase::CommitPart => UploadAction::Commit { part: cur.part },
        }
    }
}

/// Decide the next transport action at `cur`.
pub fn next_action(plan: &ImagePlan, cur: &UploadCursor, cancel: &InterruptState) -> (a:
    UploadAction)
    requires
        spec_cursor_wf(*plan, *cur),
        spec_plan_in_range(*plan),
    ensures
        a == spec_next_action(*plan, *cur, *cancel),
{
    if cur.part >= plan.parts.len() {
        return UploadAction::Done;
    }
    let p = &plan.parts[cur.part];
    match cur.phase {
        UploadPhase::PartStart => {
            if cancel.confirmed_abort {
                UploadAction::Abort
            } else {
                UploadAction::OpenStream { size: p.total_size }
            }
        },
        UploadPhase::PartHeader => UploadAction::SendPartHeader { part: cur.part },
        UploadPhase::ChunkHeader { chunk } => {
            if cancel.confirmed_abort {
                UploadAction::Abort
            } else {
                UploadAction::SendChunkHeader { part: cur.part, chunk }
            }
        },
        UploadPhase::ChunkData { chunk, sent } => {
            if cancel.confirmed_abort {
                UploadAction::Abort
            } else {
                assert(spec_chunk_in_range(p.chunks@[chunk as int]));
                UploadAction::SendFileData {
                    part: cur.part,
                    chunk,
                    offset: p.chunks[chunk].source_offset + sent,
                    len: p.chunks[chunk].size - sent,
                }
            }
        },
        UploadPhase::StreamEnd => UploadAction::FinishStream,
        UploadPhase::CommitPart => UploadAction::Commit { part: cur.part },
    }
}

/// Advance after the part's download stream was opened: its header bytes
/// go next.
pub fn advance_opened(plan: &ImagePlan, cur: &UploadCursor) -> (r: UploadCursor)
    requires
        spec_cursor_wf(*plan, *cur),
        cur.part < plan.parts@.len(),
        cur.phase == UploadPhase::PartStart,
    ensures
        r == (UploadCursor { part: cur.part, phase: UploadPhase::PartHeader }),
        spec_cursor_wf(*plan, r),
{
    UploadCursor { part: cur.part, phase: UploadPhase::PartHeader }
}

/// Advance after the part's header bytes were sent: the first chunk
/// follows, or the stream is finalized if the part has none.
pub fn advance_part_header_sent(plan: &ImagePlan, cur: &UploadCursor) -> (r: UploadCursor)
    requires
        spec_cursor_wf(*plan, *cur),
        cur.part < plan.parts@.len(),
        cur.phase == UploadPhase::PartHeader,
    ensures
        r == (UploadCursor {
            part: cur.part,
            phase: if plan.parts@[cur.part as int].chunks@.len() > 0 {
                UploadPhase::ChunkHeader { chunk: 0 }
            } else {
                UploadPhase::StreamEnd
            },
        }),
        spec_cursor_wf(*plan, r),
{
    if plan.parts[cur.part].chunks.len() > 0 {
        UploadCursor { part: cur.part, phase: UploadPhase::ChunkHeader { chunk: 0 } }
    } else {
        UploadCursor { part: cur.part, phase: UploadPhase::StreamEnd }
    }
}

/// Advance after a chunk's header bytes were sent: its payload follows; a
/// chunk without payload is complete at once and the walk moves on.
pub fn advance_chunk_header_sent(plan: &ImagePlan, cur: &UploadCursor, chunk: usize) -> (r:
    UploadCursor)
    requires
        spec_cursor_wf(*plan, *cur),
        cur.part < plan.parts@.len(),
        cur.phase == (UploadPhase::ChunkHeader { chunk }),
    ensures
        r == (UploadCursor {
            part: cur.part,
            phase: if plan.parts@[cur.part as int].chunks@[chunk as int].size > 0 {
                UploadPhase::ChunkData { chunk, sent: 0 }
            } else if chunk + 1 < plan.parts@[cur.part as int].chunks@.len() {
                UploadPhase::ChunkHeader { chunk: (chunk + 1) as usize }
            } else {
                UploadPhase::StreamEnd
            },
        }),
        spec_cursor_wf(*plan, r),
{
    let p = &plan.parts[cur.part];
    let n_chunks = p.chunks.len();
    assert(chunk < n_chunks);
    if p.chunks[chunk].size > 0 {
        UploadCursor { part: cur.part, phase: UploadPhase::ChunkData { chunk, sent: 0 } }
    } else if chunk + 1 < n_chunks {
        UploadCursor { part: cur.part, phase: UploadPhase::ChunkHeader { chunk: chunk + 1 } }
    } else {
        UploadCursor { part: cur.part, phase: UploadPhase::StreamEnd }
    }
}

/// Advance after `n` payload bytes of the current chunk went out: the
/// chunk continues, or — once its payload is complete — the next chunk's
/// header follows, or the stream is finalized after the last chunk.
pub fn advance_data_sent(
    plan: &ImagePlan,
    cur: &UploadCursor,
    chunk: usize,
    sent: usize,
    n: usize,
) -> (r: UploadCursor)
    requires
        spec_cursor_wf(*plan, *cur),
        cur.part < plan.parts@.len(),
        cur.phase == (UploadPhase::ChunkData { chunk, sent }),
        1 <= n <= plan.parts@[cur.part as int].chunks@[chunk as int].size - sent,
    ensures
        r == (UploadCursor {
            part: cur.part,
            phase: if sent + n < plan.parts@[cur.part as int].chunks@[chunk as int].size {
                UploadPhase::ChunkData { chunk, sent: (sent + n) as usize }
            } else if chunk + 1 < plan.parts@[cur.part as int].chunks@.len() {
                UploadPhase::ChunkHeader { chunk: (chunk + 1) as usize }
            } else {
                UploadPhase::StreamEnd
            },
        }),
        spec_cursor_wf(*plan, r),
{
    let p = &plan.parts[cur.part];
    let n_chunks = p.chunks.len();
    assert(chunk < n_chunks);
    if sent + n < p.chunks[chunk].size {
        UploadCursor { part: cur.part, phase: UploadPhase::ChunkData { chunk, sent: sent + n } }
    } else if chunk + 1 < n_chunks {
        UploadCursor { part: cur.part, phase: UploadPhase::ChunkHeader { chunk: chunk + 1 } }
    } else {
        UploadCursor { part: cur.part, phase: UploadPhase::StreamEnd }
    }
}

/// Advance after the stream was finalized: the part awaits its commit.
pub fn advance_stream_finished(plan: &ImagePlan, cur: &UploadCursor) -> (r: UploadCursor)
    requires
        spec_cursor_wf(*plan, *cur),
        cur.part < plan.parts@.len(),
        cur.phase == UploadPhase::StreamEnd,
    ensures
        r == (UploadCursor { part: cur.part, phase: UploadPhase::CommitPart }),
        spec_cursor_wf(*plan, r),
{
    UploadCursor { part: cur.part, phase: UploadPhase::CommitPart }
}

/// Advance after the part's commit returned: the next part begins. Only
/// here does the part index move, so no part's upload overlaps another's
/// commit.
pub fn advance_committed(plan: &ImagePlan, cur: &UploadCursor) -> (r: UploadCursor)
    requires
        spec_cursor_wf(*plan, *cur),
        cur.part < plan.parts@.len(),
        cur.phase == UploadPhase::CommitPart,
    ensures
        r == (UploadCursor { part: (cur.part + 1) as usize, phase: UploadPhase::PartStart }),
        spec_cursor_wf(*plan, r),
{
    let n_parts = plan.parts.len();
    assert(cur.part < n_parts);
    UploadCursor { part: cur.part + 1, phase: UploadPhase::PartStart }
}

/// A cancellation snapshot already confirming the abort stops the executor
/// at its very first decision: the action for the initial cursor of a
/// non-empty plan is Abort, before any stream is opened and before any
/// byte is written to the transport.
pub proof fn lemma_confirmed_abort_blocks_first_byte(plan: ImagePlan, cancel: InterruptState)
    requires
        cancel.confirmed_abort,
        plan.parts@.len() > 0,
    ensures
        spec_next_action(plan, spec_initial_cursor(), cancel) == UploadAction::Abort,
{
}

} // verus!
