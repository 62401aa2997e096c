use mtk_flash::interrupt::InterruptState;
use mtk_flash::plan::plan_raw;
use mtk_flash::upload::{
    advance_chunk_header_sent, advance_committed, advance_data_sent, advance_opened,
    advance_part_header_sent, advance_stream_finished, initial_cursor, next_action, UploadAction,
};

fn calm() -> InterruptState {
    InterruptState::new()
}

fn confirmed() -> InterruptState {
    InterruptState { interrupted: true, confirmed_abort: true }
}

#[test]
fn executor_streams_a_single_part_plan_in_order() {
    let plan = plan_raw(100, 200).unwrap();
    let cancel = calm();
    let mut cur = initial_cursor();

    assert_eq!(next_action(&plan, &cur, &cancel), UploadAction::OpenStream { size: 100 });
    cur = advance_opened(&plan, &cur);

    assert_eq!(next_action(&plan, &cur, &cancel), UploadAction::SendPartHeader { part: 0 });
    cur = advance_part_header_sent(&plan, &cur);

    assert_eq!(
        next_action(&plan, &cur, &cancel),
        UploadAction::SendChunkHeader { part: 0, chunk: 0 }
    );
    cur = advance_chunk_header_sent(&plan, &cur, 0);

    // The transport takes the payload in two increments.
    assert_eq!(
        next_action(&plan, &cur, &cancel),
        UploadAction::SendFileData { part: 0, chunk: 0, offset: 0, len: 100 }
    );
    cur = advance_data_sent(&plan, &cur, 0, 0, 60);
    assert_eq!(
        next_action(&plan, &cur, &cancel),
        UploadAction::SendFileData { part: 0, chunk: 0, offset: 60, len: 40 }
    );
    cur = advance_data_sent(&plan, &cur, 0, 60, 40);

    assert_eq!(next_action(&plan, &cur, &cancel), UploadAction::FinishStream);
    cur = advance_stream_finished(&plan, &cur);

    assert_eq!(next_action(&plan, &cur, &cancel), UploadAction::Commit { part: 0 });
    cur = advance_committed(&plan, &cur);

    assert_eq!(next_action(&plan, &cur, &cancel), UploadAction::Done);
}

#[test]
fn confirmed_abort_stops_before_the_first_byte() {
    let plan = plan_raw(100, 200).unwrap();
    let cur = initial_cursor();
    assert_eq!(next_action(&plan, &cur, &confirmed()), UploadAction::Abort);
}

#[test]
fn a_single_signal_does_not_interrupt_work() {
    let plan = plan_raw(100, 200).unwrap();
    let cur = initial_cursor();
    let armed = InterruptState { interrupted: true, confirmed_abort: false };
    assert_eq!(next_action(&plan, &cur, &armed), UploadAction::OpenStream { size: 100 });
}

#[test]
fn confirmed_abort_wins_mid_chunk() {
    let plan = plan_raw(100, 200).unwrap();
    let calm = calm();
    let mut cur = initial_cursor();
    cur = advance_opened(&plan, &cur);
    cur = advance_part_header_sent(&plan, &cur);
    // Before the chunk header.
    assert_eq!(next_action(&plan, &cur, &confirmed()), UploadAction::Abort);
    cur = advance_chunk_header_sent(&plan, &cur, 0);
    // Before a buffer fill, half way through the payload.
    cur = advance_data_sent(&plan, &cur, 0, 0, 50);
    assert_eq!(next_action(&plan, &cur, &confirmed()), UploadAction::Abort);
    assert_eq!(
        next_action(&plan, &cur, &calm),
        UploadAction::SendFileData { part: 0, chunk: 0, offset: 50, len: 50 }
    );
}

#[test]
fn parts_are_committed_strictly_in_order() {
    // Three parts: the executor must commit part n before touching part n+1.
    let plan = plan_raw(10 * 1024 * 1024, (4 * 1024 * 1024) as u32).unwrap();
    assert_eq!(plan.parts.len(), 3);
    let cancel = calm();
    let mut cur = initial_cursor();
    let mut commits = Vec::new();
    let mut opened = Vec::new();
    loop {
        match next_action(&plan, &cur, &cancel) {
            UploadAction::Done => break,
            UploadAction::Abort => panic!("no abort was requested"),
            UploadAction::OpenStream { size } => {
                assert_eq!(commits.len(), opened.len(), "previous part not committed");
                opened.push(size);
                cur = advance_opened(&plan, &cur);
            },
            UploadAction::SendPartHeader { .. } => {
                cur = advance_part_header_sent(&plan, &cur);
            },
            UploadAction::SendChunkHeader { chunk, .. } => {
                cur = advance_chunk_header_sent(&plan, &cur, chunk);
            },
            UploadAction::SendFileData { chunk, len, .. } => {
                let sent = match cur.phase {
                    mtk_flash::upload::UploadPhase::ChunkData { sent, .. } => sent,
                    _ => unreachable!(),
                };
                // Take at most half of what is offered, to exercise the
                // bounded-increment path.
                let n = if len > 1 { len / 2 } else { len };
                cur = advance_data_sent(&plan, &cur, chunk, sent, n);
            },
            UploadAction::FinishStream => {
                cur = advance_stream_finished(&plan, &cur);
            },
            UploadAction::Commit { part } => {
                commits.push(part);
                cur = advance_committed(&plan, &cur);
            },
        }
    }
    assert_eq!(commits, vec![0, 1, 2]);
    assert_eq!(opened.len(), 3);
}
