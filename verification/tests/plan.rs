use mtk_flash::image::{ChunkHead, ChunkKind, FileHead};
use mtk_flash::plan::{plan_raw, plan_structured, ImagePlan, PlanError};

const MIB: usize = 1024 * 1024;

/// Every payload byte range of the plan, in upload order.
fn payload_ranges(plan: &ImagePlan) -> Vec<(usize, usize)> {
    let mut out = Vec::new();
    for p in &plan.parts {
        for c in &p.chunks {
            if c.size > 0 {
                out.push((c.source_offset, c.size));
            }
        }
    }
    out
}

/// The ranges must tile `lo..hi` contiguously, in order.
fn assert_contiguous(ranges: &[(usize, usize)], lo: usize, hi: usize) {
    let mut pos = lo;
    for &(off, len) in ranges {
        assert_eq!(off, pos, "payload read out of order");
        pos += len;
    }
    assert_eq!(pos, hi, "payload does not cover the source");
}

#[test]
fn raw_image_that_fits_becomes_one_whole_file_part() {
    let plan = plan_raw(1000, 4096).unwrap();
    assert_eq!(plan.parts.len(), 1);
    let part = &plan.parts[0];
    assert_eq!(part.total_size, 1000);
    assert!(part.header_bytes.is_empty());
    assert_eq!(part.chunks.len(), 1);
    assert_eq!(part.chunks[0].source_offset, 0);
    assert_eq!(part.chunks[0].size, 1000);
    assert!(part.chunks[0].header_bytes.is_empty());
}

#[test]
fn scenario_a_ten_mib_raw_image_with_four_mib_buffer_yields_three_parts() {
    let max = (4 * MIB) as u32;
    let plan = plan_raw(10 * MIB, max).unwrap();
    assert_eq!(plan.parts.len(), 3);
    for part in &plan.parts {
        assert!(part.total_size <= max as usize, "part exceeds the transport buffer");
    }
    // Roughly 4 MiB + 4 MiB + 2 MiB of payload: as many whole blocks per
    // part as fit beside the headers, the remainder in the last part.
    let payloads: Vec<usize> = plan
        .parts
        .iter()
        .map(|p| p.chunks.iter().map(|c| c.size).sum())
        .collect();
    assert_eq!(payloads, vec![1023 * 4096, 1023 * 4096, 514 * 4096]);
    // 10 MiB is block-aligned, so the payloads tile the file exactly.
    assert_contiguous(&payload_ranges(&plan), 0, 10 * MIB);
}

#[test]
fn raw_split_covers_the_padded_file_when_unaligned() {
    let max = (4 * MIB) as u32;
    let size = 10 * MIB + 100;
    let plan = plan_raw(size, max).unwrap();
    let padded = size.div_ceil(4096) * 4096;
    assert_contiguous(&payload_ranges(&plan), 0, padded);
}

#[test]
fn scenario_b_structured_image_below_buffer_is_one_part() {
    let head = FileHead { block_size: 4096, blocks: 10, chunks: 2, checksum: 0 };
    let table = vec![
        ChunkHead { kind: ChunkKind::Raw, chunk_size: 2, total_size: 12 + 2 * 4096 },
        ChunkHead { kind: ChunkKind::Fill, chunk_size: 8, total_size: 16 },
    ];
    let plan = plan_structured(&head, &table, MIB as u32).unwrap();
    assert_eq!(plan.parts.len(), 1, "one part, hence one commit");
    let part = &plan.parts[0];
    assert_eq!(part.chunks.len(), 2);
    // The raw data area follows the file header and the first chunk header.
    assert_eq!(part.chunks[0].source_offset, 28 + 12);
    assert_eq!(part.chunks[0].size, 2 * 4096);
    // The fill value follows the second chunk header.
    assert_eq!(part.chunks[1].source_offset, 28 + 12 + 2 * 4096 + 12);
    assert_eq!(part.chunks[1].size, 4);
    assert_eq!(part.total_size, 28 + 12 + 2 * 4096 + 12 + 4);
    assert!(part.total_size <= MIB);
}

#[test]
fn structured_split_parts_stay_bounded_and_ordered() {
    // Two raw chunks of 1024 blocks against a 512-block buffer: the codec
    // must split them into several bounded parts.
    let head = FileHead { block_size: 4096, blocks: 2048, chunks: 2, checksum: 0 };
    let table = vec![
        ChunkHead { kind: ChunkKind::Raw, chunk_size: 1024, total_size: 12 + 1024 * 4096 },
        ChunkHead { kind: ChunkKind::Raw, chunk_size: 1024, total_size: 12 + 1024 * 4096 },
    ];
    let max = (512 * 4096) as u32;
    let plan = plan_structured(&head, &table, max).unwrap();
    assert!(plan.parts.len() > 1);
    for part in &plan.parts {
        assert!(part.total_size <= max as usize);
        assert_eq!(part.header_bytes.len(), 28);
        for c in &part.chunks {
            assert_eq!(c.header_bytes.len(), 12);
        }
    }
    // The payload reads tile the two declared data areas, in order, and no
    // single read crosses from one area into the next.
    let areas = [(28 + 12, 1024 * 4096), (28 + 12 + 1024 * 4096 + 12, 1024 * 4096)];
    let mut t = 0;
    let mut off = 0;
    for (o, l) in payload_ranges(&plan) {
        while off == areas[t].1 {
            t += 1;
            off = 0;
        }
        assert_eq!(o, areas[t].0 + off, "read out of order");
        assert!(l <= areas[t].1 - off, "read crosses a data area");
        off += l;
    }
    assert!(t == 1 && off == areas[1].1, "the areas are not fully covered");
}

#[test]
fn structured_plan_skips_dont_care_data() {
    let head = FileHead { block_size: 4096, blocks: 12, chunks: 3, checksum: 0 };
    let table = vec![
        ChunkHead { kind: ChunkKind::Raw, chunk_size: 2, total_size: 12 + 2 * 4096 },
        ChunkHead { kind: ChunkKind::DontCare, chunk_size: 8, total_size: 12 },
        ChunkHead { kind: ChunkKind::Raw, chunk_size: 2, total_size: 12 + 2 * 4096 },
    ];
    let plan = plan_structured(&head, &table, MIB as u32).unwrap();
    assert_eq!(plan.parts.len(), 1);
    let ranges = payload_ranges(&plan);
    assert_eq!(ranges.len(), 2);
    assert_eq!(ranges[0], (40, 2 * 4096));
    // The second raw data area sits past the don't-care entry's header and
    // past its own: 40 + 8192 bytes of first area, then two 12-byte headers.
    assert_eq!(ranges[1], (40 + 2 * 4096 + 12 + 12, 2 * 4096));
}

#[test]
fn zero_block_size_is_rejected_before_the_splitter_runs() {
    // A parseable header may declare a zero block size; the splitter's
    // arithmetic divides by it, so planning must refuse it up front.
    let head = FileHead { block_size: 0, blocks: 2, chunks: 1, checksum: 0 };
    let table = vec![ChunkHead { kind: ChunkKind::Raw, chunk_size: 2, total_size: 12 + 2 * 4096 }];
    let r = plan_structured(&head, &table, MIB as u32);
    assert!(matches!(r, Err(PlanError::InvalidTable)));
}

#[test]
fn near_maximal_block_size_is_rejected() {
    let head = FileHead { block_size: u32::MAX - 10, blocks: 1, chunks: 1, checksum: 0 };
    let table = vec![ChunkHead { kind: ChunkKind::Raw, chunk_size: 1, total_size: 24 }];
    let r = plan_structured(&head, &table, u32::MAX);
    assert!(matches!(r, Err(PlanError::InvalidTable)));
}

#[test]
fn chunk_whose_bytes_overflow_32_bits_is_rejected() {
    // 2^20 blocks of 4096 bytes exceed what a 32-bit byte count holds.
    let head = FileHead { block_size: 4096, blocks: 1 << 20, chunks: 1, checksum: 0 };
    let table =
        vec![ChunkHead { kind: ChunkKind::Raw, chunk_size: 1 << 20, total_size: u32::MAX }];
    let r = plan_structured(&head, &table, MIB as u32);
    assert!(matches!(r, Err(PlanError::InvalidTable)));
}

#[test]
fn raw_image_past_the_splitters_block_range_is_rejected() {
    // Beyond 0xffff_f000 bytes the splitter's 32-bit block offsets would
    // overflow; planning refuses instead.
    let r = plan_raw(0xffff_f001, (4 * MIB) as u32);
    assert!(matches!(r, Err(PlanError::ImageTooLarge)));
    // The largest size it can take still splits fine.
    let plan = plan_raw(0xffff_f000, (4 * MIB) as u32).unwrap();
    assert!(plan.parts.len() > 1);
}

#[test]
fn tiny_buffer_is_rejected_for_raw_split() {
    // The buffer must fit a file header, two chunk headers and one block.
    let r = plan_raw(10 * MIB, 100);
    assert!(matches!(r, Err(PlanError::SplitTooSmall)));
}

#[test]
fn tiny_buffer_is_rejected_for_structured_split() {
    let head = FileHead { block_size: 4096, blocks: 2, chunks: 1, checksum: 0 };
    let table = vec![ChunkHead { kind: ChunkKind::Raw, chunk_size: 2, total_size: 12 + 2 * 4096 }];
    let r = plan_structured(&head, &table, 100);
    assert!(matches!(r, Err(PlanError::SplitTooSmall)));
}

#[test]
fn every_plan_part_fits_the_advertised_maximum() {
    // A sweep over sizes around the buffer boundary: no returned part may
    // ever exceed the maximum.
    let max = (64 * 4096) as u32;
    for size in [1usize, 4095, 4096, 64 * 4096 - 1, 64 * 4096, 64 * 4096 + 1, 300 * 4096 + 17] {
        match plan_raw(size, max) {
            Ok(plan) => {
                for part in &plan.parts {
                    assert!(part.total_size <= max as usize);
                }
            },
            Err(e) => panic!("planning {size} bytes failed: {e:?}"),
        }
    }
}
