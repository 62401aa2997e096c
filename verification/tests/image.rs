use mtk_flash::image::{
    chunk_data_len, chunk_header_bytes, file_header_bytes, parse_chunk_header, parse_file_header,
    ChunkHead, ChunkKind, FileHead, ParseError,
};

#[test]
fn file_header_round_trips_through_its_bytes() {
    let head = FileHead { block_size: 4096, blocks: 1024, chunks: 42, checksum: 0xabcd };
    let bytes = file_header_bytes(&head);
    assert_eq!(bytes.len(), 28);
    // The magic comes first, little-endian.
    assert_eq!(&bytes[0..4], &[0x3a, 0xff, 0x26, 0xed]);
    // Version 1.0, then the two declared header lengths.
    assert_eq!(&bytes[4..12], &[0x01, 0x00, 0x00, 0x00, 28, 0, 12, 0]);
    assert_eq!(parse_file_header(&bytes), Ok(head));
}

#[test]
fn chunk_header_round_trips_through_its_bytes() {
    for kind in [ChunkKind::Raw, ChunkKind::Fill, ChunkKind::DontCare, ChunkKind::Crc32] {
        let head = ChunkHead { kind, chunk_size: 8, total_size: 12 + 4 };
        let bytes = chunk_header_bytes(&head);
        assert_eq!(bytes.len(), 12);
        assert_eq!(parse_chunk_header(&bytes), Ok(head));
    }
}

#[test]
fn unknown_magic_is_reported() {
    let mut bytes = file_header_bytes(&FileHead {
        block_size: 4096,
        blocks: 1,
        chunks: 0,
        checksum: 0,
    });
    bytes[0] = 0x00;
    assert_eq!(parse_file_header(&bytes), Err(ParseError::UnknownMagic));
}

#[test]
fn unknown_version_is_reported() {
    let mut bytes = file_header_bytes(&FileHead {
        block_size: 4096,
        blocks: 1,
        chunks: 0,
        checksum: 0,
    });
    bytes[4] = 2;
    assert_eq!(parse_file_header(&bytes), Err(ParseError::UnknownVersion));
    bytes[4] = 1;
    bytes[6] = 1;
    assert_eq!(parse_file_header(&bytes), Err(ParseError::UnknownVersion));
}

#[test]
fn unexpected_declared_sizes_are_reported() {
    let mut bytes = file_header_bytes(&FileHead {
        block_size: 4096,
        blocks: 1,
        chunks: 0,
        checksum: 0,
    });
    bytes[8] = 27;
    assert_eq!(parse_file_header(&bytes), Err(ParseError::UnexpectedSize));
    bytes[8] = 28;
    bytes[10] = 11;
    assert_eq!(parse_file_header(&bytes), Err(ParseError::UnexpectedSize));
}

#[test]
fn unknown_chunk_type_is_reported() {
    let bytes = [0xc0u8, 0xca, 0, 0, 1, 0, 0, 0, 12, 0, 0, 0];
    assert_eq!(parse_chunk_header(&bytes), Err(ParseError::UnknownChunkType));
}

#[test]
fn chunk_data_len_is_the_total_less_the_header() {
    let c = ChunkHead { kind: ChunkKind::Fill, chunk_size: 1, total_size: 16 };
    assert_eq!(chunk_data_len(&c), 4);
    let c = ChunkHead { kind: ChunkKind::DontCare, chunk_size: 1, total_size: 12 };
    assert_eq!(chunk_data_len(&c), 0);
    // A declared total below the header length declares no data at all.
    let c = ChunkHead { kind: ChunkKind::DontCare, chunk_size: 1, total_size: 5 };
    assert_eq!(chunk_data_len(&c), 0);
}

#[test]
fn parsing_a_real_header_reads_all_fields_little_endian() {
    let bytes = [
        0x3au8, 0xff, 0x26, 0xed, 0x01, 0x00, 0x00, 0x00, 0x1c, 0x00, 0x0c, 0x00, 0x00, 0x10,
        0x00, 0x00, 0x10, 0x00, 0x00, 0x00, 0x03, 0x00, 0x00, 0x00, 0xaa, 0x00, 0x00, 0xcc,
    ];
    let head = parse_file_header(&bytes).unwrap();
    assert_eq!(head.block_size, 4096);
    assert_eq!(head.blocks, 16);
    assert_eq!(head.chunks, 3);
    assert_eq!(head.checksum, 0xcc0000aa);
}
