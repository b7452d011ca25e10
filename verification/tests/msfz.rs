use mspdb::msfz::{
    check_chunk_table_size, check_msfz_header, chunk_slice_stream_data, copy_fragment_from_chunk,
    decode_chunk_table, decode_fragment_location, decode_stream_dir, encode_fragment_location,
    encode_stream_dir, MsfzStream, is_header_msfz, ChunkEntry,
    Compression, Fragment, FragmentLocation, MsfzDirectory, MsfzFileHeader, MsfzOpenError,
    ReadStreamError, StreamData, StreamDirError, StreamReadPlan, Summary, COMPRESSION_DEFLATE,
    COMPRESSION_NONE, COMPRESSION_ZSTD, MSFZ_FILE_SIGNATURE, NIL_STREAM_SIZE,
};
use std::sync::Arc;

#[test]
fn compression_codes() {
    assert_eq!(Compression::Zstd.to_code(), COMPRESSION_ZSTD);
    assert_eq!(Compression::Deflate.to_code(), COMPRESSION_DEFLATE);
    assert_eq!(Compression::try_from_code(1), Ok(Compression::Zstd));
    assert_eq!(Compression::try_from_code(2), Ok(Compression::Deflate));
    assert!(Compression::try_from_code(0).is_err());
    assert_eq!(Compression::try_from_code_opt(COMPRESSION_NONE), Ok(None));
    assert_eq!(Compression::try_from_code_opt(2), Ok(Some(Compression::Deflate)));
    assert!(Compression::try_from_code_opt(7).is_err());
}

#[test]
fn header_signature() {
    let mut h = vec![0u8; 80];
    assert!(!is_header_msfz(&h));
    h[..32].copy_from_slice(&MSFZ_FILE_SIGNATURE);
    assert!(is_header_msfz(&h));
}

fn header_bytes(num_streams: u32, compression: u32, num_chunks: u32, chunk_table_size: u32) -> Vec<u8> {
    let mut h = vec![0u8; 80];
    h[..32].copy_from_slice(&MSFZ_FILE_SIGNATURE);
    h[40..48].copy_from_slice(&0x100u64.to_le_bytes());
    h[48..56].copy_from_slice(&0x200u64.to_le_bytes());
    h[56..60].copy_from_slice(&num_streams.to_le_bytes());
    h[60..64].copy_from_slice(&compression.to_le_bytes());
    h[68..72].copy_from_slice(&24u32.to_le_bytes());
    h[72..76].copy_from_slice(&num_chunks.to_le_bytes());
    h[76..80].copy_from_slice(&chunk_table_size.to_le_bytes());
    h
}

#[test]
fn decode_and_check_header() {
    let h = MsfzFileHeader::decode(&header_bytes(3, COMPRESSION_ZSTD, 2, 40));
    assert_eq!(h.num_streams, 3);
    assert_eq!(h.stream_dir_offset, 0x100);
    assert_eq!(h.chunk_table_offset, 0x200);
    assert_eq!(h.stream_dir_size_uncompressed, 24);
    assert_eq!(check_msfz_header(&h), Ok(Some(Compression::Zstd)));
    assert_eq!(check_chunk_table_size(&h), Ok(2));

    let h = MsfzFileHeader::decode(&header_bytes(0, COMPRESSION_NONE, 2, 41));
    assert_eq!(check_msfz_header(&h), Err(MsfzOpenError::EmptyStreamDir));
    assert_eq!(check_chunk_table_size(&h), Err(MsfzOpenError::ChunkTableInconsistent));

    let h = MsfzFileHeader::decode(&header_bytes(1, 9, 0, 0));
    assert_eq!(check_msfz_header(&h), Err(MsfzOpenError::UnsupportedCompression));

    let mut b = header_bytes(1, 0, 0, 0);
    b[0] = b'X';
    assert_eq!(check_msfz_header(&MsfzFileHeader::decode(&b)), Err(MsfzOpenError::WrongSignature));
    let mut b = header_bytes(1, 0, 0, 0);
    b[32] = 1;
    assert_eq!(check_msfz_header(&MsfzFileHeader::decode(&b)), Err(MsfzOpenError::UnsupportedVersion));
}

fn dir_bytes() -> Vec<u8> {
    let mut b = Vec::new();
    // stream 0: nil
    b.extend_from_slice(&NIL_STREAM_SIZE.to_le_bytes());
    // stream 1: two fragments, one compressed and one uncompressed
    b.extend_from_slice(&10u32.to_le_bytes());
    b.extend_from_slice(&((1u64 << 63) | (3u64 << 32) | 5).to_le_bytes());
    b.extend_from_slice(&4u32.to_le_bytes());
    b.extend_from_slice(&0x1234u64.to_le_bytes());
    b.extend_from_slice(&0u32.to_le_bytes());
    // stream 2: empty
    b.extend_from_slice(&0u32.to_le_bytes());
    // stream 3: a single compressed fragment
    b.extend_from_slice(&6u32.to_le_bytes());
    b.extend_from_slice(&((1u64 << 63) | 2).to_le_bytes());
    b.extend_from_slice(&0u32.to_le_bytes());
    b
}

#[test]
fn stream_dir_decoding() {
    assert_eq!(
        decode_fragment_location((1u64 << 63) | (3u64 << 32) | 5),
        FragmentLocation::Compressed { chunk_index: 3, offset_within_chunk: 5 }
    );
    assert_eq!(decode_fragment_location(77), FragmentLocation::Uncompressed { file_offset: 77 });

    let b = dir_bytes();
    let dir = decode_stream_dir(&b, 4).unwrap();
    assert_eq!(dir.len(), 4);
    assert!(dir[0].is_none());
    let s1 = dir[1].as_ref().unwrap();
    assert_eq!(
        s1.fragments,
        vec![
            Fragment { size: 10, location: FragmentLocation::Compressed { chunk_index: 3, offset_within_chunk: 5 } },
            Fragment { size: 4, location: FragmentLocation::Uncompressed { file_offset: 0x1234 } },
        ]
    );
    assert!(dir[2].as_ref().unwrap().fragments.is_empty());

    assert_eq!(decode_stream_dir(&b, 5).err(), Some(StreamDirError::OutOfBytes));
    let mut bad = Vec::new();
    bad.extend_from_slice(&10u32.to_le_bytes());
    bad.extend_from_slice(&0u64.to_le_bytes());
    bad.extend_from_slice(&NIL_STREAM_SIZE.to_le_bytes());
    assert_eq!(decode_stream_dir(&bad, 1).err(), Some(StreamDirError::NonInitialNilFragment));

    let d = MsfzDirectory { stream_dir: dir, chunk_table: Vec::new() };
    assert_eq!(d.num_streams(), 4);
    assert!(!d.is_stream_valid(0));
    assert!(d.is_stream_valid(1));
    assert!(!d.is_stream_valid(9));
    assert_eq!(d.stream_size(0), 0);
    assert_eq!(d.stream_size(1), 14);
}

#[test]
fn read_stream_plans() {
    let dir = decode_stream_dir(&dir_bytes(), 4).unwrap();
    let d = MsfzDirectory { stream_dir: dir, chunk_table: Vec::new() };
    assert_eq!(d.plan_read_stream(9).err(), Some(ReadStreamError::InvalidStreamIndex));
    assert!(matches!(d.plan_read_stream(0), Ok(StreamReadPlan::Empty)));
    assert!(matches!(d.plan_read_stream(2), Ok(StreamReadPlan::Empty)));
    match d.plan_read_stream(3) {
        Ok(StreamReadPlan::ChunkSlice { chunk_index, offset, size }) => {
            assert_eq!((chunk_index, offset, size), (0, 2, 6));
        }
        _ => panic!("expected a chunk slice"),
    }
    match d.plan_read_stream(1) {
        Ok(StreamReadPlan::Pieces { size, pieces }) => {
            assert_eq!(size, 14);
            assert_eq!(pieces.len(), 2);
            assert_eq!(pieces[0].stream_offset, 0);
            assert_eq!(pieces[1].stream_offset, 10);
        }
        _ => panic!("expected pieces"),
    }
}

#[test]
fn stream_data_from_chunks() {
    let chunk = Arc::new(b"0123456789".to_vec());
    let d = chunk_slice_stream_data(chunk.clone(), 2, 3).unwrap();
    assert_eq!(d.as_slice(), b"234");
    assert!(!d.is_empty());
    assert_eq!(d.into_vec(), b"234".to_vec());
    assert_eq!(chunk_slice_stream_data(chunk.clone(), 8, 3).err(), Some(ReadStreamError::FragmentOutOfRange));

    let mut out = vec![b'.'; 6];
    copy_fragment_from_chunk(&mut out, 1, &chunk, 4, 3).unwrap();
    assert_eq!(out, b".456..".to_vec());
    assert_eq!(copy_fragment_from_chunk(&mut out, 0, &chunk, 9, 2), Err(ReadStreamError::FragmentOutOfRange));
    assert!(StreamData::empty().is_empty());
    assert_eq!(StreamData::Box(vec![1, 2]).into_vec(), vec![1, 2]);
}

#[test]
fn chunk_table_and_summary() {
    let mut b = Vec::new();
    b.extend_from_slice(&0x40u64.to_le_bytes());
    b.extend_from_slice(&1u32.to_le_bytes());
    b.extend_from_slice(&10u32.to_le_bytes());
    b.extend_from_slice(&30u32.to_le_bytes());
    let t = decode_chunk_table(&b, 1);
    assert_eq!(
        t,
        vec![ChunkEntry { file_offset: 0x40, compression: 1, compressed_size: 10, uncompressed_size: 30 }]
    );
    let s = Summary { num_chunks: 3, num_streams: 12 };
    assert_eq!(s.to_string(), "Number of chunks: 3\nNumber of streams: 12\n");
}

#[test]
fn stream_dir_encode_decode_roundtrip() {
    let f1 = Fragment { size: 10, location: FragmentLocation::Uncompressed { file_offset: 0x1234 } };
    let f2 = Fragment {
        size: 7,
        location: FragmentLocation::Compressed { chunk_index: 3, offset_within_chunk: 0x40 },
    };
    let streams = vec![
        None,
        Some(MsfzStream { fragments: vec![f1, f2] }),
        Some(MsfzStream { fragments: vec![] }),
    ];
    let bytes = encode_stream_dir(&streams);
    // nil (4) + two fragments (2 * 12) + terminator (4) + empty list terminator (4)
    assert_eq!(bytes.len(), 36);
    assert_eq!(&bytes[0..4], &NIL_STREAM_SIZE.to_le_bytes());
    assert_eq!(
        encode_fragment_location(f2.location),
        0x8000_0000_0000_0000 | (3u64 << 32) | 0x40
    );
    let dir = decode_stream_dir(&bytes, 3).unwrap();
    assert!(dir[0].is_none());
    assert_eq!(dir[1].as_ref().unwrap().fragments, vec![f1, f2]);
    assert!(dir[2].as_ref().unwrap().fragments.is_empty());
}

use mspdb::msfz::{add_fragment_compressed, add_fragment_uncompressed};

#[test]
fn uncompressed_fragments_coalesce_when_contiguous() {
    let mut fs: Vec<Fragment> = Vec::new();
    add_fragment_uncompressed(&mut fs, 100, 0x1000);
    add_fragment_uncompressed(&mut fs, 50, 0x1064);
    assert_eq!(fs, vec![Fragment { size: 150, location: FragmentLocation::Uncompressed { file_offset: 0x1000 } }]);
    // A gap starts a new fragment.
    add_fragment_uncompressed(&mut fs, 10, 0x2000);
    assert_eq!(fs.len(), 2);
    assert_eq!(fs[1], Fragment { size: 10, location: FragmentLocation::Uncompressed { file_offset: 0x2000 } });
}

#[test]
fn compressed_fragments_coalesce_within_a_chunk() {
    let mut fs: Vec<Fragment> = Vec::new();
    add_fragment_compressed(&mut fs, 8, 3, 0);
    add_fragment_compressed(&mut fs, 4, 3, 8);
    assert_eq!(fs, vec![Fragment { size: 12, location: FragmentLocation::Compressed { chunk_index: 3, offset_within_chunk: 0 } }]);
    // Another chunk starts a new fragment, and so does a file offset.
    add_fragment_compressed(&mut fs, 4, 4, 12);
    add_fragment_uncompressed(&mut fs, 4, 16);
    assert_eq!(fs.len(), 3);
    assert_eq!(fs[1], Fragment { size: 4, location: FragmentLocation::Compressed { chunk_index: 4, offset_within_chunk: 12 } });
}
