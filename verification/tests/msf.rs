use mspdb::msf::pages::StreamPageMapper;
use mspdb::msf::{
    big_stream_dir_map_pages, check_stream_dir_page, decode_big_stream_dir, decode_small_stream_dir,
    find_longest_page_run, is_file_header_msf, num_pages_for_stream_size, offset_within_page,
    page_to_offset, parse_msf_header, small_stream_dir_num_pages, MsfKind, MsfOpenError, PageSize,
    MIN_FILE_HEADER_SIZE, MSF_BIG_MAGIC, MSF_SMALL_MAGIC, NIL_STREAM_SIZE,
};

#[test]
fn test_find_longest_page_run() {
    assert_eq!(find_longest_page_run(&[]), 0);
    assert_eq!(find_longest_page_run(&[1]), 1);
    assert_eq!(find_longest_page_run(&[1, 2, 3]), 3);
    assert_eq!(find_longest_page_run(&[1, 3, 2]), 1);
    assert_eq!(find_longest_page_run(&[1, 2, 3, 9, 9, 9]), 3);
}

fn big_page0(page_size: u32, active_fpm: u32, num_pages: u32, stream_dir_size: u32) -> Vec<u8> {
    let mut p = vec![0u8; 512];
    p[..32].copy_from_slice(&MSF_BIG_MAGIC);
    p[32..36].copy_from_slice(&page_size.to_le_bytes());
    p[36..40].copy_from_slice(&active_fpm.to_le_bytes());
    p[40..44].copy_from_slice(&num_pages.to_le_bytes());
    p[44..48].copy_from_slice(&stream_dir_size.to_le_bytes());
    p
}

#[test]
fn recognizes_msf_headers() {
    let mut h = vec![0u8; MIN_FILE_HEADER_SIZE];
    assert!(!is_file_header_msf(&h));
    h[..32].copy_from_slice(&MSF_BIG_MAGIC);
    assert!(is_file_header_msf(&h));
    let mut s = vec![0u8; MIN_FILE_HEADER_SIZE];
    s[..44].copy_from_slice(&MSF_SMALL_MAGIC);
    assert!(is_file_header_msf(&s));
    assert!(!is_file_header_msf(&MSF_BIG_MAGIC[..31]));
}

#[test]
fn parse_big_header() {
    let p = big_page0(4096, 1, 10, 16);
    let h = parse_msf_header(&p).unwrap();
    assert_eq!(h.kind, MsfKind::Big);
    assert_eq!(h.page_size.exponent(), 12);
    assert_eq!(h.page_size.bytes(), 4096);
    assert_eq!(h.active_fpm, 1);
    assert_eq!(h.num_pages, 10);
    assert_eq!(h.stream_dir_size, 16);
}

#[test]
fn parse_header_errors() {
    assert_eq!(parse_msf_header(&big_page0(4096, 3, 10, 16)).err(), Some(MsfOpenError::InvalidActiveFpm));
    assert_eq!(parse_msf_header(&big_page0(4000, 2, 10, 16)).err(), Some(MsfOpenError::PageSizeNotPow2(4000)));
    assert_eq!(parse_msf_header(&big_page0(4096, 2, 0, 16)).err(), Some(MsfOpenError::ZeroPages));
    let mut p = vec![0u8; 512];
    assert_eq!(parse_msf_header(&p).err(), Some(MsfOpenError::WrongMagic));
    p[16..24].copy_from_slice(b"PDB v1.0");
    assert_eq!(parse_msf_header(&p).err(), Some(MsfOpenError::PortablePdb));
    assert_eq!(
        MsfOpenError::PageSizeNotPow2(4000).to_string(),
        "The PDB header is invalid. The page size (4000) is not a power of 2."
    );
}

#[test]
fn parse_small_header() {
    let mut p = vec![0u8; 512];
    p[..44].copy_from_slice(&MSF_SMALL_MAGIC);
    p[0x2c..0x30].copy_from_slice(&1024u32.to_le_bytes());
    p[0x30..0x32].copy_from_slice(&1u16.to_le_bytes());
    p[0x32..0x34].copy_from_slice(&7u16.to_le_bytes());
    p[0x34..0x38].copy_from_slice(&40u32.to_le_bytes());
    let h = parse_msf_header(&p).unwrap();
    assert_eq!(h.kind, MsfKind::Small);
    assert_eq!(h.page_size.bytes(), 1024);
    assert_eq!(h.num_pages, 7);
    assert_eq!(small_stream_dir_num_pages(&h), Ok(1));
}

#[test]
fn big_stream_dir_map() {
    let mut p = big_page0(512, 1, 10, 1000);
    p[52..56].copy_from_slice(&5u32.to_le_bytes());
    let h = parse_msf_header(&p).unwrap();
    // 1000 bytes of stream directory need 2 pages; their page numbers fit in 1 page.
    assert_eq!(big_stream_dir_map_pages(&p, &h), Ok(vec![5]));
    let bad = parse_msf_header(&big_page0(512, 1, 10, 1002)).unwrap();
    assert_eq!(big_stream_dir_map_pages(&p, &bad), Err(MsfOpenError::StreamDirSizeNotAligned));
}

#[test]
fn special_pages() {
    let ps = PageSize::from_exponent(12);
    assert_eq!(check_stream_dir_page(ps, 0), Err(MsfOpenError::InvalidStreamDirPage(0)));
    assert_eq!(check_stream_dir_page(ps, 1), Err(MsfOpenError::InvalidStreamDirPage(1)));
    assert_eq!(check_stream_dir_page(ps, 4098), Err(MsfOpenError::InvalidStreamDirPage(4098)));
    assert_eq!(check_stream_dir_page(ps, 3), Ok(()));
    assert_eq!(check_stream_dir_page(ps, 4096), Ok(()));
}

#[test]
fn page_arithmetic() {
    let ps = PageSize::from_exponent(12);
    assert_eq!(num_pages_for_stream_size(0, ps), 0);
    assert_eq!(num_pages_for_stream_size(1, ps), 1);
    assert_eq!(num_pages_for_stream_size(4096, ps), 1);
    assert_eq!(num_pages_for_stream_size(4097, ps), 2);
    assert_eq!(num_pages_for_stream_size(NIL_STREAM_SIZE, ps), 0);
    assert_eq!(num_pages_for_stream_size(0xffff_fffe, ps), 0x10_0000);
    assert_eq!(offset_within_page(0x1234, ps), 0x234);
    assert_eq!(page_to_offset(3, ps), 0x3000);
    assert_eq!(PageSize::try_from_u32(4096).map(|p| p.exponent()), Some(12));
    assert!(PageSize::try_from_u32(4095).is_none());
}

#[test]
fn decode_big_dir() {
    let ps = PageSize::from_exponent(12);
    // 3 streams: sizes 100, nil, 5000; pages 7 | (none) | 8, 9
    let dir = [3, 100, NIL_STREAM_SIZE, 5000, 7, 8, 9];
    let d = decode_big_stream_dir(&dir, ps).unwrap();
    assert_eq!(d.stream_sizes, vec![0, NIL_STREAM_SIZE, 5000]);
    assert_eq!(d.committed_stream_pages, vec![7, 8, 9]);
    assert_eq!(d.committed_stream_page_starts, vec![0, 1, 1, 3]);
    assert_eq!(d.num_streams(), 3);
    assert!(d.is_stream_valid(0));
    assert!(!d.is_stream_valid(1));
    assert!(!d.is_stream_valid(3));
    assert_eq!(d.stream_size(1), 0);
    assert_eq!(d.stream_size(2), 5000);
    let (size, pages) = d.stream_size_and_pages(2, ps).unwrap();
    assert_eq!(size, 5000);
    assert_eq!(pages, &[8, 9]);
    assert!(d.stream_size_and_pages(3, ps).is_none());

    assert_eq!(decode_big_stream_dir(&[], ps).err(), Some(MsfOpenError::EmptyStreamDir));
    assert_eq!(decode_big_stream_dir(&[0], ps).err(), Some(MsfOpenError::ZeroStreams));
    assert_eq!(decode_big_stream_dir(&[3, 1], ps).err(), Some(MsfOpenError::NumStreamsInconsistent));
    assert_eq!(
        decode_big_stream_dir(&[2, 10, 5000, 7, 8], ps).err(),
        Some(MsfOpenError::StreamExceedsStreamDir { stream: 1, size: 5000 })
    );
}

#[test]
fn decode_small_dir() {
    let ps = PageSize::from_exponent(10);
    let mut b = Vec::new();
    b.extend_from_slice(&2u16.to_le_bytes());
    b.extend_from_slice(&0u16.to_le_bytes());
    b.extend_from_slice(&2000u32.to_le_bytes());
    b.extend_from_slice(&0u32.to_le_bytes());
    b.extend_from_slice(&NIL_STREAM_SIZE.to_le_bytes());
    b.extend_from_slice(&0u32.to_le_bytes());
    b.extend_from_slice(&4u16.to_le_bytes());
    b.extend_from_slice(&6u16.to_le_bytes());
    let d = decode_small_stream_dir(&b, ps).unwrap();
    assert_eq!(d.stream_sizes, vec![2000, NIL_STREAM_SIZE]);
    assert_eq!(d.committed_stream_pages, vec![4, 6]);
    assert_eq!(d.committed_stream_page_starts, vec![0, 2, 2]);
    assert_eq!(decode_small_stream_dir(&b[..b.len() - 1], ps).err(), Some(MsfOpenError::SmallStreamDirTooSmall));
}

use mspdb::msf::pages::{PageAllocator, PageMarkError};

#[test]
fn page_allocator_new_marks_special_pages_busy() {
    let a = PageAllocator::new(4100, PageSize::from_exponent(12));
    assert_eq!(a.fpm.len(), 4100);
    assert!(!a.fpm.get(0));
    assert!(!a.fpm.get(1));
    assert!(!a.fpm.get(2));
    assert!(a.fpm.get(3));
    assert!(a.fpm.get(4096));
    assert!(!a.fpm.get(4097));
    assert!(!a.fpm.get(4098));
    assert!(a.fpm.get(4099));
    assert!(!a.fpm_freed.get(5));
    assert!(!a.fresh.get(5));
}

#[test]
fn page_allocator_reuses_free_pages() {
    let mut a = PageAllocator::new(10, PageSize::from_exponent(12));
    assert_eq!(a.alloc_pages(3), (3, 3));
    assert!(!a.fpm.get(3) && !a.fpm.get(5));
    assert!(a.fresh.get(4));
    assert_eq!(a.next_free_page_hint, 6);
    // Only 4 free pages remain (6..10).
    assert_eq!(a.alloc_pages(100), (6, 4));
    assert_eq!(a.num_pages, 10);
}

#[test]
fn page_allocator_extends_the_file() {
    let mut a = PageAllocator::new(3, PageSize::from_exponent(12));
    assert_eq!(a.alloc_pages(5), (3, 5));
    assert_eq!(a.num_pages, 8);
    assert_eq!(a.fpm.len(), 8);
    assert!(a.fresh.get(7));

    // Positioned on FPM1 of the second interval: the two FPM pages are stepped over.
    let mut b = PageAllocator::new(4097, PageSize::from_exponent(12));
    b.next_free_page_hint = b.num_pages;
    assert_eq!(b.alloc_pages(2), (4099, 2));
    assert_eq!(b.num_pages, 4101);
    assert!(!b.fpm.get(4097) && !b.fpm.get(4098));

    // Positioned at the start of an interval: only one page can be added.
    let mut c = PageAllocator::new(4096, PageSize::from_exponent(12));
    c.next_free_page_hint = c.num_pages;
    assert_eq!(c.alloc_pages(10), (4096, 1));
    assert_eq!(c.alloc_page(), 4099);
}

#[test]
fn page_allocator_marks_and_merges() {
    let mut a = PageAllocator::new(8, PageSize::from_exponent(12));
    assert_eq!(a.init_mark_stream_dir_page_busy(9), Err(PageMarkError::OutOfRange(9)));
    assert_eq!(a.init_mark_stream_dir_page_busy(1), Err(PageMarkError::AlreadyBusy(1)));
    assert_eq!(a.init_mark_stream_dir_page_busy(4), Ok(()));
    assert!(!a.fpm.get(4));
    assert!(a.fpm_freed.get(4));
    assert_eq!(a.check_vector_consistency(), Ok(()));
    a.merge_freed_into_free();
    assert!(a.fpm.get(4));
    assert!(!a.fpm_freed.get(4));

    let mut page = 5u32;
    a.alloc_pages(1);
    assert_eq!(a.make_page_fresh(&mut page), 4);
    assert_eq!(page, 4);
}


#[test]
fn test_page_mapper_nil() {
    let page_size = PageSize::from_exponent(12); // 0x1000

    let mapper = StreamPageMapper::new(&[], page_size, NIL_STREAM_SIZE);
    assert_eq!(mapper.map(0, 0), None);
    assert_eq!(mapper.map(0x1000, 0x1000), None);
}

#[test]
fn test_page_mapper_basic() {
    let page_size = PageSize::from_exponent(12); // 0x1000

    let mapper = StreamPageMapper::new(&[5, 6, 7, 300, 301], page_size, 0x4abc);

    assert_eq!(mapper.map(0, 0), None, "empty read within stream boundary");

    assert_eq!(
        mapper.map(0x1000_0000, 0),
        None,
        "empty read outside stream boundary"
    );

    assert_eq!(
        mapper.map(0x1000_0000, 0x1000),
        None,
        "outside stream boundary"
    );

    assert_eq!(
        mapper.map(0, 0x10),
        Some((0x5000, 0x10)),
        "aligned start, unaligned end, within first page"
    );

    assert_eq!(
        mapper.map(0, 0x1000),
        Some((0x5000, 0x1000)),
        "aligned start, aligned end, single page"
    );

    assert_eq!(
        mapper.map(0, 0x1eee),
        Some((0x5000, 0x1eee)),
        "aligned start, crosses page boundary, unaligned end"
    );

    assert_eq!(
        mapper.map(0, 0x3eee),
        Some((0x5000, 0x3000)),
        "aligned start, crosses page boundary, unaligned end, clipped at page boundary"
    );

    assert_eq!(
        mapper.map(0, 0x1000_0000),
        Some((0x5000, 0x3000)),
        "aligned start, aligned end beyond stream size, max contiguous span"
    );

    assert_eq!(
        mapper.map(0xccc, 0x10),
        Some((0x5ccc, 0x10)),
        "unaligned start, ends within first page"
    );

    assert_eq!(
        mapper.map(0xccc, 0x1000),
        Some((0x5ccc, 0x1000)),
        "unaligned start, crosses page boundary, unaligned end"
    );

    assert_eq!(
        mapper.map(0xccc, 0x1000_0000),
        Some((0x5ccc, 0x2334)),
        "unaligned start, crosses page boundary, clipped at page boundary"
    );
}

use mspdb::msf::{build_big_page0, build_new_stream_dir, StreamDirectory};

#[test]
fn new_stream_dir_layout() {
    let ps = PageSize::from_exponent(12);
    let sizes = [0, 100, NIL_STREAM_SIZE, 5000];
    let pages = vec![vec![], vec![7], vec![], vec![8, 9]];
    let dir = build_new_stream_dir(&sizes, &pages, ps);
    assert_eq!(dir, vec![4, 0, 100, NIL_STREAM_SIZE, 5000, 7, 8, 9]);
}

#[test]
fn new_stream_dir_writes_zero_for_stream_0() {
    let ps = PageSize::from_exponent(12);
    let dir = build_new_stream_dir(&[NIL_STREAM_SIZE, 3], &[vec![], vec![11]], ps);
    assert_eq!(dir, vec![2, 0, 3, 11]);
}

#[test]
fn new_stream_dir_decodes_to_same_streams() {
    let ps = PageSize::from_exponent(12);
    let sizes = [0, 100, NIL_STREAM_SIZE, 5000, 0];
    let pages = vec![vec![], vec![7], vec![], vec![8, 9], vec![]];
    let dir = build_new_stream_dir(&sizes, &pages, ps);
    let d = decode_big_stream_dir(&dir, ps).unwrap();
    assert_eq!(d.stream_sizes, vec![0, 100, NIL_STREAM_SIZE, 5000, 0]);
    assert_eq!(d.stream_size_and_pages(1, ps).unwrap(), (100, &[7u32][..]));
    assert_eq!(d.stream_size_and_pages(2, ps).unwrap(), (NIL_STREAM_SIZE, &[][..]));
    assert_eq!(d.stream_size_and_pages(3, ps).unwrap(), (5000, &[8u32, 9][..]));
    assert_eq!(d.stream_size_and_pages(4, ps).unwrap(), (0, &[][..]));
}

#[test]
fn stream_pages_are_marked_busy() {
    let ps = PageSize::from_exponent(12);
    let mut a = PageAllocator::new(10, ps);
    assert_eq!(a.mark_stream_pages_busy(&[3, 4, 7]), Ok(()));
    assert!(!a.fpm.get(3) && !a.fpm.get(4) && !a.fpm.get(7));
    assert!(a.fpm.get(5) && a.fpm.get(6));
    assert!(!a.fpm_freed.get(3));
}

#[test]
fn bad_stream_pages_are_refused() {
    let ps = PageSize::from_exponent(12);
    // Page 0 holds the header.
    assert_eq!(PageAllocator::new(10, ps).mark_stream_pages_busy(&[3, 0]), Err(PageMarkError::AlreadyBusy(0)));
    // Pages 1 and 2 hold the Free Page Maps.
    assert_eq!(PageAllocator::new(10, ps).mark_stream_pages_busy(&[2]), Err(PageMarkError::AlreadyBusy(2)));
    // Out of range.
    assert_eq!(PageAllocator::new(10, ps).mark_stream_pages_busy(&[3, 10]), Err(PageMarkError::OutOfRange(10)));
    // Used twice.
    assert_eq!(PageAllocator::new(10, ps).mark_stream_pages_busy(&[3, 5, 3]), Err(PageMarkError::AlreadyBusy(3)));
    // Used by the Stream Directory.
    let mut a = PageAllocator::new(10, ps);
    assert_eq!(a.init_mark_stream_dir_page_busy(6), Ok(()));
    assert_eq!(a.mark_stream_pages_busy(&[6]), Err(PageMarkError::AlreadyBusy(6)));
    let mut b = PageAllocator::new(10, ps);
    assert_eq!(b.init_mark_stream_page_busy(4), Ok(()));
    assert_eq!(b.init_mark_stream_page_busy(4), Err(PageMarkError::AlreadyBusy(4)));
}

#[test]
fn truncating_a_stream_frees_its_last_pages() {
    let ps = PageSize::from_exponent(12);
    let mut a = PageAllocator::new(10, ps);
    let mut pages = vec![3, 4, 7];
    assert_eq!(a.mark_stream_pages_busy(&pages), Ok(()));
    // Shrinking the stream to 5000 bytes keeps two pages.
    let keep = num_pages_for_stream_size(5000, ps) as usize;
    a.release_stream_pages(&mut pages, keep);
    assert_eq!(pages, vec![3, 4]);
    assert!(a.fpm_freed.get(7));
    assert!(!a.fpm_freed.get(3) && !a.fpm_freed.get(4));
    assert!(!a.fpm.get(7));
    a.merge_freed_into_free();
    assert!(a.fpm.get(7));
}

#[test]
fn stream_directory_after_commit() {
    let ps = PageSize::from_exponent(12);
    let sizes = [0, 100, NIL_STREAM_SIZE, 5000];
    let pages = vec![vec![], vec![7], vec![], vec![8, 9]];
    let d = StreamDirectory::from_stream_pages(&sizes, &pages, ps);
    assert_eq!(d.stream_sizes, vec![0, 100, NIL_STREAM_SIZE, 5000]);
    assert_eq!(d.committed_stream_pages, vec![7, 8, 9]);
    assert_eq!(d.committed_stream_page_starts, vec![0, 0, 1, 1, 3]);
    assert_eq!(d.stream_size_and_pages(3, ps).unwrap(), (5000, &[8u32, 9][..]));
}

#[test]
fn appending_pages_to_a_stream() {
    let ps = PageSize::from_exponent(12);
    let mut a = PageAllocator::new(10, ps);
    let mut pages = vec![3];
    assert_eq!(a.mark_stream_pages_busy(&pages), Ok(()));
    a.next_free_page_hint = 4;
    assert_eq!(a.append_new_pages(&mut pages, 2), (4, 2));
    assert_eq!(pages, vec![3, 4, 5]);
    assert!(!a.fpm.get(4) && !a.fpm.get(5));
    assert!(a.fresh.get(4) && a.fresh.get(5));
    // Past the last free page, the file grows.
    a.next_free_page_hint = 10;
    assert_eq!(a.append_new_pages(&mut pages, 3), (10, 3));
    assert_eq!(pages, vec![3, 4, 5, 10, 11, 12]);
    assert_eq!(a.num_pages, 13);
}

#[test]
fn big_page0_reads_back() {
    let ps = PageSize::from_exponent(12);
    let page0 = build_big_page0(ps, 2, 100, 0x2000, &[17]);
    assert_eq!(page0.len(), 4096);
    assert_eq!(&page0[..32], &MSF_BIG_MAGIC[..]);
    assert!(page0[56..].iter().all(|&b| b == 0));
    let h = parse_msf_header(&page0[..512]).unwrap();
    assert_eq!(h.kind, MsfKind::Big);
    assert_eq!(h.page_size.bytes(), 4096);
    assert_eq!(h.active_fpm, 2);
    assert_eq!(h.num_pages, 100);
    assert_eq!(h.stream_dir_size, 0x2000);
    assert_eq!(big_stream_dir_map_pages(&page0[..512], &h).unwrap(), vec![17]);
}

use mspdb::msf::{split_into_pages, u32s_to_bytes};

#[test]
fn laying_out_pages() {
    let pages = split_into_pages(&[1, 2, 3, 4, 5], 2);
    assert_eq!(pages, vec![vec![1, 2], vec![3, 4], vec![5, 0]]);
    assert!(split_into_pages(&[], 4).is_empty());
    assert_eq!(split_into_pages(&[7, 8], 2), vec![vec![7, 8]]);
    assert_eq!(u32s_to_bytes(&[0x04030201, 9]), vec![1, 2, 3, 4, 9, 0, 0, 0]);
}

#[test]
fn fpm_pages_as_written() {
    let ps = PageSize::from_exponent(12);
    let mut a = PageAllocator::new(10, ps);
    assert_eq!(a.mark_stream_pages_busy(&[3, 9]), Ok(()));
    let page = a.fpm_page_bytes(0, 4096);
    assert_eq!(page.len(), 4096);
    // Pages 0, 1, 2, 3 busy; 4..8 free; 9 busy; the rest of the bits read as free.
    assert_eq!(page[0], 0b1111_0000);
    assert_eq!(page[1], 0b1111_1101);
    assert!(page[2..].iter().all(|&b| b == 0xff));
    assert!(a.fpm_page_bytes(1, 4096).iter().all(|&b| b == 0xff));
}
