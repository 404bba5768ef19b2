use vfio_user::dma::{spans_owed_back, PROT_READ, PROT_WRITE};
use vfio_user::{DeviceContext, DmaError, DmaRange, DmaSpan};

const ENTRY: usize = 32;

fn ctx_with_region() -> DeviceContext {
    let mut ctx = DeviceContext::new(true);
    ctx.bind_session(0xabc0);
    ctx.dma_register(0x10_0000, 0x10_0000);
    ctx
}

fn range(len: usize, entries: isize, max: usize) -> DmaRange {
    let ctx = ctx_with_region();
    let req = ctx.dma_request(0x10_0000, len, max, true, false, ENTRY).unwrap();
    ctx.dma_range(req, entries, vec![0u8; req.buffer_len()]).unwrap()
}

#[test]
fn request_checks_arguments() {
    let empty = DeviceContext::new(true);
    assert_eq!(empty.dma_request(0x1000, 16, 1, true, true, ENTRY), Err(DmaError::NoMappableRegions));
    let ctx = ctx_with_region();
    assert_eq!(ctx.dma_request(0x1000, 0, 1, true, true, ENTRY), Err(DmaError::EmptyRange));
    assert_eq!(ctx.dma_request(0x1000, 16, 0, true, true, ENTRY), Err(DmaError::NoEntriesAllowed));
    assert_eq!(ctx.dma_request(0x1000, 16, usize::MAX, true, true, ENTRY), Err(DmaError::BufferTooLarge));
}

#[test]
fn request_permission_mask() {
    let ctx = ctx_with_region();
    let r = ctx.dma_request(0x2000, 64, 4, true, true, ENTRY).unwrap();
    assert_eq!(r.dma_addr(), 0x2000);
    assert_eq!(r.len(), 64);
    assert_eq!(r.max_regions(), 4);
    assert_eq!(r.prot(), 3);
    assert_eq!(r.entry_size(), ENTRY);
    assert_eq!(r.buffer_len(), 128);
    assert_eq!(ctx.dma_request(0x2000, 64, 4, true, false, ENTRY).unwrap().prot(), PROT_READ);
    assert_eq!(ctx.dma_request(0x2000, 64, 4, false, true, ENTRY).unwrap().prot(), PROT_WRITE);
    assert_eq!(ctx.dma_request(0x2000, 64, 4, false, false, ENTRY).unwrap().prot(), 0);
}

#[test]
fn two_entries_with_budget_of_one() {
    let ctx = ctx_with_region();
    let req = ctx.dma_request(0x10_0ff0, 0x20, 1, true, false, ENTRY).unwrap();
    // the session reports -(required) - 1
    let r = ctx.dma_range(req, -3, vec![0u8; req.buffer_len()]);
    assert_eq!(r.err(), Some(DmaError::InsufficientCapacity { required: 2, available: 1 }));
}

#[test]
fn translation_return_codes() {
    let ctx = ctx_with_region();
    let req = ctx.dma_request(0x10_0000, 0x20, 2, true, false, ENTRY).unwrap();
    assert_eq!(ctx.dma_range(req, 0, vec![0u8; 64]).err(), Some(DmaError::NoEntriesCreated));
    assert!(matches!(ctx.dma_range(req, -1, vec![0u8; 64]).err(), Some(DmaError::Os { .. })));
    assert_eq!(
        ctx.dma_range(req, 3, vec![0u8; 64]).err(),
        Some(DmaError::TooManyEntries { count: 3, available: 2 })
    );
    assert_eq!(
        ctx.dma_range(req, 1, vec![0u8; 10]).err(),
        Some(DmaError::SizeMismatch { expected: 64, actual: 10 })
    );
    let r = ctx.dma_range(req, 2, vec![7u8; 64]).unwrap();
    assert_eq!(r.size(), 0x20);
    assert_eq!(r.region_count(), 2);
    assert_eq!(r.handle(), 0xabc0);
    assert_eq!(r.entry_size(), ENTRY);
    assert_eq!(r.sgl_buffer().len(), 64);
    assert_eq!(r.entry_offset(1), ENTRY);
}

#[test]
fn mappable_range_maps_to_spans_covering_the_length() {
    let r = range(0x3000, 2, 4);
    assert!(r.is_mappable(&[true, true]));
    let spans = vec![DmaSpan { base: 0x7000_0000, len: 0x1000 }, DmaSpan { base: 0x7100_0000, len: 0x2000 }];
    let m = r.into_mapping(&[true, true], 0, spans).unwrap();
    assert_eq!(m.total_length(), 0x3000);
    assert_eq!(m.region_count(), 2);
    assert_eq!(m.region_length(1), 0x2000);
    assert_eq!(m.base_addresses(), vec![0x7000_0000, 0x7100_0000]);
    assert_eq!(m.lengths(), vec![0x1000, 0x2000]);
    assert_eq!(m.span(0), DmaSpan { base: 0x7000_0000, len: 0x1000 });
}

#[test]
fn one_unmappable_entry_fails_without_spans() {
    let r = range(0x3000, 2, 4);
    assert!(!r.is_mappable(&[true, false]));
    let spans = vec![DmaSpan { base: 0x7000_0000, len: 0x1000 }, DmaSpan { base: 0x7100_0000, len: 0x2000 }];
    assert_eq!(r.into_mapping(&[true, false], 0, spans).err(), Some(DmaError::NotMappable));
}

#[test]
fn mapping_rejects_wrong_spans() {
    let flags = [true, true];
    let r = range(0x3000, 2, 4);
    assert!(!r.is_mappable(&[true]));
    let one = vec![DmaSpan { base: 0x7000_0000, len: 0x3000 }];
    assert_eq!(
        r.into_mapping(&flags, 0, one).err(),
        Some(DmaError::SpanCountMismatch { expected: 2, actual: 1 })
    );
    let r = range(0x3000, 2, 4);
    let short = vec![DmaSpan { base: 1, len: 0x1000 }, DmaSpan { base: 2, len: 0x1000 }];
    assert_eq!(r.into_mapping(&flags, 0, short).err(), Some(DmaError::SpanLengthMismatch));
    let r = range(0x3000, 2, 4);
    let huge = vec![DmaSpan { base: 1, len: usize::MAX }, DmaSpan { base: 2, len: 2 }];
    assert_eq!(r.into_mapping(&flags, 0, huge).err(), Some(DmaError::SpanLengthMismatch));
    let r = range(0x3000, 2, 4);
    let ok = vec![DmaSpan { base: 1, len: 0x1000 }, DmaSpan { base: 2, len: 0x2000 }];
    assert!(matches!(r.into_mapping(&flags, -1, ok).err(), Some(DmaError::Os { .. })));
}

#[test]
fn release_hands_back_the_range_once() {
    let r = range(0x1000, 1, 1);
    let m = r.into_mapping(&[true], 0, vec![DmaSpan { base: 0x5000, len: 0x1000 }]).unwrap();
    let (back, count) = m.release();
    assert_eq!(count, 1);
    assert_eq!(back.size(), 0x1000);
    assert_eq!(back.handle(), 0xabc0);
}

#[test]
fn write_needs_exact_size() {
    let r = range(8, 1, 1);
    assert_eq!(r.check_write(&[1, 2, 3, 4, 5, 6, 7, 8]), Ok(()));
    assert_eq!(r.check_write(&[1, 2, 3]), Err(DmaError::SizeMismatch { expected: 8, actual: 3 }));
    assert_eq!(r.check_write(&[0; 9]), Err(DmaError::SizeMismatch { expected: 8, actual: 9 }));
    assert_eq!(r.check_write(&[]), Err(DmaError::SizeMismatch { expected: 8, actual: 0 }));
}

#[test]
fn read_buffer_and_outcome() {
    let r = range(6, 1, 1);
    let buf = r.read_buffer();
    assert_eq!(buf, vec![0u8; 6]);
    assert_eq!(r.read_outcome(0, vec![1, 2, 3, 4, 5, 6]), Ok(vec![1, 2, 3, 4, 5, 6]));
    assert_eq!(r.read_outcome(0, vec![1]), Err(DmaError::SizeMismatch { expected: 6, actual: 1 }));
    assert!(matches!(r.read_outcome(-1, buf), Err(DmaError::Os { .. })));
    assert_eq!(DmaRange::transfer_outcome(0), Ok(()));
    assert!(matches!(DmaRange::transfer_outcome(-1), Err(DmaError::Os { .. })));
}

#[test]
fn translation_on_emptied_table_has_no_mappable_regions() {
    let mut ctx = ctx_with_region();
    let req = ctx.dma_request(0x10_0000, 16, 1, true, false, ENTRY).unwrap();
    assert_eq!(ctx.dma_unregister(0x10_0000), Some(0x10_0000));
    let r = ctx.dma_range(req, 1, vec![0u8; ENTRY]);
    assert_eq!(r.err(), Some(DmaError::NoMappableRegions));
}

#[test]
fn spans_are_given_back_only_after_a_successful_request() {
    assert!(spans_owed_back(DmaError::SpanLengthMismatch, 0));
    assert!(spans_owed_back(DmaError::SpanCountMismatch { expected: 2, actual: 1 }, 0));
    assert!(!spans_owed_back(DmaError::SpanLengthMismatch, -1));
    assert!(!spans_owed_back(DmaError::NotMappable, 0));
}
