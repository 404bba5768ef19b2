//! DMA translation: a guest address range becomes a scatter-gather list
//! (a `DmaRange`), which is either copied through or mapped into host spans
//! (a `DmaMapping`).
use crate::context::DeviceContext;
use crate::platform::last_error;
use vstd::prelude::*;

verus! {

/// Permission bit: the range will be read.
pub const PROT_READ: i32 = 1;

/// Permission bit: the range will be written.
pub const PROT_WRITE: i32 = 2;

/// Failures of DMA translation, mapping and copying.
#[derive(Clone, Copy, Debug, PartialEq, Eq, Structural)]
pub enum DmaError {
    /// The requested length is zero.
    EmptyRange,
    /// The entry budget is zero.
    NoEntriesAllowed,
    /// The client has registered no DMA region.
    NoMappableRegions,
    /// The entry buffer for the budget does not fit in memory.
    BufferTooLarge,
    /// The translation produced no entry.
    NoEntriesCreated,
    /// The session failed with a platform error code.
    Os { errno: i32 },
    /// The range needs more entries than the budget allows.
    InsufficientCapacity { required: usize, available: usize },
    /// The session reported more entries than the budget allows.
    TooManyEntries { count: usize, available: usize },
    /// An entry of the range cannot be mapped into the host.
    NotMappable,
    /// The session handed out another number of spans than entries.
    SpanCountMismatch { expected: usize, actual: usize },
    /// The spans handed out do not cover the requested length.
    SpanLengthMismatch,
    /// A buffer's length differs from the one required.
    SizeMismatch { expected: usize, actual: usize },
}

/// The permission mask for a translation.
pub open spec fn spec_prot(read: bool, write: bool) -> i32 {
    if read && write {
        3
    } else if read {
        PROT_READ
    } else if write {
        PROT_WRITE
    } else {
        0
    }
}

/// The arguments of one address translation, checked and ready for the
/// session. Only `DeviceContext::dma_request` makes one, so its length and
/// entry budget are positive, its permission mask follows the read and write
/// flags, and its buffer holds one entry for each allowed region.
#[derive(Clone, Copy, Debug, PartialEq, Eq, Structural)]
pub struct SglRequest {
    dma_addr: usize,
    len: usize,
    max_regions: usize,
    read: bool,
    write: bool,
    prot: i32,
    entry_size: usize,
    buffer_len: usize,
}

impl SglRequest {
    #[verifier::type_invariant]
    spec fn wf(self) -> bool {
        &&& self.len > 0
        &&& self.max_regions > 0
        &&& self.prot == spec_prot(self.read, self.write)
        &&& self.buffer_len == self.entry_size * self.max_regions
    }

    pub closed spec fn spec_dma_addr(&self) -> usize {
        self.dma_addr
    }

    pub closed spec fn spec_len(&self) -> usize {
        self.len
    }

    pub closed spec fn spec_max_regions(&self) -> usize {
        self.max_regions
    }

    pub closed spec fn spec_read(&self) -> bool {
        self.read
    }

    pub closed spec fn spec_write(&self) -> bool {
        self.write
    }

    pub closed spec fn spec_prot(&self) -> i32 {
        self.prot
    }

    pub closed spec fn spec_entry_size(&self) -> usize {
        self.entry_size
    }

    pub closed spec fn spec_buffer_len(&self) -> usize {
        self.buffer_len
    }

    /// What every request satisfies.
    pub open spec fn spec_well_formed(&self) -> bool {
        &&& self.spec_len() > 0
        &&& self.spec_max_regions() > 0
        &&& self.spec_prot() == spec_prot(self.spec_read(), self.spec_write())
        &&& self.spec_buffer_len() == self.spec_entry_size() * self.spec_max_regions()
    }

    /// The guest address to translate.
    pub fn dma_addr(&self) -> (r: usize)
        ensures
            r == self.spec_dma_addr(),
    {
        self.dma_addr
    }

    /// The number of bytes to translate; positive.
    pub fn len(&self) -> (r: usize)
        ensures
            r == self.spec_len(),
            r > 0,
    {
        proof {
            use_type_invariant(self);
        }
        self.len
    }

    /// The budget of scatter-gather entries; positive.
    pub fn max_regions(&self) -> (r: usize)
        ensures
            r == self.spec_max_regions(),
            r > 0,
    {
        proof {
            use_type_invariant(self);
        }
        self.max_regions
    }

    /// The permission mask: read bit, write bit, or both.
    pub fn prot(&self) -> (r: i32)
        ensures
            r == self.spec_prot(),
            r == spec_prot(self.spec_read(), self.spec_write()),
            0 <= r <= 3,
    {
        proof {
            use_type_invariant(self);
        }
        self.prot
    }

    /// The size of one scatter-gather entry, as the session reports it.
    pub fn entry_size(&self) -> (r: usize)
        ensures
            r == self.spec_entry_size(),
    {
        self.entry_size
    }

    /// The size of the entry buffer: one entry for each allowed region.
    pub fn buffer_len(&self) -> (r: usize)
        ensures
            r == self.spec_buffer_len(),
            r == self.spec_entry_size() * self.spec_max_regions(),
    {
        proof {
            use_type_invariant(self);
        }
        self.buffer_len
    }
}

/// A host span that one scatter-gather entry is mapped to.
#[derive(Clone, Copy, Debug, PartialEq, Eq, Structural)]
pub struct DmaSpan {
    pub base: usize,
    pub len: usize,
}

/// The total length of a list of spans.
pub open spec fn span_total(spans: Seq<DmaSpan>) -> int
    decreases spans.len(),
{
    if spans.len() == 0 {
        0
    } else {
        span_total(spans.drop_last()) + spans.last().len
    }
}

proof fn lemma_span_total_prefix(spans: Seq<DmaSpan>, i: int)
    requires
        0 <= i <= spans.len(),
    ensures
        span_total(spans.take(i)) <= span_total(spans),
    decreases spans.len(),
{
    if i < spans.len() {
        assert(spans.drop_last().take(i) == spans.take(i));
        lemma_span_total_prefix(spans.drop_last(), i);
    } else {
        assert(spans.take(i) == spans);
    }
}

impl DeviceContext {
    /// Checks the arguments of a translation and builds its request: the
    /// length and the entry budget must be positive and the client must have
    /// registered a DMA region.
    pub fn dma_request(
        &self,
        dma_addr: usize,
        len: usize,
        max_regions: usize,
        read: bool,
        write: bool,
        entry_size: usize,
    ) -> (r: Result<SglRequest, DmaError>)
        ensures
            len == 0 ==> r == Err::<SglRequest, DmaError>(DmaError::EmptyRange),
            len > 0 && max_regions == 0 ==> r == Err::<SglRequest, DmaError>(
                DmaError::NoEntriesAllowed,
            ),
            len > 0 && max_regions > 0 && self.spec_dma_regions().len() == 0 ==> r == Err::<
                SglRequest,
                DmaError,
            >(DmaError::NoMappableRegions),
            len > 0 && max_regions > 0 && self.spec_dma_regions().len() > 0 && entry_size
                * max_regions > usize::MAX ==> r == Err::<SglRequest, DmaError>(
                DmaError::BufferTooLarge,
            ),
            len > 0 && max_regions > 0 && self.spec_dma_regions().len() > 0 && entry_size
                * max_regions <= usize::MAX ==> (r matches Ok(q) && q.spec_dma_addr() == dma_addr
                && q.spec_len() == len && q.spec_max_regions() == max_regions && q.spec_read()
                == read && q.spec_write() == write && q.spec_prot() == spec_prot(read, write)
                && q.spec_entry_size() == entry_size && q.spec_buffer_len() == entry_size
                * max_regions),
    {
        if len == 0 {
            return Err(DmaError::EmptyRange);
        }
        if max_regions == 0 {
            return Err(DmaError::NoEntriesAllowed);
        }
        if !self.has_dma_regions() {
            return Err(DmaError::NoMappableRegions);
        }
        let mut prot: i32 = 0;
        if read {
            prot = prot + PROT_READ;
        }
        if write {
            prot = prot + PROT_WRITE;
        }
        let buffer_len = match entry_size.checked_mul(max_regions) {
            Some(n) => n,
            None => {
                return Err(DmaError::BufferTooLarge);
            },
        };
        Ok(SglRequest { dma_addr, len, max_regions, read, write, prot, entry_size, buffer_len })
    }

    /// The range that a translation produced, from the session's return value
    /// `ret` and the entry buffer it filled: `ret` counts the entries, `0`
    /// means none, `-1` a platform error (its code is read from the platform)
    /// and anything lower that `-ret - 1` entries would have been needed. A
    /// context whose DMA table is empty has no range to give.
    pub fn dma_range(&self, request: SglRequest, ret: isize, sgl_buffer: Vec<u8>) -> (r: Result<
        DmaRange,
        DmaError,
    >)
        ensures
            self.spec_dma_regions().len() == 0 ==> r == Err::<DmaRange, DmaError>(
                DmaError::NoMappableRegions,
            ),
            self.spec_dma_regions().len() > 0 && ret == 0 ==> r == Err::<DmaRange, DmaError>(
                DmaError::NoEntriesCreated,
            ),
            self.spec_dma_regions().len() > 0 && ret == -1 ==> r matches Err(DmaError::Os { .. }),
            self.spec_dma_regions().len() > 0 && ret < -1 ==> r == Err::<DmaRange, DmaError>(
                DmaError::InsufficientCapacity {
                    required: (-ret - 1) as usize,
                    available: request.spec_max_regions(),
                },
            ),
            self.spec_dma_regions().len() > 0 && ret > 0 && ret > request.spec_max_regions() ==> r
                == Err::<DmaRange, DmaError>(
                DmaError::TooManyEntries {
                    count: ret as usize,
                    available: request.spec_max_regions(),
                },
            ),
            self.spec_dma_regions().len() > 0 && ret > 0 && ret <= request.spec_max_regions()
                && sgl_buffer@.len() != request.spec_buffer_len() ==> r == Err::<DmaRange, DmaError>(
                DmaError::SizeMismatch {
                    expected: request.spec_buffer_len(),
                    actual: sgl_buffer@.len() as usize,
                },
            ),
            self.spec_dma_regions().len() > 0 && ret > 0 && ret <= request.spec_max_regions()
                && sgl_buffer@.len() == request.spec_buffer_len() ==> (r matches Ok(range)
                && range.spec_size() == request.spec_len() && range.spec_region_count() == ret
                && range.spec_entry_size() == request.spec_entry_size() && range.spec_sgl()
                == sgl_buffer@ && range.spec_handle() == self.spec_handle()),
            r is Ok ==> self.spec_dma_regions().len() > 0 && request.spec_well_formed() && 0
                <= request.spec_prot() <= 3 && sgl_buffer@.len() == request.spec_entry_size() * request.spec_max_regions(),
    {
        proof {
            use_type_invariant(&request);
        }
        if !self.has_dma_regions() {
            return Err(DmaError::NoMappableRegions);
        }
        if ret == 0 {
            return Err(DmaError::NoEntriesCreated);
        }
        if ret == -1 {
            return Err(DmaError::Os { errno: last_error() });
        }
        if ret < -1 {
            return Err(
                DmaError::InsufficientCapacity {
                    required: (-(ret + 1)) as usize,
                    available: request.max_regions,
                },
            );
        }
        let region_count = ret as usize;
        if region_count > request.max_regions {
            return Err(
                DmaError::TooManyEntries { count: region_count, available: request.max_regions },
            );
        }
        if sgl_buffer.len() != request.buffer_len {
            return Err(
                DmaError::SizeMismatch { expected: request.buffer_len, actual: sgl_buffer.len() },
            );
        }
        proof {
            assert(region_count * request.entry_size <= request.max_regions * request.entry_size)
                by (nonlinear_arith)
                requires
                    region_count <= request.max_regions,
            ;
            assert(request.max_regions * request.entry_size == request.entry_size
                * request.max_regions) by (nonlinear_arith);
        }
        Ok(
            DmaRange {
                handle: self.handle(),
                sgl_buffer,
                entry_size: request.entry_size,
                size: request.len,
                region_count,
            },
        )
    }
}

/// The scatter-gather list of one translated guest range.
#[derive(Debug)]
pub struct DmaRange {
    handle: usize,
    sgl_buffer: Vec<u8>,
    entry_size: usize,
    size: usize,
    region_count: usize,
}

impl DmaRange {
    #[verifier::type_invariant]
    spec fn wf(self) -> bool {
        &&& self.size > 0
        &&& self.region_count > 0
        &&& self.region_count * self.entry_size <= self.sgl_buffer@.len()
        &&& self.sgl_buffer@.len() <= usize::MAX
    }

    pub closed spec fn spec_size(&self) -> usize {
        self.size
    }

    pub closed spec fn spec_region_count(&self) -> usize {
        self.region_count
    }

    pub closed spec fn spec_entry_size(&self) -> usize {
        self.entry_size
    }

    pub closed spec fn spec_sgl(&self) -> Seq<u8> {
        self.sgl_buffer@
    }

    pub closed spec fn spec_handle(&self) -> usize {
        self.handle
    }

    /// Every entry is mappable, by one flag for each entry.
    pub open spec fn spec_all_mappable(&self, entry_mappable: Seq<bool>) -> bool {
        entry_mappable.len() == self.spec_region_count() && forall|i: int|
            0 <= i < entry_mappable.len() ==> #[trigger] entry_mappable[i]
    }

    /// The total number of bytes that the range covers.
    pub fn size(&self) -> (r: usize)
        ensures
            r == self.spec_size(),
            r > 0,
    {
        proof {
            use_type_invariant(self);
        }
        self.size
    }

    /// The number of scatter-gather entries of the range.
    pub fn region_count(&self) -> (r: usize)
        ensures
            r == self.spec_region_count(),
            r > 0,
    {
        proof {
            use_type_invariant(self);
        }
        self.region_count
    }

    /// The handle of the session that translated the range.
    pub fn handle(&self) -> (r: usize)
        ensures
            r == self.spec_handle(),
    {
        self.handle
    }

    /// The size of one scatter-gather entry.
    pub fn entry_size(&self) -> (r: usize)
        ensures
            r == self.spec_entry_size(),
    {
        self.entry_size
    }

    /// The buffer that holds the entries.
    pub fn sgl_buffer(&self) -> (r: &Vec<u8>)
        ensures
            r@ == self.spec_sgl(),
    {
        &self.sgl_buffer
    }

    /// The byte offset of entry `index` in the entry buffer.
    pub fn entry_offset(&self, index: usize) -> (r: usize)
        requires
            index < self.spec_region_count(),
        ensures
            r == index * self.spec_entry_size(),
            r + self.spec_entry_size() <= self.spec_sgl().len(),
    {
        proof {
            use_type_invariant(self);
            assert((index + 1) * self.entry_size <= self.region_count * self.entry_size)
                by (nonlinear_arith)
                requires
                    index < self.region_count,
            ;
            assert((index + 1) * self.entry_size == index * self.entry_size + self.entry_size)
                by (nonlinear_arith);
            assert(self.sgl_buffer@.len() <= usize::MAX);
            assert(index * self.entry_size <= usize::MAX);
        }
        index * self.entry_size
    }

    /// Whether the whole range can be mapped into the host: there is one flag
    /// for each entry and every flag is set.
    pub fn is_mappable(&self, entry_mappable: &[bool]) -> (r: bool)
        ensures
            r == self.spec_all_mappable(entry_mappable@),
    {
        if entry_mappable.len() != self.region_count {
            return false;
        }
        let mut i: usize = 0;
        while i < entry_mappable.len()
            invariant
                i <= entry_mappable@.len(),
                forall|k: int| 0 <= k < i ==> #[trigger] entry_mappable@[k],
            decreases entry_mappable@.len() - i,
        {
            if !entry_mappable[i] {
                return false;
            }
            i = i + 1;
        }
        true
    }

    /// Checks that `data` has exactly the size of the range before it is written.
    pub fn check_write(&self, data: &[u8]) -> (r: Result<(), DmaError>)
        ensures
            data@.len() == self.spec_size() ==> r == Ok::<(), DmaError>(()),
            data@.len() != self.spec_size() ==> r == Err::<(), DmaError>(
                DmaError::SizeMismatch { expected: self.spec_size(), actual: data@.len() as usize },
            ),
    {
        if data.len() != self.size {
            Err(DmaError::SizeMismatch { expected: self.size, actual: data.len() })
        } else {
            Ok(())
        }
    }

    /// A zeroed buffer of the range's size, for the session to read into.
    pub fn read_buffer(&self) -> (r: Vec<u8>)
        ensures
            r@.len() == self.spec_size(),
            forall|i: int| 0 <= i < r@.len() ==> r@[i] == 0u8,
    {
        let mut buffer: Vec<u8> = Vec::with_capacity(self.size);
        let mut i: usize = 0;
        while i < self.size
            invariant
                i <= self.size,
                buffer@.len() == i,
                forall|k: int| 0 <= k < i ==> buffer@[k] == 0u8,
            decreases self.size - i,
        {
            buffer.push(0u8);
            i = i + 1;
        }
        buffer
    }

    /// The outcome of a copy through the session: `0` is success, any other
    /// value a platform error.
    pub fn transfer_outcome(ret: i32) -> (r: Result<(), DmaError>)
        ensures
            ret == 0 ==> r == Ok::<(), DmaError>(()),
            ret != 0 ==> r matches Err(DmaError::Os { .. }),
    {
        if ret != 0 {
            Err(DmaError::Os { errno: last_error() })
        } else {
            Ok(())
        }
    }

    /// The bytes read from the range: the filled buffer, if the copy succeeded
    /// and the buffer has the range's size.
    pub fn read_outcome(&self, ret: i32, buffer: Vec<u8>) -> (r: Result<Vec<u8>, DmaError>)
        ensures
            ret != 0 ==> r matches Err(DmaError::Os { .. }),
            ret == 0 && buffer@.len() != self.spec_size() ==> r == Err::<Vec<u8>, DmaError>(
                DmaError::SizeMismatch { expected: self.spec_size(), actual: buffer@.len() as usize },
            ),
            ret == 0 && buffer@.len() == self.spec_size() ==> (r matches Ok(b) && b@ == buffer@),
    {
        if ret != 0 {
            return Err(DmaError::Os { errno: last_error() });
        }
        if buffer.len() != self.size {
            return Err(DmaError::SizeMismatch { expected: self.size, actual: buffer.len() });
        }
        Ok(buffer)
    }

    /// Turns the range into a mapping, given one mappability flag for each
    /// entry and the session's answer to the request for host spans (its
    /// return value and the spans). Nothing is mapped unless every
    /// entry is mappable; the spans must be one for each entry and cover the
    /// range's size exactly.
    pub fn into_mapping(self, entry_mappable: &[bool], ret: i32, spans: Vec<DmaSpan>) -> (r:
        Result<DmaMapping, DmaError>)
        ensures
            !self.spec_all_mappable(entry_mappable@) ==> r == Err::<DmaMapping, DmaError>(
                DmaError::NotMappable,
            ),
            self.spec_all_mappable(entry_mappable@) && ret != 0 ==> r matches Err(DmaError::Os { .. }),
            self.spec_all_mappable(entry_mappable@) && ret == 0 && spans@.len()
                != self.spec_region_count() ==> r == Err::<DmaMapping, DmaError>(
                DmaError::SpanCountMismatch {
                    expected: self.spec_region_count(),
                    actual: spans@.len() as usize,
                },
            ),
            self.spec_all_mappable(entry_mappable@) && ret == 0 && spans@.len()
                == self.spec_region_count() && span_total(spans@) != self.spec_size() ==> r == Err::<
                DmaMapping,
                DmaError,
            >(DmaError::SpanLengthMismatch),
            self.spec_all_mappable(entry_mappable@) && ret == 0 && spans@.len()
                == self.spec_region_count() && span_total(spans@) == self.spec_size() ==> (r matches Ok(
                m,
            ) && m.spec_spans() == spans@ && m.spec_size() == self.spec_size() && m.spec_handle()
                == self.spec_handle() && m.spec_sgl() == self.spec_sgl()),
            r matches Ok(m) ==> span_total(m.spec_spans()) == self.spec_size(),
    {
        if !self.is_mappable(entry_mappable) {
            return Err(DmaError::NotMappable);
        }
        if ret != 0 {
            return Err(DmaError::Os { errno: last_error() });
        }
        if spans.len() != self.region_count {
            return Err(
                DmaError::SpanCountMismatch { expected: self.region_count, actual: spans.len() },
            );
        }
        let mut total: usize = 0;
        let mut i: usize = 0;
        while i < spans.len()
            invariant
                i <= spans@.len(),
                total == span_total(spans@.take(i as int)),
                self.spec_all_mappable(entry_mappable@),
                ret == 0,
                spans@.len() == self.spec_region_count(),
            decreases spans@.len() - i,
        {
            proof {
                assert(spans@.take(i + 1).drop_last() == spans@.take(i as int));
            }
            match total.checked_add(spans[i].len) {
                Some(t) => {
                    total = t;
                },
                None => {
                    proof {
                        lemma_span_total_prefix(spans@, i + 1);
                        use_type_invariant(&self);
                    }
                    return Err(DmaError::SpanLengthMismatch);
                },
            }
            i = i + 1;
        }
        proof {
            assert(spans@.take(spans@.len() as int) == spans@);
        }
        if total != self.size {
            return Err(DmaError::SpanLengthMismatch);
        }
        Ok(DmaMapping { range: self, spans })
    }
}

/// Whether a failed mapping still holds host spans that must be given back to
/// the session: the session's request for spans succeeded (`ret == 0`) and
/// the failure came after it, that is, not from an unmappable entry, which is
/// found before any span is requested.
pub fn spans_owed_back(error: DmaError, ret: i32) -> (r: bool)
    ensures
        r == (ret == 0 && error != DmaError::NotMappable),
{
    ret == 0 && !matches!(error, DmaError::NotMappable)
}

/// A guest range mapped into host spans, one for each scatter-gather entry.
/// The spans stay valid until the mapping is released.
#[derive(Debug)]
pub struct DmaMapping {
    range: DmaRange,
    spans: Vec<DmaSpan>,
}

impl DmaMapping {
    #[verifier::type_invariant]
    spec fn wf(self) -> bool {
        &&& self.spans@.len() == self.range.spec_region_count()
        &&& span_total(self.spans@) == self.range.spec_size()
    }

    pub closed spec fn spec_spans(&self) -> Seq<DmaSpan> {
        self.spans@
    }

    pub closed spec fn spec_size(&self) -> usize {
        self.range.spec_size()
    }

    pub closed spec fn spec_handle(&self) -> usize {
        self.range.spec_handle()
    }

    pub closed spec fn spec_sgl(&self) -> Seq<u8> {
        self.range.spec_sgl()
    }

    /// The number of mapped spans.
    pub fn region_count(&self) -> (r: usize)
        ensures
            r == self.spec_spans().len(),
    {
        self.spans.len()
    }

    /// The length of span `region_index`.
    pub fn region_length(&self, region_index: usize) -> (r: usize)
        requires
            region_index < self.spec_spans().len(),
        ensures
            r == self.spec_spans()[region_index as int].len,
    {
        self.spans[region_index].len
    }

    /// The span `region_index`.
    pub fn span(&self, region_index: usize) -> (r: DmaSpan)
        requires
            region_index < self.spec_spans().len(),
        ensures
            r == self.spec_spans()[region_index as int],
    {
        self.spans[region_index]
    }

    /// The total length of the spans, which is the size of the mapped range.
    pub fn total_length(&self) -> (r: usize)
        ensures
            r == span_total(self.spec_spans()),
            r == self.spec_size(),
    {
        proof {
            use_type_invariant(self);
        }
        self.range.size()
    }

    /// The host base address of each span, in order.
    pub fn base_addresses(&self) -> (r: Vec<usize>)
        ensures
            r@ == self.spec_spans().map_values(|s: DmaSpan| s.base),
    {
        let mut out: Vec<usize> = Vec::with_capacity(self.spans.len());
        let mut i: usize = 0;
        while i < self.spans.len()
            invariant
                i <= self.spans@.len(),
                out@ == self.spans@.take(i as int).map_values(|s: DmaSpan| s.base),
            decreases self.spans@.len() - i,
        {
            out.push(self.spans[i].base);
            proof {
                assert(self.spans@.take(i + 1).map_values(|s: DmaSpan| s.base) =~= self.spans@.take(
                    i as int,
                ).map_values(|s: DmaSpan| s.base).push(self.spans@[i as int].base));
            }
            i = i + 1;
        }
        proof {
            assert(self.spans@.take(self.spans@.len() as int) == self.spans@);
        }
        out
    }

    /// The length of each span, in order.
    pub fn lengths(&self) -> (r: Vec<usize>)
        ensures
            r@ == self.spec_spans().map_values(|s: DmaSpan| s.len),
    {
        let mut out: Vec<usize> = Vec::with_capacity(self.spans.len());
        let mut i: usize = 0;
        while i < self.spans.len()
            invariant
                i <= self.spans@.len(),
                out@ == self.spans@.take(i as int).map_values(|s: DmaSpan| s.len),
            decreases self.spans@.len() - i,
        {
            out.push(self.spans[i].len);
            proof {
                assert(self.spans@.take(i + 1).map_values(|s: DmaSpan| s.len) =~= self.spans@.take(
                    i as int,
                ).map_values(|s: DmaSpan| s.len).push(self.spans@[i as int].len));
            }
            i = i + 1;
        }
        proof {
            assert(self.spans@.take(self.spans@.len() as int) == self.spans@);
        }
        out
    }

    /// Ends the mapping: consumes it and hands back the range whose entries
    /// the session must release, with the number of spans to release. A
    /// mapping can be released once only.
    pub fn release(self) -> (r: (DmaRange, usize))
        ensures
            r.0.spec_sgl() == self.spec_sgl(),
            r.0.spec_handle() == self.spec_handle(),
            r.0.spec_size() == self.spec_size(),
            r.1 == self.spec_spans().len(),
            r.1 == r.0.spec_region_count(),
    {
        proof {
            use_type_invariant(&self);
        }
        let count = self.spans.len();
        let DmaMapping { range, spans: _ } = self;
        (range, count)
    }
}

} // verus!
