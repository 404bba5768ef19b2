//! The device interface that emulated devices implement, and the dispatch of
//! the session's events to it.
use crate::context::DeviceContext;
use crate::platform::{set_last_error, ERRNO_INVALID, ERRNO_NOT_IMPLEMENTED};
use crate::region::DeviceResetReason;
use vstd::prelude::*;

verus! {

/// An emulated device. A device answers accesses to the regions it
/// configured; an access to a region whose method it does not provide fails
/// with `ENOSYS`.
pub trait Device: Sized {
    /// The device's context. A device whose impl is verified defines it.
    open spec fn spec_ctx(&self) -> DeviceContext {
        arbitrary()
    }

    /// What the device answers to an access of region `index` at `offset`
    /// with the buffer `data`, in its current state; by default, that the
    /// region is not implemented.
    open spec fn spec_access(&self, index: i32, offset: usize, data: Seq<u8>, write: bool) -> Result<
        usize,
        i32,
    > {
        Err(ERRNO_NOT_IMPLEMENTED)
    }

    /// What the device answers to a reset, in its current state. A device
    /// whose impl is verified defines it.
    open spec fn spec_reset(&self, reason: DeviceResetReason) -> Result<(), i32> {
        arbitrary()
    }

    fn new(ctx: DeviceContext) -> (r: Self)
        ensures
            r.spec_ctx() == ctx,
    ;

    fn ctx(&self) -> (r: &DeviceContext)
        ensures
            *r == self.spec_ctx(),
    ;

    fn ctx_mut(&mut self) -> (r: &mut DeviceContext)
        ensures
            *r == old(self).spec_ctx(),
            final(self).spec_ctx() == *final(r),
    ;

    fn log(&self, level: i32, msg: &str);

    fn reset(&mut self, reason: DeviceResetReason) -> (r: Result<(), i32>)
        ensures
            r == old(self).spec_reset(reason),
    ;

    /// An access of a region the device does not provide fails with `ENOSYS`.
    fn region_access_bar0(&mut self, offset: usize, data: &mut [u8], write: bool) -> (r: Result<
        usize,
        i32,
    >)
        ensures
            r == old(self).spec_access(0, offset, old(data)@, write) || r == Err::<usize, i32>(
                ERRNO_NOT_IMPLEMENTED,
            ),
    {
        Err(ERRNO_NOT_IMPLEMENTED)
    }

    fn region_access_bar1(&mut self, offset: usize, data: &mut [u8], write: bool) -> (r: Result<
        usize,
        i32,
    >)
        ensures
            r == old(self).spec_access(1, offset, old(data)@, write) || r == Err::<usize, i32>(
                ERRNO_NOT_IMPLEMENTED,
            ),
    {
        Err(ERRNO_NOT_IMPLEMENTED)
    }

    fn region_access_bar2(&mut self, offset: usize, data: &mut [u8], write: bool) -> (r: Result<
        usize,
        i32,
    >)
        ensures
            r == old(self).spec_access(2, offset, old(data)@, write) || r == Err::<usize, i32>(
                ERRNO_NOT_IMPLEMENTED,
            ),
    {
        Err(ERRNO_NOT_IMPLEMENTED)
    }

    fn region_access_bar3(&mut self, offset: usize, data: &mut [u8], write: bool) -> (r: Result<
        usize,
        i32,
    >)
        ensures
            r == old(self).spec_access(3, offset, old(data)@, write) || r == Err::<usize, i32>(
                ERRNO_NOT_IMPLEMENTED,
            ),
    {
        Err(ERRNO_NOT_IMPLEMENTED)
    }

    fn region_access_bar4(&mut self, offset: usize, data: &mut [u8], write: bool) -> (r: Result<
        usize,
        i32,
    >)
        ensures
            r == old(self).spec_access(4, offset, old(data)@, write) || r == Err::<usize, i32>(
                ERRNO_NOT_IMPLEMENTED,
            ),
    {
        Err(ERRNO_NOT_IMPLEMENTED)
    }

    fn region_access_bar5(&mut self, offset: usize, data: &mut [u8], write: bool) -> (r: Result<
        usize,
        i32,
    >)
        ensures
            r == old(self).spec_access(5, offset, old(data)@, write) || r == Err::<usize, i32>(
                ERRNO_NOT_IMPLEMENTED,
            ),
    {
        Err(ERRNO_NOT_IMPLEMENTED)
    }

    fn region_access_rom(&mut self, offset: usize, data: &mut [u8], write: bool) -> (r: Result<
        usize,
        i32,
    >)
        ensures
            r == old(self).spec_access(6, offset, old(data)@, write) || r == Err::<usize, i32>(
                ERRNO_NOT_IMPLEMENTED,
            ),
    {
        Err(ERRNO_NOT_IMPLEMENTED)
    }

    fn region_access_config(&mut self, offset: usize, data: &mut [u8], write: bool) -> (r: Result<
        usize,
        i32,
    >)
        ensures
            r == old(self).spec_access(7, offset, old(data)@, write) || r == Err::<usize, i32>(
                ERRNO_NOT_IMPLEMENTED,
            ),
    {
        Err(ERRNO_NOT_IMPLEMENTED)
    }

    fn region_access_vga(&mut self, offset: usize, data: &mut [u8], write: bool) -> (r: Result<
        usize,
        i32,
    >)
        ensures
            r == old(self).spec_access(8, offset, old(data)@, write) || r == Err::<usize, i32>(
                ERRNO_NOT_IMPLEMENTED,
            ),
    {
        Err(ERRNO_NOT_IMPLEMENTED)
    }

    fn region_access_migration(&mut self, offset: usize, data: &mut [u8], write: bool) -> (r: Result<
        usize,
        i32,
    >)
        ensures
            r == old(self).spec_access(9, offset, old(data)@, write) || r == Err::<usize, i32>(
                ERRNO_NOT_IMPLEMENTED,
            ),
    {
        Err(ERRNO_NOT_IMPLEMENTED)
    }

    /// Called after a DMA region was added to the context's table; leaves
    /// the table as it is.
    fn dma_range_added(&mut self, base_address: usize, length: usize)
        requires
            old(self).spec_ctx().spec_dma_regions().contains_key(base_address),
            old(self).spec_ctx().spec_dma_regions()[base_address] == length,
        ensures
            final(self).spec_ctx().spec_dma_regions() == old(self).spec_ctx().spec_dma_regions(),
    {
    }

    /// Called after a DMA region was removed from the context's table;
    /// leaves the table as it is.
    fn dma_range_removed(&mut self, base_address: usize)
        requires
            !old(self).spec_ctx().spec_dma_regions().contains_key(base_address),
        ensures
            final(self).spec_ctx().spec_dma_regions() == old(self).spec_ctx().spec_dma_regions(),
    {
    }
}

/// The completion signal of a region access of a buffer of `len` bytes:
/// the byte count, or `-1` with the error code to report. A count beyond
/// the buffer is reported as an invalid argument.
pub open spec fn spec_access_completion(result: Result<usize, i32>, len: usize) -> (isize, Option<i32>) {
    match result {
        Ok(n) => if n <= len && n <= isize::MAX {
            (n as isize, None)
        } else {
            (-1isize, Some(ERRNO_INVALID))
        },
        Err(code) => (-1isize, Some(code)),
    }
}

/// The completion signal of a region access.
pub fn access_completion(result: Result<usize, i32>, len: usize) -> (r: (isize, Option<i32>))
    ensures
        r == spec_access_completion(result, len),
{
    match result {
        Ok(n) => {
            if n <= len && n <= isize::MAX as usize {
                (n as isize, None)
            } else {
                (-1, Some(ERRNO_INVALID))
            }
        },
        Err(code) => (-1, Some(code)),
    }
}

/// The completion code of a reset: `0` on success, else the device's code.
pub fn reset_completion(result: Result<(), i32>) -> (r: i32)
    ensures
        r == match result {
            Ok(()) => 0i32,
            Err(code) => code,
        },
{
    match result {
        Ok(()) => 0,
        Err(code) => code,
    }
}

/// Routes an access of region `index` to the device's method for it; an
/// index that names no region is an invalid argument.
pub fn region_access<T: Device>(device: &mut T, index: i32, offset: usize, data: &mut [u8], write: bool) -> (r:
    Result<usize, i32>)
    ensures
        !(0 <= index < 10) ==> r == Err::<usize, i32>(ERRNO_INVALID),
        0 <= index < 10 ==> (r == old(device).spec_access(index, offset, old(data)@, write) || r
            == Err::<usize, i32>(ERRNO_NOT_IMPLEMENTED)),
{
    if index == 0 {
        device.region_access_bar0(offset, data, write)
    } else if index == 1 {
        device.region_access_bar1(offset, data, write)
    } else if index == 2 {
        device.region_access_bar2(offset, data, write)
    } else if index == 3 {
        device.region_access_bar3(offset, data, write)
    } else if index == 4 {
        device.region_access_bar4(offset, data, write)
    } else if index == 5 {
        device.region_access_bar5(offset, data, write)
    } else if index == 6 {
        device.region_access_rom(offset, data, write)
    } else if index == 7 {
        device.region_access_config(offset, data, write)
    } else if index == 8 {
        device.region_access_vga(offset, data, write)
    } else if index == 9 {
        device.region_access_migration(offset, data, write)
    } else {
        Err(ERRNO_INVALID)
    }
}

/// Handles an access of region `index` at a region-relative offset: the
/// device method of that region reads or fills `data`, and the result is the
/// byte count, never more than the buffer holds, or `-1` with the error
/// stored as the last platform error. A negative offset or an index that
/// names no region is an invalid argument, and the device is not called.
pub fn dispatch_region_access<T: Device>(
    device: &mut T,
    index: i32,
    offset: i64,
    data: &mut [u8],
    write: bool,
) -> (r: isize)
    ensures
        r == -1 || 0 <= r <= old(data)@.len(),
        offset < 0 || !(0 <= index < 10) ==> r == -1 && *final(device) == *old(device),
        offset >= 0 && 0 <= index < 10 ==> (r == spec_access_completion(
            old(device).spec_access(index, offset as usize, old(data)@, write),
            old(data)@.len() as usize,
        ).0 || r == spec_access_completion(
            Err::<usize, i32>(ERRNO_NOT_IMPLEMENTED),
            old(data)@.len() as usize,
        ).0),
{
    if offset < 0 || index < 0 || index >= 10 {
        set_last_error(ERRNO_INVALID);
        return -1;
    }
    let len = data.len();
    let result = region_access(device, index, offset as usize, data, write);
    let (count, error) = access_completion(result, len);
    if let Some(code) = error {
        set_last_error(code);
    }
    count
}

/// Handles a reset request with the protocol's reason code: the device
/// resets, and the result is `0` or the device's error code; a code that
/// names no reason is an invalid argument.
pub fn dispatch_reset<T: Device>(device: &mut T, reset_type: u32) -> (r: i32)
    ensures
        DeviceResetReason::spec_from_vfu(reset_type) is None ==> r == ERRNO_INVALID,
        DeviceResetReason::spec_from_vfu(reset_type) matches Some(reason) ==> r == match old(
            device,
        ).spec_reset(reason) {
            Ok(()) => 0i32,
            Err(code) => code,
        },
{
    match DeviceResetReason::from_vfu_reset_type(reset_type) {
        Some(reason) => reset_completion(device.reset(reason)),
        None => ERRNO_INVALID,
    }
}

/// Handles the client's registration of a DMA region: the context's table
/// is updated first, then the device is told.
pub fn dispatch_dma_register<T: Device>(device: &mut T, base_address: usize, length: usize)
    ensures
        final(device).spec_ctx().spec_dma_regions() == old(device).spec_ctx().spec_dma_regions().insert(
            base_address,
            length,
        ),
{
    device.ctx_mut().dma_register(base_address, length);
    device.dma_range_added(base_address, length);
}

/// Handles the client's removal of a DMA region: the context's table is
/// updated first, then the device is told.
pub fn dispatch_dma_unregister<T: Device>(device: &mut T, base_address: usize)
    ensures
        final(device).spec_ctx().spec_dma_regions() == old(device).spec_ctx().spec_dma_regions().remove(
            base_address,
        ),
{
    device.ctx_mut().dma_unregister(base_address);
    device.dma_range_removed(base_address);
}

} // verus!
