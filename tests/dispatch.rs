use vfio_user::dispatch::{
    access_completion, dispatch_dma_register, dispatch_dma_unregister, dispatch_region_access,
    dispatch_reset, reset_completion,
};
use vfio_user::{Device, DeviceContext, DeviceResetReason, ERRNO_INVALID, ERRNO_NOT_IMPLEMENTED};

struct TestDevice {
    ctx: DeviceContext,
    bar0: Vec<u8>,
    resets: Vec<DeviceResetReason>,
    added: Vec<(usize, usize, usize)>,
    removed: Vec<(usize, usize)>,
}

impl Device for TestDevice {
    fn new(ctx: DeviceContext) -> Self {
        TestDevice { ctx, bar0: vec![0; 16], resets: Vec::new(), added: Vec::new(), removed: Vec::new() }
    }

    fn ctx(&self) -> &DeviceContext {
        &self.ctx
    }

    fn ctx_mut(&mut self) -> &mut DeviceContext {
        &mut self.ctx
    }

    fn log(&self, _level: i32, _msg: &str) {}

    fn reset(&mut self, reason: DeviceResetReason) -> Result<(), i32> {
        self.resets.push(reason);
        if reason == DeviceResetReason::PciReset {
            Err(5)
        } else {
            Ok(())
        }
    }

    fn region_access_bar0(&mut self, offset: usize, data: &mut [u8], write: bool) -> Result<usize, i32> {
        if offset + data.len() > self.bar0.len() {
            return Err(ERRNO_INVALID);
        }
        if write {
            self.bar0[offset..offset + data.len()].copy_from_slice(data);
        } else {
            data.copy_from_slice(&self.bar0[offset..offset + data.len()]);
        }
        Ok(data.len())
    }

    fn region_access_rom(&mut self, _offset: usize, data: &mut [u8], _write: bool) -> Result<usize, i32> {
        Ok(data.len() + 1)
    }

    fn dma_range_added(&mut self, base_address: usize, length: usize) {
        let count = self.ctx.dma_region_count();
        self.added.push((base_address, length, count));
    }

    fn dma_range_removed(&mut self, base_address: usize) {
        let count = self.ctx.dma_region_count();
        self.removed.push((base_address, count));
    }
}

fn device() -> TestDevice {
    TestDevice::new(DeviceContext::new(true))
}

#[test]
fn region_access_routes_to_bar0() {
    let mut d = device();
    let mut data = [1u8, 2, 3, 4];
    assert_eq!(dispatch_region_access(&mut d, 0, 4, &mut data, true), 4);
    let mut back = [0u8; 4];
    assert_eq!(dispatch_region_access(&mut d, 0, 4, &mut back, false), 4);
    assert_eq!(back, [1, 2, 3, 4]);
    assert_eq!(dispatch_region_access(&mut d, 0, 14, &mut back, false), -1);
}

#[test]
fn unimplemented_and_unknown_regions_fail() {
    let mut d = device();
    let mut data = [0u8; 2];
    assert_eq!(dispatch_region_access(&mut d, 1, 0, &mut data, false), -1);
    assert_eq!(dispatch_region_access(&mut d, 9, 0, &mut data, false), -1);
    assert_eq!(dispatch_region_access(&mut d, 10, 0, &mut data, false), -1);
    assert_eq!(dispatch_region_access(&mut d, -1, 0, &mut data, false), -1);
}

#[test]
fn count_beyond_buffer_is_rejected() {
    let mut d = device();
    let mut data = [0u8; 2];
    assert_eq!(dispatch_region_access(&mut d, 6, 0, &mut data, false), -1);
}

#[test]
fn completion_codes() {
    assert_eq!(access_completion(Ok(4), 4), (4, None));
    assert_eq!(access_completion(Ok(0), 4), (0, None));
    assert_eq!(access_completion(Ok(5), 4), (-1, Some(ERRNO_INVALID)));
    assert_eq!(access_completion(Err(13), 4), (-1, Some(13)));
    assert_eq!(access_completion(Err(ERRNO_NOT_IMPLEMENTED), 4), (-1, Some(38)));
    assert_eq!(reset_completion(Ok(())), 0);
    assert_eq!(reset_completion(Err(16)), 16);
}

#[test]
fn reset_maps_reasons() {
    let mut d = device();
    assert_eq!(dispatch_reset(&mut d, 0), 0);
    assert_eq!(dispatch_reset(&mut d, 1), 0);
    assert_eq!(dispatch_reset(&mut d, 2), 5);
    assert_eq!(dispatch_reset(&mut d, 7), ERRNO_INVALID);
    assert_eq!(
        d.resets,
        vec![
            DeviceResetReason::ClientRequest,
            DeviceResetReason::LostConnection,
            DeviceResetReason::PciReset
        ]
    );
}

#[test]
fn dma_hooks_see_updated_table() {
    let mut d = device();
    dispatch_dma_register(&mut d, 0x1000, 0x100);
    dispatch_dma_register(&mut d, 0x2000, 0x200);
    dispatch_dma_unregister(&mut d, 0x1000);
    assert_eq!(d.added, vec![(0x1000, 0x100, 1), (0x2000, 0x200, 2)]);
    assert_eq!(d.removed, vec![(0x1000, 1)]);
    assert_eq!(d.ctx().dma_region_length(0x2000), Some(0x200));
    assert_eq!(d.ctx().dma_region_length(0x1000), None);
}

#[test]
fn negative_offset_is_rejected_without_calling_the_device() {
    let mut d = device();
    let mut data = [9u8; 2];
    assert_eq!(dispatch_region_access(&mut d, 0, -4, &mut data, true), -1);
    assert_eq!(d.bar0, vec![0u8; 16]);
}

#[test]
fn access_of_each_region_reaches_its_method() {
    let mut d = device();
    let mut data = [0u8; 3];
    // bar0 answers with the byte count, rom with one byte too many
    assert_eq!(dispatch_region_access(&mut d, 0, 0, &mut data, false), 3);
    assert_eq!(dispatch_region_access(&mut d, 6, 0, &mut data, false), -1);
    for index in [1, 2, 3, 4, 5, 7, 8, 9] {
        assert_eq!(dispatch_region_access(&mut d, index, 0, &mut data, false), -1);
    }
}
