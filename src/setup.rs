//! The setup sequence that realizes a configuration: which native session
//! calls are made, with which arguments and in which order, and when a call
//! counts as failed.
use crate::config::DeviceConfiguration;
use crate::platform::last_error;
use crate::region::DeviceRegion;
use vstd::prelude::*;

verus! {

/// Session creation flag: attaching does not block.
pub const FLAG_ATTACH_NB: i32 = 1;

/// Log level installed for the session (debug).
pub const LOG_LEVEL_DEBUG: i32 = 7;

/// One call of the setup sequence.
#[derive(Clone, Copy, Debug, PartialEq, Eq, Structural)]
pub enum SetupStep {
    /// Remove a socket file left at the configured path.
    RemoveStaleSocket,
    /// Create the session on the configured socket path.
    CreateContext { flags: i32 },
    /// Install the log callback.
    SetupLog { level: i32 },
    /// Initialize PCI config space for a connector type.
    PciInit { pci_type: u32 },
    /// Set the PCI identity.
    PciSetId { vendor_id: u16, device_id: u16, subsystem_vendor_id: u16, subsystem_id: u16 },
    /// Set the PCI class code.
    PciSetClass { base: u8, subclass: u8, programming_interface: u8 },
    /// Write the revision into config space.
    SetRevision { revision_id: u8 },
    /// Set up one region and its access callback.
    SetupRegion { index: i32, size: usize, flags: i32, file_descriptor: i32, offset: u64 },
    /// Install the reset callback.
    SetupResetCallback,
    /// Install the DMA register and unregister callbacks.
    SetupDmaCallbacks,
    /// Realize the session.
    Realize,
}

/// A setup step that failed, with the platform's error code.
#[derive(Clone, Copy, Debug, PartialEq, Eq, Structural)]
pub struct SetupError {
    pub step: SetupStep,
    pub errno: i32,
}

/// The step that sets up one region.
pub open spec fn spec_region_step(region: DeviceRegion) -> SetupStep {
    SetupStep::SetupRegion {
        index: region.region_type.spec_index(),
        size: region.size,
        flags: region.spec_flags() as i32,
        file_descriptor: region.file_descriptor,
        offset: region.offset,
    }
}

/// The whole setup sequence of a configuration.
pub open spec fn spec_setup_steps(c: DeviceConfiguration) -> Seq<SetupStep> {
    let pci = c.spec_pci_config();
    (if c.spec_overwrite_socket() {
        seq![SetupStep::RemoveStaleSocket]
    } else {
        Seq::empty()
    }) + seq![
        SetupStep::CreateContext {
            flags: if c.spec_non_blocking() {
                FLAG_ATTACH_NB
            } else {
                0
            },
        },
        SetupStep::SetupLog { level: LOG_LEVEL_DEBUG },
        SetupStep::PciInit { pci_type: c.spec_pci_type().spec_vfu_type() },
        SetupStep::PciSetId {
            vendor_id: pci.vendor_id,
            device_id: pci.device_id,
            subsystem_vendor_id: pci.subsystem_vendor_id,
            subsystem_id: pci.subsystem_id,
        },
        SetupStep::PciSetClass {
            base: pci.class_code_base,
            subclass: pci.class_code_subclass,
            programming_interface: pci.class_code_programming_interface,
        },
        SetupStep::SetRevision { revision_id: pci.revision_id },
    ] + c.spec_regions().map_values(|r: DeviceRegion| spec_region_step(r)) + seq![
        SetupStep::SetupResetCallback,
    ] + (if c.spec_setup_dma() {
        seq![SetupStep::SetupDmaCallbacks]
    } else {
        Seq::empty()
    }) + seq![SetupStep::Realize]
}

/// Whether a step failed, from the value its call returned: creation returns
/// a handle that is zero on failure, logging and PCI setup fail on a negative
/// value, the identity, class and revision calls cannot fail, and every other
/// call fails on any nonzero value.
pub open spec fn spec_step_failed(step: SetupStep, ret: i64) -> bool {
    match step {
        SetupStep::CreateContext { .. } => ret == 0,
        SetupStep::SetupLog { .. } => ret < 0,
        SetupStep::PciInit { .. } => ret < 0,
        SetupStep::PciSetId { .. } => false,
        SetupStep::PciSetClass { .. } => false,
        SetupStep::SetRevision { .. } => false,
        _ => ret != 0,
    }
}

/// The outcome of one setup step; a failure carries the platform's error code.
pub fn step_outcome(step: SetupStep, ret: i64) -> (r: Result<(), SetupError>)
    ensures
        spec_step_failed(step, ret) ==> (r matches Err(e) && e.step == step),
        !spec_step_failed(step, ret) ==> r == Ok::<(), SetupError>(()),
{
    let failed = match step {
        SetupStep::CreateContext { .. } => ret == 0,
        SetupStep::SetupLog { .. } => ret < 0,
        SetupStep::PciInit { .. } => ret < 0,
        SetupStep::PciSetId { .. } => false,
        SetupStep::PciSetClass { .. } => false,
        SetupStep::SetRevision { .. } => false,
        _ => ret != 0,
    };
    if failed {
        Err(SetupError { step, errno: last_error() })
    } else {
        Ok(())
    }
}

/// The step that sets up one region.
pub fn region_step(region: &DeviceRegion) -> (r: SetupStep)
    ensures
        r == spec_region_step(*region),
{
    SetupStep::SetupRegion {
        index: region.region_type.to_vfu_region_type(),
        size: region.size,
        flags: region.flags(),
        file_descriptor: region.file_descriptor,
        offset: region.offset,
    }
}

impl DeviceConfiguration {
    /// The calls that realize this configuration, in order: remove a stale
    /// socket if asked, create the session, install logging, initialize PCI
    /// and its identity, set up each region in list order, install the reset
    /// callback and, if DMA is on, the DMA callbacks, and realize.
    pub fn setup_steps(&self) -> (r: Vec<SetupStep>)
        ensures
            r@ == spec_setup_steps(*self),
    {
        let mut steps: Vec<SetupStep> = Vec::new();
        if self.overwrite_socket() {
            steps.push(SetupStep::RemoveStaleSocket);
        }
        let flags: i32 = if self.non_blocking() {
            FLAG_ATTACH_NB
        } else {
            0
        };
        let pci = self.pci_config();
        steps.push(SetupStep::CreateContext { flags });
        steps.push(SetupStep::SetupLog { level: LOG_LEVEL_DEBUG });
        steps.push(SetupStep::PciInit { pci_type: self.pci_type().to_vfu_type() });
        steps.push(
            SetupStep::PciSetId {
                vendor_id: pci.vendor_id,
                device_id: pci.device_id,
                subsystem_vendor_id: pci.subsystem_vendor_id,
                subsystem_id: pci.subsystem_id,
            },
        );
        steps.push(
            SetupStep::PciSetClass {
                base: pci.class_code_base,
                subclass: pci.class_code_subclass,
                programming_interface: pci.class_code_programming_interface,
            },
        );
        steps.push(SetupStep::SetRevision { revision_id: pci.revision_id });
        let ghost head = steps@;
        let regions = self.device_regions();
        let mut i: usize = 0;
        while i < regions.len()
            invariant
                i <= regions@.len(),
                regions@ == self.spec_regions(),
                steps@ == head + regions@.take(i as int).map_values(
                    |r: DeviceRegion| spec_region_step(r),
                ),
            decreases regions@.len() - i,
        {
            steps.push(region_step(&regions[i]));
            proof {
                assert(regions@.take(i + 1).map_values(|r: DeviceRegion| spec_region_step(r))
                    =~= regions@.take(i as int).map_values(|r: DeviceRegion| spec_region_step(r)).push(
                    spec_region_step(regions@[i as int]),
                ));
            }
            i = i + 1;
        }
        proof {
            assert(regions@.take(regions@.len() as int) == regions@);
        }
        steps.push(SetupStep::SetupResetCallback);
        if self.setup_dma() {
            steps.push(SetupStep::SetupDmaCallbacks);
        }
        steps.push(SetupStep::Realize);
        proof {
            assert(steps@ =~= spec_setup_steps(*self));
        }
        steps
    }
}

} // verus!
