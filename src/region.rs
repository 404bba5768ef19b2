//! PCI identity, device regions and the mapping of region kinds to the
//! protocol's region indices and flags.
use vstd::prelude::*;

verus! {

/// Region flag: the client may read the region.
pub const REGION_FLAG_READ: i32 = 1;

/// Region flag: the client may write the region.
pub const REGION_FLAG_WRITE: i32 = 2;

/// Region flag: the region is memory (as opposed to I/O port) space.
pub const REGION_FLAG_MEM: i32 = 4;

/// Region flag: every access to config space goes through the callback.
pub const REGION_FLAG_ALWAYS_CB: i32 = 8;

/// Number of region indices that the protocol defines.
pub const REGION_INDEX_COUNT: usize = 10;

/// The kind of PCI connector the client exposes.
#[derive(Clone, Copy, Debug, PartialEq, Eq, Structural)]
pub enum PciType {
    Pci,
    PciX1,
    PciX2,
    PciExpress,
}

impl PciType {
    pub open spec fn spec_vfu_type(self) -> u32 {
        match self {
            PciType::Pci => 0,
            PciType::PciX1 => 1,
            PciType::PciX2 => 2,
            PciType::PciExpress => 3,
        }
    }

    /// The protocol's code for this connector type.
    pub fn to_vfu_type(&self) -> (r: u32)
        ensures
            r == self.spec_vfu_type(),
    {
        match self {
            PciType::Pci => 0,
            PciType::PciX1 => 1,
            PciType::PciX2 => 2,
            PciType::PciExpress => 3,
        }
    }
}

/// Identity fields of the emulated PCI device.
#[derive(Clone, Copy, Debug, PartialEq, Eq, Structural)]
pub struct PciConfig {
    pub vendor_id: u16,
    pub device_id: u16,
    pub subsystem_vendor_id: u16,
    pub subsystem_id: u16,
    pub class_code_base: u8,
    pub class_code_subclass: u8,
    pub class_code_programming_interface: u8,
    pub revision_id: u8,
}

/// The logical kind of a device region.
#[derive(Clone, Copy, Debug, PartialEq, Eq, Structural)]
pub enum DeviceRegionKind {
    Bar0,
    Bar1,
    Bar2,
    Bar3,
    Bar4,
    Bar5,
    Rom,
    Config { always_callback: bool },
    Vga,
    Migration,
}

/// A region kind that cannot be configured.
#[derive(Clone, Copy, Debug, PartialEq, Eq, Structural)]
pub enum RegionError {
    /// A BAR index above 5.
    InvalidRegion { index: u8 },
}

impl DeviceRegionKind {
    /// The protocol's region index of a kind.
    pub open spec fn spec_index(self) -> i32 {
        match self {
            DeviceRegionKind::Bar0 => 0,
            DeviceRegionKind::Bar1 => 1,
            DeviceRegionKind::Bar2 => 2,
            DeviceRegionKind::Bar3 => 3,
            DeviceRegionKind::Bar4 => 4,
            DeviceRegionKind::Bar5 => 5,
            DeviceRegionKind::Rom => 6,
            DeviceRegionKind::Config { .. } => 7,
            DeviceRegionKind::Vga => 8,
            DeviceRegionKind::Migration => 9,
        }
    }

    /// Two kinds are the same region when they differ at most in the config
    /// space's callback flag.
    pub open spec fn same_region(self, other: DeviceRegionKind) -> bool {
        match (self, other) {
            (DeviceRegionKind::Config { .. }, DeviceRegionKind::Config { .. }) => true,
            _ => self == other,
        }
    }

    /// The BAR of the given index, if there is one.
    pub open spec fn spec_bar(index: u8) -> Option<DeviceRegionKind> {
        if index == 0 {
            Some(DeviceRegionKind::Bar0)
        } else if index == 1 {
            Some(DeviceRegionKind::Bar1)
        } else if index == 2 {
            Some(DeviceRegionKind::Bar2)
        } else if index == 3 {
            Some(DeviceRegionKind::Bar3)
        } else if index == 4 {
            Some(DeviceRegionKind::Bar4)
        } else if index == 5 {
            Some(DeviceRegionKind::Bar5)
        } else {
            None
        }
    }

    /// The protocol's region index of this kind.
    pub fn to_vfu_region_type(&self) -> (r: i32)
        ensures
            r == self.spec_index(),
            0 <= r < REGION_INDEX_COUNT,
    {
        match self {
            DeviceRegionKind::Bar0 => 0,
            DeviceRegionKind::Bar1 => 1,
            DeviceRegionKind::Bar2 => 2,
            DeviceRegionKind::Bar3 => 3,
            DeviceRegionKind::Bar4 => 4,
            DeviceRegionKind::Bar5 => 5,
            DeviceRegionKind::Rom => 6,
            DeviceRegionKind::Config { .. } => 7,
            DeviceRegionKind::Vga => 8,
            DeviceRegionKind::Migration => 9,
        }
    }

    /// The BAR kind of a numeric index; indices above 5 are rejected.
    pub fn bar(index: u8) -> (r: Result<DeviceRegionKind, RegionError>)
        ensures
            index <= 5 ==> r == Ok::<DeviceRegionKind, RegionError>(
                DeviceRegionKind::spec_bar(index).unwrap(),
            ),
            index > 5 ==> r == Err::<DeviceRegionKind, RegionError>(
                RegionError::InvalidRegion { index },
            ),
    {
        if index == 0 {
            Ok(DeviceRegionKind::Bar0)
        } else if index == 1 {
            Ok(DeviceRegionKind::Bar1)
        } else if index == 2 {
            Ok(DeviceRegionKind::Bar2)
        } else if index == 3 {
            Ok(DeviceRegionKind::Bar3)
        } else if index == 4 {
            Ok(DeviceRegionKind::Bar4)
        } else if index == 5 {
            Ok(DeviceRegionKind::Bar5)
        } else {
            Err(RegionError::InvalidRegion { index })
        }
    }

    /// The protocol index of the BAR with the given number.
    pub fn bar_protocol_index(index: u8) -> (r: Result<i32, RegionError>)
        ensures
            index <= 5 ==> r == Ok::<i32, RegionError>(index as i32),
            index > 5 ==> r == Err::<i32, RegionError>(RegionError::InvalidRegion { index }),
    {
        match DeviceRegionKind::bar(index) {
            Ok(kind) => Ok(kind.to_vfu_region_type()),
            Err(e) => Err(e),
        }
    }
}

/// The protocol index of a region kind is stable and tells regions apart:
/// two kinds share an index exactly when they are the same region, and
/// BAR `i` has index `i`.
pub proof fn lemma_region_index_distinct(a: DeviceRegionKind, b: DeviceRegionKind)
    ensures
        (a.spec_index() == b.spec_index()) <==> a.same_region(b),
        forall|i: u8| i <= 5 ==> (#[trigger] DeviceRegionKind::spec_bar(i)).unwrap().spec_index()
            == i as i32,
{
}

/// A region that the device exposes to the client.
#[derive(Clone, Copy, Debug, PartialEq, Eq, Structural)]
pub struct DeviceRegion {
    pub region_type: DeviceRegionKind,
    pub size: usize,
    pub file_descriptor: i32,
    pub offset: u64,
    pub read: bool,
    pub write: bool,
    pub memory: bool,
}

impl DeviceRegion {
    /// The protocol flags of a region: one bit for each permission, for
    /// memory space and for an always-called config space.
    pub open spec fn spec_flags(self) -> int {
        (if self.read { REGION_FLAG_READ } else { 0i32 }) + (if self.write {
            REGION_FLAG_WRITE
        } else {
            0i32
        }) + (if self.memory { REGION_FLAG_MEM } else { 0i32 }) + (match self.region_type {
            DeviceRegionKind::Config { always_callback } => if always_callback {
                REGION_FLAG_ALWAYS_CB
            } else {
                0i32
            },
            _ => 0i32,
        })
    }

    /// The protocol flags with which this region is set up.
    pub fn flags(&self) -> (r: i32)
        ensures
            r as int == self.spec_flags(),
    {
        let mut flags: i32 = 0;
        if self.read {
            flags = flags + REGION_FLAG_READ;
        }
        if self.write {
            flags = flags + REGION_FLAG_WRITE;
        }
        if self.memory {
            flags = flags + REGION_FLAG_MEM;
        }
        if let DeviceRegionKind::Config { always_callback } = self.region_type {
            if always_callback {
                flags = flags + REGION_FLAG_ALWAYS_CB;
            }
        }
        flags
    }
}

/// The kinds of interrupt request that a device can raise.
#[derive(Clone, Copy, Debug, PartialEq, Eq, Structural, Hash)]
pub enum InterruptRequestKind {
    /// Legacy interrupt
    IntX,
    /// Message signaled interrupt
    Msi,
    MsiX,
    Error,
    Req,
}

impl InterruptRequestKind {
    pub open spec fn spec_vfu_type(self) -> u32 {
        match self {
            InterruptRequestKind::IntX => 0,
            InterruptRequestKind::Msi => 1,
            InterruptRequestKind::MsiX => 2,
            InterruptRequestKind::Error => 3,
            InterruptRequestKind::Req => 4,
        }
    }

    /// The protocol's code for this kind of interrupt.
    pub fn to_vfu_type(&self) -> (r: u32)
        ensures
            r == self.spec_vfu_type(),
    {
        match self {
            InterruptRequestKind::IntX => 0,
            InterruptRequestKind::Msi => 1,
            InterruptRequestKind::MsiX => 2,
            InterruptRequestKind::Error => 3,
            InterruptRequestKind::Req => 4,
        }
    }
}

/// Why the client asks the device to reset.
#[derive(Clone, Copy, Debug, PartialEq, Eq, Structural)]
pub enum DeviceResetReason {
    ClientRequest,
    LostConnection,
    PciReset,
}

impl DeviceResetReason {
    pub open spec fn spec_from_vfu(code: u32) -> Option<DeviceResetReason> {
        if code == 0 {
            Some(DeviceResetReason::ClientRequest)
        } else if code == 1 {
            Some(DeviceResetReason::LostConnection)
        } else if code == 2 {
            Some(DeviceResetReason::PciReset)
        } else {
            None
        }
    }

    /// The reason that a protocol reset code stands for, if any.
    pub fn from_vfu_reset_type(code: u32) -> (r: Option<DeviceResetReason>)
        ensures
            r == DeviceResetReason::spec_from_vfu(code),
    {
        if code == 0 {
            Some(DeviceResetReason::ClientRequest)
        } else if code == 1 {
            Some(DeviceResetReason::LostConnection)
        } else if code == 2 {
            Some(DeviceResetReason::PciReset)
        } else {
            None
        }
    }
}

} // verus!
