//! Emulation of PCI devices for clients of the vfio-user protocol: region
//! registry, device configuration and setup, context lifecycle, dispatch of
//! the session's events and DMA translation and mapping.
pub mod config;
pub mod context;
pub mod dispatch;
pub mod dma;
mod platform;
pub mod region;
pub mod setup;

pub use config::{ConfigError, DeviceConfiguration, DeviceConfigurator};
pub use context::{ContextError, ContextState, DeviceContext};
pub use dispatch::Device;
pub use dma::{DmaError, DmaMapping, DmaRange, DmaSpan, SglRequest};
pub use platform::{ERRNO_INVALID, ERRNO_NOT_IMPLEMENTED};
pub use region::{
    DeviceRegion, DeviceRegionKind, DeviceResetReason, InterruptRequestKind, PciConfig, PciType,
    RegionError,
};
pub use setup::{SetupError, SetupStep};
