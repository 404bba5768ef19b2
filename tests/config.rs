use vfio_user::setup::{step_outcome, FLAG_ATTACH_NB, LOG_LEVEL_DEBUG};
use vfio_user::{
    ConfigError, DeviceConfigurator, DeviceRegion, DeviceRegionKind, InterruptRequestKind,
    PciConfig, PciType, SetupStep,
};

fn pci() -> PciConfig {
    PciConfig {
        vendor_id: 0x1af4,
        device_id: 0x1000,
        subsystem_vendor_id: 0x1af4,
        subsystem_id: 0x0001,
        class_code_base: 0x02,
        class_code_subclass: 0x00,
        class_code_programming_interface: 0x00,
        revision_id: 0x01,
    }
}

fn region(kind: DeviceRegionKind) -> DeviceRegion {
    DeviceRegion {
        region_type: kind,
        size: 0x100,
        file_descriptor: -1,
        offset: 0,
        read: true,
        write: true,
        memory: false,
    }
}

#[test]
fn duplicate_bar_is_rejected() {
    let mut b = DeviceConfigurator::new();
    b.socket_path("/tmp/dev.sock".to_string())
        .pci_config(pci())
        .add_device_region(region(DeviceRegionKind::Bar0))
        .add_device_region(region(DeviceRegionKind::Bar0));
    assert_eq!(b.validate(), Err(ConfigError::DuplicateRegion { index: 0 }));
    assert_eq!(b.build().err(), Some(ConfigError::DuplicateRegion { index: 0 }));
}

#[test]
fn distinct_bars_are_accepted() {
    let mut b = DeviceConfigurator::new();
    b.socket_path("/tmp/dev.sock".to_string())
        .pci_config(pci())
        .add_device_region(region(DeviceRegionKind::Bar0))
        .add_device_region(region(DeviceRegionKind::Bar1));
    assert_eq!(b.validate(), Ok(()));
    let c = b.build().unwrap();
    assert_eq!(c.device_regions().len(), 2);
}

#[test]
fn config_regions_differing_in_callback_flag_collide() {
    let mut b = DeviceConfigurator::new();
    b.add_device_region(region(DeviceRegionKind::Config { always_callback: true }))
        .add_device_region(region(DeviceRegionKind::Rom))
        .add_device_region(region(DeviceRegionKind::Config { always_callback: false }));
    assert_eq!(b.validate(), Err(ConfigError::DuplicateRegion { index: 7 }));
}

#[test]
fn empty_region_list_is_valid() {
    let b = DeviceConfigurator::default();
    assert_eq!(b.validate(), Ok(()));
}

#[test]
fn missing_fields_are_reported() {
    let mut b = DeviceConfigurator::new();
    assert_eq!(b.build().err(), Some(ConfigError::MissingSocketPath));
    b.socket_path("/tmp/dev.sock".to_string());
    assert_eq!(b.build().err(), Some(ConfigError::MissingPciConfig));
    b.pci_config(pci());
    assert!(b.build().is_ok());
}

#[test]
fn build_keeps_every_field() {
    let mut b = DeviceConfigurator::new();
    b.socket_path("/run/nic.sock".to_string())
        .overwrite_socket(true)
        .non_blocking(true)
        .pci_type(PciType::PciExpress)
        .pci_config(pci())
        .add_device_region(region(DeviceRegionKind::Bar2))
        .using_interrupt_requests(InterruptRequestKind::Msi, 4)
        .using_interrupt_requests(InterruptRequestKind::Msi, 8)
        .using_interrupt_requests(InterruptRequestKind::IntX, 1)
        .setup_dma(true);
    let c = b.build().unwrap();
    assert_eq!(c.socket_path(), "/run/nic.sock");
    assert!(c.overwrite_socket());
    assert!(c.non_blocking());
    assert_eq!(c.pci_type(), PciType::PciExpress);
    assert_eq!(c.pci_config(), pci());
    assert_eq!(c.device_regions()[0], region(DeviceRegionKind::Bar2));
    assert_eq!(c.interrupt_request_count(InterruptRequestKind::Msi), Some(8));
    assert_eq!(c.interrupt_request_count(InterruptRequestKind::IntX), Some(1));
    assert_eq!(c.interrupt_request_count(InterruptRequestKind::MsiX), None);
    assert!(c.setup_dma());
}

#[test]
fn setup_steps_follow_the_configuration() {
    let mut b = DeviceConfigurator::new();
    let mut bar = region(DeviceRegionKind::Bar0);
    bar.memory = true;
    bar.size = 0x4000;
    b.socket_path("/tmp/dev.sock".to_string())
        .pci_config(pci())
        .add_device_region(bar)
        .add_device_region(region(DeviceRegionKind::Config { always_callback: true }));
    let steps = b.build().unwrap().setup_steps();
    assert_eq!(
        steps,
        vec![
            SetupStep::CreateContext { flags: 0 },
            SetupStep::SetupLog { level: LOG_LEVEL_DEBUG },
            SetupStep::PciInit { pci_type: 0 },
            SetupStep::PciSetId {
                vendor_id: 0x1af4,
                device_id: 0x1000,
                subsystem_vendor_id: 0x1af4,
                subsystem_id: 0x0001,
            },
            SetupStep::PciSetClass { base: 0x02, subclass: 0, programming_interface: 0 },
            SetupStep::SetRevision { revision_id: 1 },
            SetupStep::SetupRegion {
                index: 0,
                size: 0x4000,
                flags: 7,
                file_descriptor: -1,
                offset: 0,
            },
            SetupStep::SetupRegion {
                index: 7,
                size: 0x100,
                flags: 11,
                file_descriptor: -1,
                offset: 0,
            },
            SetupStep::SetupResetCallback,
            SetupStep::Realize,
        ]
    );
}

#[test]
fn setup_steps_with_overwrite_non_blocking_and_dma() {
    let mut b = DeviceConfigurator::new();
    b.socket_path("/tmp/dev.sock".to_string())
        .pci_config(pci())
        .overwrite_socket(true)
        .non_blocking(true)
        .pci_type(PciType::PciX2)
        .setup_dma(true);
    let steps = b.build().unwrap().setup_steps();
    assert_eq!(steps.len(), 10);
    assert_eq!(steps[0], SetupStep::RemoveStaleSocket);
    assert_eq!(steps[1], SetupStep::CreateContext { flags: FLAG_ATTACH_NB });
    assert_eq!(steps[3], SetupStep::PciInit { pci_type: 2 });
    assert_eq!(steps[7], SetupStep::SetupResetCallback);
    assert_eq!(steps[8], SetupStep::SetupDmaCallbacks);
    assert_eq!(steps[9], SetupStep::Realize);
}

#[test]
fn setup_step_failures() {
    assert!(step_outcome(SetupStep::CreateContext { flags: 0 }, 0).is_err());
    assert!(step_outcome(SetupStep::CreateContext { flags: 0 }, 0x5555_0000).is_ok());
    assert!(step_outcome(SetupStep::SetupLog { level: 7 }, -1).is_err());
    assert!(step_outcome(SetupStep::SetupLog { level: 7 }, 3).is_ok());
    assert!(step_outcome(SetupStep::PciInit { pci_type: 0 }, 0).is_ok());
    assert!(step_outcome(SetupStep::SetRevision { revision_id: 1 }, -1).is_ok());
    let err = step_outcome(SetupStep::Realize, -1).unwrap_err();
    assert_eq!(err.step, SetupStep::Realize);
    assert!(step_outcome(SetupStep::SetupResetCallback, 1).is_err());
    assert!(step_outcome(SetupStep::SetupDmaCallbacks, 0).is_ok());
}

#[test]
fn socket_path_with_nul_byte_is_rejected() {
    let mut b = DeviceConfigurator::new();
    b.socket_path("/tmp/dev\0.sock".to_string()).pci_config(pci());
    assert_eq!(b.build().err(), Some(ConfigError::InvalidSocketPath));
    b.socket_path("/tmp/dév.sock".to_string());
    assert!(b.build().is_ok());
}

#[test]
fn socket_path_check() {
    assert!(vfio_user::config::is_valid_socket_path(&"/run/a.sock".to_string()));
    assert!(!vfio_user::config::is_valid_socket_path(&"\0".to_string()));
    assert!(vfio_user::config::is_valid_socket_path(&String::new()));
}
