//! Device configuration: an accumulating builder, validated into an
//! immutable configuration.
use crate::region::{
    DeviceRegion, InterruptRequestKind, PciConfig, PciType, REGION_INDEX_COUNT,
};
use vstd::prelude::*;
use vstd::utf8::encode_utf8;

verus! {

/// Number of interrupt request kinds.
pub const IRQ_KIND_COUNT: usize = 5;

/// Why a configuration cannot be built.
#[derive(Clone, Copy, Debug, PartialEq, Eq, Structural)]
pub enum ConfigError {
    /// Two regions share a protocol index.
    DuplicateRegion { index: i32 },
    /// No socket path was given.
    MissingSocketPath,
    /// The socket path holds a zero byte, which a C string cannot carry.
    InvalidSocketPath,
    /// No PCI identity was given.
    MissingPciConfig,
}

/// The UTF-8 encoding of a path holds a zero byte.
pub open spec fn has_nul_byte(path: Seq<char>) -> bool {
    encode_utf8(path).contains(0u8)
}

/// Whether a socket path can be handed to the session: its UTF-8 encoding
/// holds no zero byte.
pub fn is_valid_socket_path(path: &String) -> (r: bool)
    ensures
        r == !has_nul_byte(path@),
{
    let bytes = path.as_str().as_bytes();
    let mut i: usize = 0;
    while i < bytes.len()
        invariant
            bytes@ == encode_utf8(path@),
            i <= bytes@.len(),
            forall|k: int| 0 <= k < i ==> bytes@[k] != 0u8,
        decreases bytes@.len() - i,
    {
        if bytes[i] == 0u8 {
            proof {
                assert(encode_utf8(path@)[i as int] == 0u8);
            }
            return false;
        }
        i = i + 1;
    }
    true
}

/// Two regions of the list share a protocol index.
pub open spec fn has_duplicate_region(regions: Seq<DeviceRegion>) -> bool {
    exists|i: int, j: int|
        0 <= i < j < regions.len() && #[trigger] regions[i].region_type.spec_index()
            == #[trigger] regions[j].region_type.spec_index()
}

/// `index` is the protocol index of two regions of the list.
pub open spec fn is_duplicate_index(regions: Seq<DeviceRegion>, index: i32) -> bool {
    exists|i: int, j: int|
        0 <= i < j < regions.len() && #[trigger] regions[i].region_type.spec_index() == index
            && #[trigger] regions[j].region_type.spec_index() == index
}

/// Checks that no two regions share a protocol index; on a duplicate,
/// reports the index.
pub fn validate_regions(regions: &Vec<DeviceRegion>) -> (r: Result<(), ConfigError>)
    ensures
        r is Err <==> has_duplicate_region(regions@),
        r matches Err(e) ==> (e matches ConfigError::DuplicateRegion { index } && is_duplicate_index(
            regions@,
            index,
        )),
{
    let mut seen: Vec<bool> = Vec::with_capacity(REGION_INDEX_COUNT);
    let mut k: usize = 0;
    while k < REGION_INDEX_COUNT
        invariant
            k <= REGION_INDEX_COUNT,
            seen@.len() == k,
            forall|m: int| 0 <= m < k ==> !seen@[m],
        decreases REGION_INDEX_COUNT - k,
    {
        seen.push(false);
        k = k + 1;
    }
    let mut pos: usize = 0;
    while pos < regions.len()
        invariant
            pos <= regions@.len(),
            seen@.len() == REGION_INDEX_COUNT,
            forall|m: int|
                0 <= m < REGION_INDEX_COUNT ==> (#[trigger] seen@[m] <==> exists|i: int|
                    0 <= i < pos && regions@[i].region_type.spec_index() == m),
            !has_duplicate_region(regions@.take(pos as int)),
        decreases regions@.len() - pos,
    {
        let index = regions[pos].region_type.to_vfu_region_type();
        if seen[index as usize] {
            proof {
                let i = choose|i: int| 0 <= i < pos && regions@[i].region_type.spec_index() == index;
                assert(regions@[i].region_type.spec_index() == regions@[pos as int].region_type.spec_index());
            }
            return Err(ConfigError::DuplicateRegion { index });
        }
        seen.set(index as usize, true);
        proof {
            let next = regions@.take(pos + 1);
            assert forall|i: int, j: int|
                0 <= i < j < next.len() implies #[trigger] next[i].region_type.spec_index()
                != #[trigger] next[j].region_type.spec_index() by {
                if j < pos {
                    assert(regions@.take(pos as int)[i] == next[i]);
                    assert(regions@.take(pos as int)[j] == next[j]);
                } else {
                    assert(next[i] == regions@[i]);
                    assert(!seen@[index as int] || i < pos);
                }
            }
        }
        pos = pos + 1;
    }
    proof {
        assert(regions@.take(regions@.len() as int) == regions@);
    }
    Ok(())
}

/// The interrupt counts that a table of optional counts, indexed by the
/// protocol's code of each kind, stands for.
pub open spec fn irq_count_map(counts: Seq<Option<u32>>) -> Map<InterruptRequestKind, u32> {
    Map::new(
        |k: InterruptRequestKind| counts[k.spec_vfu_type() as int] is Some,
        |k: InterruptRequestKind| counts[k.spec_vfu_type() as int].unwrap(),
    )
}

/// Builds a `DeviceConfiguration` one field at a time.
#[derive(Debug)]
pub struct DeviceConfigurator {
    socket_path: Option<String>,
    overwrite_socket: bool,
    non_blocking: bool,
    pci_type: PciType,
    pci_config: Option<PciConfig>,
    device_regions: Vec<DeviceRegion>,
    interrupt_request_counts: [Option<u32>; IRQ_KIND_COUNT],
    setup_dma: bool,
}

impl DeviceConfigurator {
    pub closed spec fn spec_socket_path(&self) -> Option<Seq<char>> {
        match self.socket_path {
            Some(p) => Some(p@),
            None => None,
        }
    }

    pub closed spec fn spec_overwrite_socket(&self) -> bool {
        self.overwrite_socket
    }

    pub closed spec fn spec_non_blocking(&self) -> bool {
        self.non_blocking
    }

    pub closed spec fn spec_pci_type(&self) -> PciType {
        self.pci_type
    }

    pub closed spec fn spec_pci_config(&self) -> Option<PciConfig> {
        self.pci_config
    }

    pub closed spec fn spec_regions(&self) -> Seq<DeviceRegion> {
        self.device_regions@
    }

    pub closed spec fn spec_irq_counts(&self) -> Map<InterruptRequestKind, u32> {
        irq_count_map(self.interrupt_request_counts@)
    }

    pub closed spec fn spec_setup_dma(&self) -> bool {
        self.setup_dma
    }

    /// Every field but the one a setter changes is the same in both.
    pub open spec fn same_but(&self, other: &DeviceConfigurator, field: int) -> bool {
        &&& (field != 0 ==> self.spec_socket_path() == other.spec_socket_path())
        &&& (field != 1 ==> self.spec_overwrite_socket() == other.spec_overwrite_socket())
        &&& (field != 2 ==> self.spec_non_blocking() == other.spec_non_blocking())
        &&& (field != 3 ==> self.spec_pci_type() == other.spec_pci_type())
        &&& (field != 4 ==> self.spec_pci_config() == other.spec_pci_config())
        &&& (field != 5 ==> self.spec_regions() == other.spec_regions())
        &&& (field != 6 ==> self.spec_irq_counts() == other.spec_irq_counts())
        &&& (field != 7 ==> self.spec_setup_dma() == other.spec_setup_dma())
    }

    /// An empty builder: no socket path, no PCI identity, no region, no
    /// interrupt count; a conventional PCI connector, blocking, no socket
    /// overwrite and no DMA.
    pub fn new() -> (r: DeviceConfigurator)
        ensures
            r.spec_socket_path() is None,
            !r.spec_overwrite_socket(),
            !r.spec_non_blocking(),
            r.spec_pci_type() == PciType::Pci,
            r.spec_pci_config() is None,
            r.spec_regions() == Seq::<DeviceRegion>::empty(),
            r.spec_irq_counts() == Map::<InterruptRequestKind, u32>::empty(),
            !r.spec_setup_dma(),
    {
        let counts: [Option<u32>; IRQ_KIND_COUNT] = [None, None, None, None, None];
        let r = DeviceConfigurator {
            socket_path: None,
            overwrite_socket: false,
            non_blocking: false,
            pci_type: PciType::Pci,
            pci_config: None,
            device_regions: Vec::new(),
            interrupt_request_counts: counts,
            setup_dma: false,
        };
        proof {
            assert(r.spec_irq_counts() =~= Map::<InterruptRequestKind, u32>::empty());
        }
        r
    }

    /// Sets the path of the socket that clients connect to.
    pub fn socket_path(&mut self, path: String) -> (r: &mut Self)
        ensures
            r.spec_socket_path() == Some(path@),
            r.same_but(old(self), 0),
            *final(self) == *final(r),
    {
        self.socket_path = Some(path);
        self
    }

    /// Sets whether a stale socket at the path is removed before setup.
    pub fn overwrite_socket(&mut self, value: bool) -> (r: &mut Self)
        ensures
            r.spec_overwrite_socket() == value,
            r.same_but(old(self), 1),
            *final(self) == *final(r),
    {
        self.overwrite_socket = value;
        self
    }

    /// Sets whether the session runs without blocking.
    pub fn non_blocking(&mut self, value: bool) -> (r: &mut Self)
        ensures
            r.spec_non_blocking() == value,
            r.same_but(old(self), 2),
            *final(self) == *final(r),
    {
        self.non_blocking = value;
        self
    }

    /// Sets the PCI connector type.
    pub fn pci_type(&mut self, value: PciType) -> (r: &mut Self)
        ensures
            r.spec_pci_type() == value,
            r.same_but(old(self), 3),
            *final(self) == *final(r),
    {
        self.pci_type = value;
        self
    }

    /// Sets the PCI identity.
    pub fn pci_config(&mut self, value: PciConfig) -> (r: &mut Self)
        ensures
            r.spec_pci_config() == Some(value),
            r.same_but(old(self), 4),
            *final(self) == *final(r),
    {
        self.pci_config = Some(value);
        self
    }

    /// Appends a region; regions are set up in the order they were added.
    pub fn add_device_region(&mut self, region: DeviceRegion) -> (r: &mut Self)
        ensures
            r.spec_regions() == old(self).spec_regions().push(region),
            r.same_but(old(self), 5),
            *final(self) == *final(r),
    {
        self.device_regions.push(region);
        self
    }

    /// Sets the number of interrupt requests of a kind, replacing an earlier count.
    pub fn using_interrupt_requests(&mut self, irq_kind: InterruptRequestKind, count: u32) -> (r:
        &mut Self)
        ensures
            r.spec_irq_counts() == old(self).spec_irq_counts().insert(irq_kind, count),
            r.same_but(old(self), 6),
            *final(self) == *final(r),
    {
        let slot = irq_kind.to_vfu_type() as usize;
        self.interrupt_request_counts[slot] = Some(count);
        proof {
            assert(self.spec_irq_counts() =~= old(self).spec_irq_counts().insert(irq_kind, count));
        }
        self
    }

    /// Sets whether the client's DMA registrations are tracked.
    pub fn setup_dma(&mut self, value: bool) -> (r: &mut Self)
        ensures
            r.spec_setup_dma() == value,
            r.same_but(old(self), 7),
            *final(self) == *final(r),
    {
        self.setup_dma = value;
        self
    }

    /// Checks the regions added so far.
    pub fn validate(&self) -> (r: Result<(), ConfigError>)
        ensures
            r is Err <==> has_duplicate_region(self.spec_regions()),
            r matches Err(e) ==> (e matches ConfigError::DuplicateRegion { index }
                && is_duplicate_index(self.spec_regions(), index)),
    {
        validate_regions(&self.device_regions)
    }

    /// Validates the fields and builds the configuration: the regions must
    /// have distinct protocol indices, the socket path must be set and hold
    /// no zero byte, and the PCI identity must be set.
    pub fn build(&self) -> (r: Result<DeviceConfiguration, ConfigError>)
        ensures
            has_duplicate_region(self.spec_regions()) ==> (r matches Err(e) && e matches ConfigError::DuplicateRegion { index }
                && is_duplicate_index(self.spec_regions(), index)),
            !has_duplicate_region(self.spec_regions()) && self.spec_socket_path() is None ==> r
                == Err::<DeviceConfiguration, ConfigError>(ConfigError::MissingSocketPath),
            !has_duplicate_region(self.spec_regions()) && self.spec_socket_path() is Some
                && has_nul_byte(self.spec_socket_path().unwrap()) ==> r == Err::<
                DeviceConfiguration,
                ConfigError,
            >(ConfigError::InvalidSocketPath),
            !has_duplicate_region(self.spec_regions()) && self.spec_socket_path() is Some
                && !has_nul_byte(self.spec_socket_path().unwrap()) && self.spec_pci_config() is None
                ==> r == Err::<DeviceConfiguration, ConfigError>(ConfigError::MissingPciConfig),
            !has_duplicate_region(self.spec_regions()) && self.spec_socket_path() is Some
                && !has_nul_byte(self.spec_socket_path().unwrap()) && self.spec_pci_config() is Some
                ==> (r matches Ok(c)
                && Some(c.spec_socket_path()) == self.spec_socket_path()
                && c.spec_overwrite_socket() == self.spec_overwrite_socket()
                && c.spec_non_blocking() == self.spec_non_blocking()
                && c.spec_pci_type() == self.spec_pci_type()
                && Some(c.spec_pci_config()) == self.spec_pci_config()
                && c.spec_regions() == self.spec_regions()
                && c.spec_irq_counts() == self.spec_irq_counts()
                && c.spec_setup_dma() == self.spec_setup_dma()),
    {
        match validate_regions(&self.device_regions) {
            Ok(()) => {},
            Err(e) => {
                return Err(e);
            },
        }
        let socket_path = match &self.socket_path {
            Some(p) => {
                if !is_valid_socket_path(p) {
                    return Err(ConfigError::InvalidSocketPath);
                }
                p.clone()
            },
            None => {
                return Err(ConfigError::MissingSocketPath);
            },
        };
        let pci_config = match self.pci_config {
            Some(c) => c,
            None => {
                return Err(ConfigError::MissingPciConfig);
            },
        };
        let mut device_regions: Vec<DeviceRegion> = Vec::with_capacity(self.device_regions.len());
        let mut i: usize = 0;
        while i < self.device_regions.len()
            invariant
                i <= self.device_regions@.len(),
                device_regions@ == self.device_regions@.take(i as int),
            decreases self.device_regions@.len() - i,
        {
            device_regions.push(self.device_regions[i]);
            proof {
                assert(self.device_regions@.take(i + 1) =~= self.device_regions@.take(i as int).push(
                    self.device_regions@[i as int],
                ));
            }
            i = i + 1;
        }
        let counts = self.interrupt_request_counts;
        proof {
            assert(self.device_regions@.take(self.device_regions@.len() as int) == self.device_regions@);
        }
        Ok(
            DeviceConfiguration {
                socket_path,
                overwrite_socket: self.overwrite_socket,
                non_blocking: self.non_blocking,
                pci_type: self.pci_type,
                pci_config,
                device_regions,
                interrupt_request_counts: counts,
                setup_dma: self.setup_dma,
            },
        )
    }
}

impl Default for DeviceConfigurator {
    fn default() -> (r: DeviceConfigurator)
        ensures
            r.spec_socket_path() is None,
            !r.spec_overwrite_socket(),
            !r.spec_non_blocking(),
            r.spec_pci_type() == PciType::Pci,
            r.spec_pci_config() is None,
            r.spec_regions() == Seq::<DeviceRegion>::empty(),
            r.spec_irq_counts() == Map::<InterruptRequestKind, u32>::empty(),
            !r.spec_setup_dma(),
    {
        DeviceConfigurator::new()
    }
}

/// A validated device configuration. Its regions have distinct protocol indices.
#[derive(Debug)]
pub struct DeviceConfiguration {
    socket_path: String,
    overwrite_socket: bool,
    non_blocking: bool,
    pci_type: PciType,
    pci_config: PciConfig,
    device_regions: Vec<DeviceRegion>,
    interrupt_request_counts: [Option<u32>; IRQ_KIND_COUNT],
    setup_dma: bool,
}

impl DeviceConfiguration {
    #[verifier::type_invariant]
    spec fn wf(self) -> bool {
        &&& !has_duplicate_region(self.device_regions@)
        &&& !has_nul_byte(self.socket_path@)
    }

    pub closed spec fn spec_socket_path(&self) -> Seq<char> {
        self.socket_path@
    }

    pub closed spec fn spec_overwrite_socket(&self) -> bool {
        self.overwrite_socket
    }

    pub closed spec fn spec_non_blocking(&self) -> bool {
        self.non_blocking
    }

    pub closed spec fn spec_pci_type(&self) -> PciType {
        self.pci_type
    }

    pub closed spec fn spec_pci_config(&self) -> PciConfig {
        self.pci_config
    }

    pub closed spec fn spec_regions(&self) -> Seq<DeviceRegion> {
        self.device_regions@
    }

    pub closed spec fn spec_irq_counts(&self) -> Map<InterruptRequestKind, u32> {
        irq_count_map(self.interrupt_request_counts@)
    }

    pub closed spec fn spec_setup_dma(&self) -> bool {
        self.setup_dma
    }

    /// The socket path; it holds no zero byte.
    pub fn socket_path(&self) -> (r: &String)
        ensures
            r@ == self.spec_socket_path(),
            !has_nul_byte(r@),
    {
        proof {
            use_type_invariant(self);
        }
        &self.socket_path
    }

    pub fn overwrite_socket(&self) -> (r: bool)
        ensures
            r == self.spec_overwrite_socket(),
    {
        self.overwrite_socket
    }

    pub fn non_blocking(&self) -> (r: bool)
        ensures
            r == self.spec_non_blocking(),
    {
        self.non_blocking
    }

    pub fn pci_type(&self) -> (r: PciType)
        ensures
            r == self.spec_pci_type(),
    {
        self.pci_type
    }

    pub fn pci_config(&self) -> (r: PciConfig)
        ensures
            r == self.spec_pci_config(),
    {
        self.pci_config
    }

    /// The regions, in setup order; no two share a protocol index.
    pub fn device_regions(&self) -> (r: &Vec<DeviceRegion>)
        ensures
            r@ == self.spec_regions(),
            !has_duplicate_region(r@),
    {
        proof {
            use_type_invariant(self);
        }
        &self.device_regions
    }

    /// The configured number of interrupt requests of a kind.
    pub fn interrupt_request_count(&self, irq_kind: InterruptRequestKind) -> (r: Option<u32>)
        ensures
            r == (if self.spec_irq_counts().contains_key(irq_kind) {
                Some(self.spec_irq_counts()[irq_kind])
            } else {
                None
            }),
    {
        self.interrupt_request_counts[irq_kind.to_vfu_type() as usize]
    }

    pub fn setup_dma(&self) -> (r: bool)
        ensures
            r == self.spec_setup_dma(),
    {
        self.setup_dma
    }
}

} // verus!
