//! The device context: the session handle, the table of DMA regions that the
//! client registered, and the outcomes of the lifecycle operations.
use std::collections::HashMap;
use crate::platform::last_error;
use vstd::prelude::*;

verus! {

broadcast use vstd::std_specs::hash::group_hash_axioms;

/// The platform's code for an operation that would block (`EAGAIN`).
pub const ERRNO_WOULD_BLOCK: i32 = 11;

/// Where the context stands in its lifecycle.
#[derive(Clone, Copy, Debug, PartialEq, Eq, Structural)]
pub enum ContextState {
    /// Not yet bound to a realized session.
    Created,
    /// The session is realized and waits for a client.
    Realized,
    /// A client is attached.
    Attached,
}

/// Failures of the lifecycle operations, with the platform's error code.
#[derive(Clone, Copy, Debug, PartialEq, Eq, Structural)]
pub enum ContextError {
    Attach { errno: i32 },
    Run { errno: i32 },
    TriggerIrq { errno: i32 },
}

/// The context of one emulated device.
#[derive(Debug)]
pub struct DeviceContext {
    handle: usize,
    dma_regions: HashMap<usize, usize>,
    dma_enabled: bool,
    state: ContextState,
}

/// The DMA table after applying register events, in order, to `m`.
pub open spec fn register_all(m: Map<usize, usize>, events: Seq<(usize, usize)>) -> Map<
    usize,
    usize,
>
    decreases events.len(),
{
    if events.len() == 0 {
        m
    } else {
        register_all(m, events.drop_last()).insert(events.last().0, events.last().1)
    }
}

/// The DMA table after applying unregister events, in order, to `m`.
pub open spec fn unregister_all(m: Map<usize, usize>, bases: Seq<usize>) -> Map<usize, usize>
    decreases bases.len(),
{
    if bases.len() == 0 {
        m
    } else {
        unregister_all(m, bases.drop_last()).remove(bases.last())
    }
}

/// No two register events name the same base address.
pub open spec fn distinct_bases(events: Seq<(usize, usize)>) -> bool {
    forall|i: int, j: int| 0 <= i < j < events.len() ==> events[i].0 != events[j].0
}

proof fn lemma_register_all(events: Seq<(usize, usize)>)
    requires
        distinct_bases(events),
    ensures
        register_all(Map::empty(), events).dom().finite(),
        register_all(Map::empty(), events).dom().len() == events.len(),
        forall|b: usize|
            #![trigger register_all(Map::empty(), events).dom().contains(b)]
            register_all(Map::empty(), events).dom().contains(b) <==> exists|i: int|
                0 <= i < events.len() && events[i].0 == b,
        forall|i: int|
            0 <= i < events.len() ==> #[trigger] register_all(Map::empty(), events)[events[i].0]
                == events[i].1,
    decreases events.len(),
{
    if events.len() > 0 {
        let prefix = events.drop_last();
        assert(distinct_bases(prefix));
        lemma_register_all(prefix);
        let m = register_all(Map::<usize, usize>::empty(), prefix);
        let last = events.last();
        assert(!m.dom().contains(last.0)) by {
            if m.dom().contains(last.0) {
                let i = choose|i: int| 0 <= i < prefix.len() && prefix[i].0 == last.0;
                assert(events[i].0 == events[events.len() - 1].0);
            }
        }
        assert forall|b: usize| register_all(Map::empty(), events).dom().contains(b) <==> exists|
            i: int,
        | 0 <= i < events.len() && events[i].0 == b by {
            if exists|i: int| 0 <= i < events.len() && events[i].0 == b {
                let i = choose|i: int| 0 <= i < events.len() && events[i].0 == b;
                if i < events.len() - 1 {
                    assert(prefix[i].0 == b);
                }
            }
            if m.dom().contains(b) {
                let i = choose|i: int| 0 <= i < prefix.len() && prefix[i].0 == b;
                assert(events[i].0 == b);
            }
        }
        assert forall|i: int| 0 <= i < events.len() implies #[trigger] register_all(
            Map::empty(),
            events,
        )[events[i].0] == events[i].1 by {
            if i < events.len() - 1 {
                assert(prefix[i] == events[i]);
            }
        }
    }
}

proof fn lemma_unregister_all(m: Map<usize, usize>, bases: Seq<usize>)
    requires
        m.dom().finite(),
        bases.no_duplicates(),
        forall|k: int| 0 <= k < bases.len() ==> m.dom().contains(#[trigger] bases[k]),
    ensures
        unregister_all(m, bases).dom().finite(),
        unregister_all(m, bases).dom().len() == m.dom().len() - bases.len(),
        forall|b: usize|
            #![trigger unregister_all(m, bases).dom().contains(b)]
            unregister_all(m, bases).dom().contains(b) <==> (m.dom().contains(b)
                && !bases.contains(b)),
        forall|b: usize|
            #![trigger unregister_all(m, bases)[b]]
            unregister_all(m, bases).dom().contains(b) ==> unregister_all(m, bases)[b] == m[b],
    decreases bases.len(),
{
    if bases.len() > 0 {
        let prefix = bases.drop_last();
        assert forall|k: int| 0 <= k < prefix.len() implies m.dom().contains(#[trigger] prefix[k]) by {
            assert(prefix[k] == bases[k]);
        }
        lemma_unregister_all(m, prefix);
        let t = unregister_all(m, prefix);
        let last = bases.last();
        assert(!prefix.contains(last)) by {
            if prefix.contains(last) {
                let k = choose|k: int| 0 <= k < prefix.len() && prefix[k] == last;
                assert(bases[k] == bases[bases.len() - 1]);
            }
        }
        assert(m.dom().contains(bases[bases.len() - 1]));
        assert(t.dom().contains(last));
        t.lemma_remove_key_len(last);
        assert forall|b: usize| unregister_all(m, bases).dom().contains(b) <==> (m.dom().contains(b)
            && !bases.contains(b)) by {
            if bases.contains(b) && b != last {
                let k = choose|k: int| 0 <= k < bases.len() && bases[k] == b;
                assert(prefix[k] == b);
            }
            if prefix.contains(b) {
                let k = choose|k: int| 0 <= k < prefix.len() && prefix[k] == b;
                assert(bases[k] == b);
            }
            if b == last {
                assert(bases[bases.len() - 1] == b);
            }
        }
    }
}

/// After a sequence of register events with distinct base addresses and then
/// unregister events for distinct bases among them, the table holds exactly
/// the regions that were not unregistered, each with the length it was
/// registered with: as many entries as registrations minus unregistrations.
pub proof fn lemma_dma_table_after_events(registered: Seq<(usize, usize)>, unregistered: Seq<usize>)
    requires
        distinct_bases(registered),
        unregistered.no_duplicates(),
        forall|k: int|
            0 <= k < unregistered.len() ==> exists|i: int|
                0 <= i < registered.len() && registered[i].0 == #[trigger] unregistered[k],
    ensures
        ({
            let table = unregister_all(register_all(Map::empty(), registered), unregistered);
            &&& table.len() == registered.len() - unregistered.len()
            &&& forall|i: int|
                0 <= i < registered.len() && !unregistered.contains(#[trigger] registered[i].0)
                    ==> table.contains_key(registered[i].0) && table[registered[i].0]
                    == registered[i].1
            &&& forall|b: usize|
                #![trigger table.contains_key(b)]
                table.contains_key(b) ==> !unregistered.contains(b) && exists|i: int|
                    0 <= i < registered.len() && registered[i].0 == b
        }),
{
    lemma_register_all(registered);
    let m = register_all(Map::<usize, usize>::empty(), registered);
    assert forall|k: int| 0 <= k < unregistered.len() implies m.dom().contains(
        #[trigger] unregistered[k],
    ) by {
        let i = choose|i: int| 0 <= i < registered.len() && registered[i].0 == unregistered[k];
        assert(m.dom().contains(registered[i].0));
    }
    lemma_unregister_all(m, unregistered);
    let table = unregister_all(m, unregistered);
    assert forall|i: int|
        0 <= i < registered.len() && !unregistered.contains(#[trigger] registered[i].0) implies table.contains_key(
        registered[i].0,
    ) && table[registered[i].0] == registered[i].1 by {
        assert(m.dom().contains(registered[i].0));
    }
}

impl DeviceContext {
    /// The registered DMA regions: base address to length.
    pub closed spec fn spec_dma_regions(&self) -> Map<usize, usize> {
        self.dma_regions@
    }

    pub closed spec fn spec_handle(&self) -> usize {
        self.handle
    }

    pub closed spec fn spec_dma_enabled(&self) -> bool {
        self.dma_enabled
    }

    pub closed spec fn spec_state(&self) -> ContextState {
        self.state
    }

    /// A context that is not yet bound to a session, with an empty DMA table.
    pub fn new(dma_enabled: bool) -> (r: DeviceContext)
        ensures
            r.spec_dma_regions() == Map::<usize, usize>::empty(),
            r.spec_dma_enabled() == dma_enabled,
            r.spec_state() == ContextState::Created,
            r.spec_handle() == 0,
    {
        DeviceContext {
            handle: 0,
            dma_regions: HashMap::new(),
            dma_enabled,
            state: ContextState::Created,
        }
    }

    /// Binds the context to the handle of its realized session.
    pub fn bind_session(&mut self, handle: usize)
        ensures
            final(self).spec_handle() == handle,
            final(self).spec_state() == ContextState::Realized,
            final(self).spec_dma_regions() == old(self).spec_dma_regions(),
            final(self).spec_dma_enabled() == old(self).spec_dma_enabled(),
    {
        self.handle = handle;
        self.state = ContextState::Realized;
    }

    /// The session handle, zero while none is bound.
    pub fn handle(&self) -> (r: usize)
        ensures
            r == self.spec_handle(),
    {
        self.handle
    }

    /// Whether the client's DMA registrations are tracked.
    pub fn dma_enabled(&self) -> (r: bool)
        ensures
            r == self.spec_dma_enabled(),
    {
        self.dma_enabled
    }

    pub fn state(&self) -> (r: ContextState)
        ensures
            r == self.spec_state(),
    {
        self.state
    }

    /// Records a DMA region that the client registered.
    pub fn dma_register(&mut self, base_address: usize, length: usize)
        ensures
            final(self).spec_dma_regions() == old(self).spec_dma_regions().insert(
                base_address,
                length,
            ),
            final(self).spec_handle() == old(self).spec_handle(),
            final(self).spec_state() == old(self).spec_state(),
            final(self).spec_dma_enabled() == old(self).spec_dma_enabled(),
    {
        self.dma_regions.insert(base_address, length);
    }

    /// Forgets a DMA region that the client unregistered; returns its length.
    pub fn dma_unregister(&mut self, base_address: usize) -> (r: Option<usize>)
        ensures
            final(self).spec_dma_regions() == old(self).spec_dma_regions().remove(base_address),
            r == (if old(self).spec_dma_regions().contains_key(base_address) {
                Some(old(self).spec_dma_regions()[base_address])
            } else {
                None
            }),
            final(self).spec_handle() == old(self).spec_handle(),
            final(self).spec_state() == old(self).spec_state(),
            final(self).spec_dma_enabled() == old(self).spec_dma_enabled(),
    {
        self.dma_regions.remove(&base_address)
    }

    /// The length of the registered region at a base address.
    pub fn dma_region_length(&self, base_address: usize) -> (r: Option<usize>)
        ensures
            r == (if self.spec_dma_regions().contains_key(base_address) {
                Some(self.spec_dma_regions()[base_address])
            } else {
                None
            }),
    {
        match self.dma_regions.get(&base_address) {
            Some(length) => Some(*length),
            None => None,
        }
    }

    /// The number of registered DMA regions.
    pub fn dma_region_count(&self) -> (r: usize)
        ensures
            r == self.spec_dma_regions().len(),
    {
        self.dma_regions.len()
    }

    /// Whether at least one DMA region is registered.
    pub fn has_dma_regions(&self) -> (r: bool)
        ensures
            r == (self.spec_dma_regions().len() > 0),
    {
        self.dma_regions.len() > 0
    }

    /// The outcome of attaching, from the session's return value and error
    /// code: attached, not yet (a non-blocking session would block), or an
    /// error.
    pub fn attach_outcome(&mut self, ret: i32, errno: i32) -> (r: Result<Option<()>, ContextError>)
        ensures
            ret == 0 ==> r == Ok::<Option<()>, ContextError>(Some(())) && final(self).spec_state()
                == ContextState::Attached,
            ret != 0 && errno == ERRNO_WOULD_BLOCK ==> r == Ok::<Option<()>, ContextError>(None)
                && final(self).spec_state() == old(self).spec_state(),
            ret != 0 && errno != ERRNO_WOULD_BLOCK ==> r == Err::<Option<()>, ContextError>(
                ContextError::Attach { errno },
            ) && final(self).spec_state() == old(self).spec_state(),
            final(self).spec_dma_regions() == old(self).spec_dma_regions(),
            final(self).spec_handle() == old(self).spec_handle(),
            final(self).spec_dma_enabled() == old(self).spec_dma_enabled(),
    {
        if ret != 0 {
            if errno == ERRNO_WOULD_BLOCK {
                Ok(None)
            } else {
                Err(ContextError::Attach { errno })
            }
        } else {
            self.state = ContextState::Attached;
            Ok(Some(()))
        }
    }

    /// The outcome of attaching, from the session's return value, with the
    /// error code read from the platform when the call failed.
    pub fn attach_result(&mut self, ret: i32) -> (r: Result<Option<()>, ContextError>)
        ensures
            ret == 0 ==> r == Ok::<Option<()>, ContextError>(Some(())) && final(self).spec_state()
                == ContextState::Attached,
            ret != 0 ==> (r == Ok::<Option<()>, ContextError>(None) || r matches Err(
                ContextError::Attach { .. },
            )) && final(self).spec_state() == old(self).spec_state(),
            final(self).spec_dma_regions() == old(self).spec_dma_regions(),
            final(self).spec_handle() == old(self).spec_handle(),
            final(self).spec_dma_enabled() == old(self).spec_dma_enabled(),
    {
        let errno = if ret != 0 {
            last_error()
        } else {
            0
        };
        self.attach_outcome(ret, errno)
    }

    /// The outcome of one run of the session: the number of requests it
    /// processed, zero when none was pending, or an error with the
    /// platform's error code.
    pub fn run_outcome(&self, ret: i32) -> (r: Result<u32, ContextError>)
        ensures
            ret >= 0 ==> r == Ok::<u32, ContextError>(ret as u32),
            ret < 0 ==> r matches Err(ContextError::Run { .. }),
    {
        if ret < 0 {
            Err(ContextError::Run { errno: last_error() })
        } else {
            Ok(ret as u32)
        }
    }

    /// The outcome of triggering an interrupt.
    pub fn trigger_irq_outcome(&self, ret: i32) -> (r: Result<(), ContextError>)
        ensures
            ret == 0 ==> r == Ok::<(), ContextError>(()),
            ret != 0 ==> r matches Err(ContextError::TriggerIrq { .. }),
    {
        if ret != 0 {
            Err(ContextError::TriggerIrq { errno: last_error() })
        } else {
            Ok(())
        }
    }
}

} // verus!
