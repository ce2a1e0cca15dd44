//! The reconciler: keeps the registry of local accessories in step with the
//! devices that the remote API reports as available.

use vstd::prelude::*;
use crate::config::Config;
use crate::spotify_accessory::{accessory_ids, SpotifyAccessory};
use crate::spotify_api::{device_ids, ApiError, SpotifyDevice, SpotifyDevices};

verus! {

/// Whether an accessory's device is among the available ids.
pub open spec fn is_available<H>(available: Seq<Seq<char>>) -> spec_fn(SpotifyAccessory<H>) -> bool {
    |a: SpotifyAccessory<H>| available.contains(a.device_id@)
}

/// Whether an accessory's device is missing from the available ids.
pub open spec fn is_missing<H>(available: Seq<Seq<char>>) -> spec_fn(SpotifyAccessory<H>) -> bool {
    |a: SpotifyAccessory<H>| !available.contains(a.device_id@)
}

/// The registered accessories whose device is still available, in registry order.
pub open spec fn kept<H>(registry: Seq<SpotifyAccessory<H>>, available: Seq<Seq<char>>) -> Seq<
    SpotifyAccessory<H>,
> {
    registry.filter(is_available(available))
}

/// The registered accessories whose device is no longer available, in registry order.
pub open spec fn vanished<H>(registry: Seq<SpotifyAccessory<H>>, available: Seq<Seq<char>>) -> Seq<
    SpotifyAccessory<H>,
> {
    registry.filter(is_missing(available))
}

/// The available devices that have no accessory yet, in the order of the
/// poll. A device id that the poll reports twice counts once, where it first stands.
pub open spec fn arrived(registered: Seq<Seq<char>>, available: Seq<SpotifyDevice>) -> Seq<
    SpotifyDevice,
>
    decreases available.len(),
{
    if available.len() == 0 {
        Seq::empty()
    } else {
        let earlier = arrived(registered, available.drop_last());
        let device = available.last();
        if registered.contains(device.id@) || device_ids(earlier).contains(device.id@) {
            earlier
        } else {
            earlier.push(device)
        }
    }
}

/// The registry after the registration of one accessory: it joins at the end, unless
/// its device id is registered already.
pub open spec fn registered<H>(registry: Seq<SpotifyAccessory<H>>, accessory: SpotifyAccessory<H>) -> Seq<
    SpotifyAccessory<H>,
> {
    if accessory_ids(registry).contains(accessory.device_id@) {
        registry
    } else {
        registry.push(accessory)
    }
}

/// The registry after the registration of several accessories, one after the other.
pub open spec fn registered_all<H>(registry: Seq<SpotifyAccessory<H>>, accessories: Seq<SpotifyAccessory<H>>) -> Seq<
    SpotifyAccessory<H>,
>
    decreases accessories.len(),
{
    if accessories.len() == 0 {
        registry
    } else {
        registered(registered_all(registry, accessories.drop_last()), accessories.last())
    }
}

/// Default interval between two ticks, in milliseconds.
pub const REFRESH_RATE: u32 = 10000;

/// What the host has to do after one poll.
#[derive(Debug)]
pub struct Reconciliation<H> {
    /// Accessories that left the registry: the host unregisters these first, in this order.
    pub unregister: Vec<SpotifyAccessory<H>>,
    /// Devices that need an accessory: the host creates and registers one for each, in this order.
    pub register: Vec<SpotifyDevice>,
    /// Why the poll failed, where it did: the tick is then skipped, with no host call at all.
    pub failed: Option<ApiError>,
}

/// One call that the host makes in the course of a tick.
#[derive(Debug)]
pub enum HostCall<H> {
    /// Unregister this accessory, which left the registry.
    Unregister(SpotifyAccessory<H>),
    /// Create an accessory for this device, register it with the host and add it
    /// to the registry.
    Register(SpotifyDevice),
    /// Read the power characteristic of the accessory of the device with this id.
    Probe(String),
}

impl<H> HostCall<H> {
    /// The pass of the tick that a call belongs to: removal, addition, refresh.
    pub open spec fn pass(self) -> int {
        match self {
            HostCall::Unregister(_) => 0,
            HostCall::Register(_) => 1,
            HostCall::Probe(_) => 2,
        }
    }
}

/// The host calls of one tick in the order in which they are made: first every
/// accessory that leaves is unregistered, then every device that came is
/// registered, then every accessory of the registry is probed, the ones that
/// stayed before the ones that came.
pub open spec fn ordered_calls<H>(
    leaving: Seq<SpotifyAccessory<H>>,
    coming: Seq<SpotifyDevice>,
    staying: Seq<SpotifyAccessory<H>>,
) -> Seq<HostCall<H>> {
    unregistrations(leaving) + registrations(coming) + probes_of_accessories(staying) + probes_of_devices(
        coming,
    )
}

/// One call to unregister each of the accessories, in their order.
pub open spec fn unregistrations<H>(leaving: Seq<SpotifyAccessory<H>>) -> Seq<HostCall<H>> {
    Seq::new(leaving.len(), |i: int| HostCall::Unregister(leaving[i]))
}

/// One call to register each of the devices, in their order.
pub open spec fn registrations<H>(coming: Seq<SpotifyDevice>) -> Seq<HostCall<H>> {
    Seq::new(coming.len(), |i: int| HostCall::Register(coming[i]))
}

/// One probe of each of the accessories, in their order.
pub open spec fn probes_of_accessories<H>(staying: Seq<SpotifyAccessory<H>>) -> Seq<HostCall<H>> {
    Seq::new(staying.len(), |i: int| HostCall::Probe(staying[i].device_id))
}

/// One probe of the accessory of each of the devices, in their order.
pub open spec fn probes_of_devices<H>(coming: Seq<SpotifyDevice>) -> Seq<HostCall<H>> {
    Seq::new(coming.len(), |i: int| HostCall::Probe(coming[i].id))
}

/// Within a tick the removal pass is complete before the addition pass begins, and
/// the probes come after both: of two host calls, the earlier never belongs to a
/// later pass than the other.
pub proof fn lemma_calls_pass_by_pass<H>(
    leaving: Seq<SpotifyAccessory<H>>,
    coming: Seq<SpotifyDevice>,
    staying: Seq<SpotifyAccessory<H>>,
    i: int,
    j: int,
)
    requires
        0 <= i <= j < ordered_calls(leaving, coming, staying).len(),
    ensures
        ordered_calls(leaving, coming, staying)[i].pass() <= ordered_calls(leaving, coming, staying)[j].pass(),
{
}

fn has_device(devices: &Vec<SpotifyDevice>, id: &String) -> (found: bool)
    ensures
        found == device_ids(devices@).contains(id@),
{
    let mut i: usize = 0;
    while i < devices.len()
        invariant
            i <= devices.len(),
            !device_ids(devices@.take(i as int)).contains(id@),
        decreases devices.len() - i,
    {
        if devices[i].id == *id {
            assert(device_ids(devices@)[i as int] == id@);
            return true;
        }
        assert(device_ids(devices@.take(i + 1)) == device_ids(devices@.take(i as int)).push(devices@[i as int].id@));
        i += 1;
    }
    assert(devices@.take(i as int) == devices@);
    false
}

fn has_accessory<H>(accessories: &Vec<SpotifyAccessory<H>>, id: &String) -> (found: bool)
    ensures
        found == accessory_ids(accessories@).contains(id@),
{
    let mut i: usize = 0;
    while i < accessories.len()
        invariant
            i <= accessories.len(),
            !accessory_ids(accessories@.take(i as int)).contains(id@),
        decreases accessories.len() - i,
    {
        if accessories[i].device_id == *id {
            assert(accessory_ids(accessories@)[i as int] == id@);
            return true;
        }
        assert(accessory_ids(accessories@.take(i + 1)) == accessory_ids(accessories@.take(i as int)).push(accessories@[i as int].device_id@));
        i += 1;
    }
    assert(accessories@.take(i as int) == accessories@);
    false
}

/// Removal pass: parts the registry into the accessories that stay and those that leave.
fn split_registry<H>(registry: Vec<SpotifyAccessory<H>>, available: &Vec<SpotifyDevice>) -> (parts: (
    Vec<SpotifyAccessory<H>>,
    Vec<SpotifyAccessory<H>>,
))
    ensures
        parts.0@ == kept(registry@, device_ids(available@)),
        parts.1@ == vanished(registry@, device_ids(available@)),
{
    let ghost ids = device_ids(available@);
    let mut staying: Vec<SpotifyAccessory<H>> = Vec::new();
    let mut leaving: Vec<SpotifyAccessory<H>> = Vec::new();
    proof {
        reveal(Seq::filter);
    }
    for accessory in it: registry
        invariant
            ids == device_ids(available@),
            it.seq() == registry@,
            staying@ == kept(registry@.take(it.index() as int), ids),
            leaving@ == vanished(registry@.take(it.index() as int), ids),
    {
        proof {
            let done = registry@.take(it.index() as int);
            assert(registry@.take(it.index() + 1) == done.push(accessory));
            done.lemma_filter_push(accessory, is_available(ids));
            done.lemma_filter_push(accessory, is_missing(ids));
        }
        if has_device(available, &accessory.device_id) {
            staying.push(accessory);
        } else {
            leaving.push(accessory);
        }
    }
    assert(registry@.take(registry@.len() as int) == registry@);
    (staying, leaving)
}

/// Addition pass: picks the available devices that have no accessory yet.
fn collect_arrived<H>(registered: &Vec<SpotifyAccessory<H>>, available: Vec<SpotifyDevice>) -> (fresh: Vec<
    SpotifyDevice,
>)
    ensures
        fresh@ == arrived(accessory_ids(registered@), available@),
{
    let ghost ids = accessory_ids(registered@);
    let mut fresh: Vec<SpotifyDevice> = Vec::new();
    for device in it: available
        invariant
            ids == accessory_ids(registered@),
            it.seq() == available@,
            fresh@ == arrived(ids, available@.take(it.index() as int)),
    {
        proof {
            let next = available@.take(it.index() + 1);
            assert(next.drop_last() == available@.take(it.index() as int));
            assert(next.last() == device);
        }
        if !has_accessory(registered, &device.id) && !has_device(&fresh, &device.id) {
            fresh.push(device);
        }
    }
    assert(available@.take(available@.len() as int) == available@);
    fresh
}

/// The registry of local accessories and the state of the periodic tick
/// that reconciles it. No two registered accessories share a device id.
pub struct SpotifyPlatform<H> {
    /// Interval between two ticks, in milliseconds
    refresh_rate: u32,
    /// Registered accessories, in the order of their registration
    devices: Vec<SpotifyAccessory<H>>,
    /// Accessories that the host restored from its own store and that no poll has confirmed
    cached_devices: Vec<H>,
    /// Whether a tick has started and not yet finished
    tick_running: bool,
}

/// How a due tick starts.
#[derive(Debug)]
pub enum TickStart<H> {
    /// The previous tick is still running: this one is skipped, not queued.
    Skipped,
    /// The tick runs. The host first unregisters the restored accessories given here.
    Started { stale: Vec<H> },
}

impl<H> SpotifyPlatform<H> {
    #[verifier::type_invariant]
    spec fn distinct_ids(&self) -> bool {
        accessory_ids(self.devices@).no_duplicates()
    }

    /// The registered accessories, in the order of their registration.
    pub closed spec fn registry(&self) -> Seq<SpotifyAccessory<H>> {
        self.devices@
    }

    /// The restored accessories that wait to be unregistered.
    pub closed spec fn cached(&self) -> Seq<H> {
        self.cached_devices@
    }

    /// Whether a tick has started and not yet finished.
    pub closed spec fn ticking(&self) -> bool {
        self.tick_running
    }

    /// The interval between two ticks, in milliseconds.
    pub closed spec fn interval(&self) -> u32 {
        self.refresh_rate
    }

    /// A platform with an empty registry, on which no tick runs. A tick is due at the
    /// configured rate, and every `REFRESH_RATE` milliseconds where none is configured.
    pub fn new(config: &Config) -> (platform: Self)
        ensures
            platform.registry() == Seq::<SpotifyAccessory<H>>::empty(),
            platform.cached() == Seq::<H>::empty(),
            !platform.ticking(),
            platform.interval() == match config.refresh_rate {
                Some(rate) => rate,
                None => REFRESH_RATE,
            },
    {
        SpotifyPlatform {
            refresh_rate: config.refresh_rate(),
            devices: Vec::new(),
            cached_devices: Vec::new(),
            tick_running: false,
        }
    }

    /// The interval between two ticks, in milliseconds.
    pub fn refresh_rate(&self) -> (rate: u32)
        ensures
            rate == self.interval(),
    {
        self.refresh_rate
    }

    /// The registered accessories, in the order of their registration: the
    /// ones that the host probes at the end of a tick.
    pub fn devices(&self) -> (devices: &Vec<SpotifyAccessory<H>>)
        ensures
            devices@ == self.registry(),
            accessory_ids(devices@).no_duplicates(),
    {
        proof {
            use_type_invariant(self);
        }
        &self.devices
    }

    /// Whether a tick has started and not yet finished.
    pub fn is_ticking(&self) -> (running: bool)
        ensures
            running == self.ticking(),
    {
        self.tick_running
    }

    /// Called by the host to hand over an accessory that it restored from its own store.
    pub fn configure_accessory(&mut self, accessory: H)
        ensures
            final(self).cached() == old(self).cached().push(accessory),
            final(self).registry() == old(self).registry(),
            final(self).ticking() == old(self).ticking(),
            final(self).interval() == old(self).interval(),
    {
        proof {
            use_type_invariant(&*self);
        }
        let mut cached: Vec<H> = Vec::new();
        std::mem::swap(&mut cached, &mut self.cached_devices);
        cached.push(accessory);
        self.cached_devices = cached;
    }

    /// Remove cached accessories: hands all of them out, for the host to
    /// unregister, and keeps none. A second call finds nothing left.
    pub fn remove_cached(&mut self) -> (stale: Vec<H>)
        ensures
            stale@ == old(self).cached(),
            final(self).cached() == Seq::<H>::empty(),
            final(self).registry() == old(self).registry(),
            final(self).ticking() == old(self).ticking(),
            final(self).interval() == old(self).interval(),
    {
        proof {
            use_type_invariant(&*self);
        }
        let mut stale: Vec<H> = Vec::new();
        std::mem::swap(&mut stale, &mut self.cached_devices);
        stale
    }

    /// A tick is due. While the previous tick runs, this one is skipped and nothing
    /// changes. Otherwise the tick starts with the cleanup of the restored accessories.
    pub fn start_tick(&mut self) -> (start: TickStart<H>)
        ensures
            final(self).registry() == old(self).registry(),
            final(self).interval() == old(self).interval(),
            final(self).ticking(),
            old(self).ticking() ==> start == TickStart::<H>::Skipped && final(self).cached() == old(
                self,
            ).cached(),
            !old(self).ticking() ==> final(self).cached() == Seq::<H>::empty() && (
            start matches TickStart::Started { stale } && stale@ == old(self).cached()),
    {
        if self.tick_running {
            TickStart::Skipped
        } else {
            let stale = self.remove_cached();
            proof {
                use_type_invariant(&*self);
            }
            self.tick_running = true;
            TickStart::Started { stale }
        }
    }

    /// The running tick is over, however it ended: the next due tick starts.
    pub fn finish_tick(&mut self)
        ensures
            !final(self).ticking(),
            final(self).registry() == old(self).registry(),
            final(self).cached() == old(self).cached(),
            final(self).interval() == old(self).interval(),
    {
        proof {
            use_type_invariant(&*self);
        }
        self.tick_running = false;
    }

    /// Add an accessory that the host has created and registered. One whose
    /// device id is registered already is handed back, and the registry stays as it is.
    pub fn register(&mut self, accessory: SpotifyAccessory<H>) -> (refused: Option<SpotifyAccessory<H>>)
        ensures
            final(self).cached() == old(self).cached(),
            final(self).ticking() == old(self).ticking(),
            final(self).interval() == old(self).interval(),
            final(self).registry() == registered(old(self).registry(), accessory),
            refused == if accessory_ids(old(self).registry()).contains(accessory.device_id@) {
                Some(accessory)
            } else {
                None
            },
    {
        proof {
            use_type_invariant(&*self);
        }
        if has_accessory(&self.devices, &accessory.device_id) {
            Some(accessory)
        } else {
            let mut registry: Vec<SpotifyAccessory<H>> = Vec::new();
            std::mem::swap(&mut registry, &mut self.devices);
            proof {
                assert(accessory_ids(registry@.push(accessory)) == accessory_ids(registry@).push(
                    accessory.device_id@,
                ));
            }
            registry.push(accessory);
            self.devices = registry;
            None
        }
    }

    /// The registered accessory of a device, if it has one.
    pub fn accessory(&self, device_id: &str) -> (found: Option<&SpotifyAccessory<H>>)
        ensures
            match found {
                Some(accessory) => self.registry().contains(*accessory) && accessory.device_id@ == device_id@,
                None => !accessory_ids(self.registry()).contains(device_id@),
            },
    {
        let id = device_id.to_owned();
        let mut i: usize = 0;
        while i < self.devices.len()
            invariant
                i <= self.devices.len(),
                id@ == device_id@,
                forall|k: int| 0 <= k < i ==> self.devices@[k].device_id@ != id@,
            decreases self.devices.len() - i,
        {
            if self.devices[i].device_id == id {
                let accessory = &self.devices[i];
                assert(self.devices@[i as int] == *accessory);
                return Some(accessory);
            }
            i += 1;
        }
        None
    }

    /// Put what a poll decided into the order in which the host acts on it: the
    /// calls of the removal pass, then those of the addition pass, then a probe of
    /// every accessory that the registry holds once the additions are made. After a
    /// poll that failed the host makes no call.
    pub fn host_calls(&self, plan: Reconciliation<H>) -> (calls: Vec<HostCall<H>>)
        ensures
            calls@ == if plan.failed.is_none() {
                ordered_calls(plan.unregister@, plan.register@, self.registry())
            } else {
                Seq::<HostCall<H>>::empty()
            },
    {
        if plan.failed.is_some() {
            return Vec::new();
        }
        let ghost leaving = plan.unregister@;
        let ghost coming = plan.register@;
        let ghost staying = self.devices@;

        let mut probes: Vec<HostCall<H>> = Vec::new();
        let mut i: usize = 0;
        while i < self.devices.len()
            invariant
                i <= self.devices.len(),
                staying == self.devices@,
                probes@ == probes_of_accessories::<H>(staying.take(i as int)),
            decreases self.devices.len() - i,
        {
            probes.push(HostCall::Probe(self.devices[i].device_id.clone()));
            assert(probes_of_accessories::<H>(staying.take(i + 1)) == probes_of_accessories::<H>(
                staying.take(i as int),
            ).push(HostCall::Probe(staying[i as int].device_id)));
            i += 1;
        }
        assert(staying.take(staying.len() as int) == staying);
        let mut k: usize = 0;
        while k < plan.register.len()
            invariant
                k <= plan.register.len(),
                coming == plan.register@,
                probes@ == probes_of_accessories::<H>(staying) + probes_of_devices::<H>(coming.take(k as int)),
            decreases plan.register.len() - k,
        {
            probes.push(HostCall::Probe(plan.register[k].id.clone()));
            assert(probes_of_devices::<H>(coming.take(k + 1)) == probes_of_devices::<H>(
                coming.take(k as int),
            ).push(HostCall::Probe(coming[k as int].id)));
            k += 1;
        }
        assert(coming.take(coming.len() as int) == coming);

        let mut calls: Vec<HostCall<H>> = Vec::new();
        let Reconciliation { unregister: gone, register: come, failed: _ } = plan;
        for accessory in it: gone
            invariant
                it.seq() == leaving,
                calls@ == unregistrations(leaving.take(it.index() as int)),
        {
            assert(unregistrations(leaving.take(it.index() + 1)) == unregistrations(
                leaving.take(it.index() as int),
            ).push(HostCall::Unregister(accessory)));
            calls.push(HostCall::Unregister(accessory));
        }
        assert(leaving.take(leaving.len() as int) == leaving);
        for device in it: come
            invariant
                it.seq() == coming,
                calls@ == unregistrations(leaving) + registrations::<H>(coming.take(it.index() as int)),
        {
            assert(registrations::<H>(coming.take(it.index() + 1)) == registrations::<H>(
                coming.take(it.index() as int),
            ).push(HostCall::Register(device)));
            calls.push(HostCall::Register(device));
        }
        calls.append(&mut probes);
        calls
    }

    /// Determine the accessories to add and to remove from one poll of the
    /// available devices, and drop from the registry those that became
    /// unavailable. A poll that failed changes nothing.
    pub fn refresh_devices(&mut self, fetched: Result<SpotifyDevices, ApiError>) -> (plan: Reconciliation<H>)
        ensures
            final(self).cached() == old(self).cached(),
            final(self).ticking() == old(self).ticking(),
            final(self).interval() == old(self).interval(),
            match fetched {
                Ok(list) => {
                    let ids = device_ids(list.devices@);
                    &&& final(self).registry() == kept(old(self).registry(), ids)
                    &&& plan.unregister@ == vanished(old(self).registry(), ids)
                    &&& plan.register@ == arrived(accessory_ids(final(self).registry()), list.devices@)
                    &&& plan.failed.is_none()
                },
                Err(error) => {
                    &&& final(self).registry() == old(self).registry()
                    &&& plan.unregister@ == Seq::<SpotifyAccessory<H>>::empty()
                    &&& plan.register@ == Seq::<SpotifyDevice>::empty()
                    &&& plan.failed == Some(error)
                },
            },
    {
        proof {
            use_type_invariant(&*self);
        }
        match fetched {
            Ok(list) => {
                let mut registry: Vec<SpotifyAccessory<H>> = Vec::new();
                std::mem::swap(&mut registry, &mut self.devices);
                let ghost before = registry@;
                let (staying, leaving) = split_registry(registry, &list.devices);
                let fresh = collect_arrived(&staying, list.devices);
                proof {
                    lemma_filter_distinct(before, is_available(device_ids(list.devices@)));
                }
                self.devices = staying;
                Reconciliation { unregister: leaving, register: fresh, failed: None }
            },
            Err(error) => Reconciliation { unregister: Vec::new(), register: Vec::new(), failed: Some(error) },
        }
    }
}

/// Which ids the removal pass keeps and which it drops.
proof fn lemma_split_ids<H>(registry: Seq<SpotifyAccessory<H>>, available: Seq<Seq<char>>, id: Seq<char>)
    ensures
        accessory_ids(kept(registry, available)).contains(id) <==> accessory_ids(registry).contains(id)
            && available.contains(id),
        accessory_ids(vanished(registry, available)).contains(id) <==> accessory_ids(registry).contains(id)
            && !available.contains(id),
{
    let staying = kept(registry, available);
    let leaving = vanished(registry, available);
    if accessory_ids(staying).contains(id) {
        let i = choose|i: int| 0 <= i < staying.len() && accessory_ids(staying)[i] == id;
        registry.lemma_filter_pred(is_available(available), i);
        lemma_filter_ids(registry, is_available(available), id);
    }
    if accessory_ids(leaving).contains(id) {
        let i = choose|i: int| 0 <= i < leaving.len() && accessory_ids(leaving)[i] == id;
        registry.lemma_filter_pred(is_missing(available), i);
        lemma_filter_ids(registry, is_missing(available), id);
    }
    if accessory_ids(registry).contains(id) {
        let j = choose|j: int| 0 <= j < registry.len() && accessory_ids(registry)[j] == id;
        if available.contains(id) {
            registry.lemma_filter_contains(is_available(available), j);
            let k = choose|k: int| 0 <= k < staying.len() && staying[k] == registry[j];
            assert(accessory_ids(staying)[k] == id);
        } else {
            registry.lemma_filter_contains(is_missing(available), j);
            let k = choose|k: int| 0 <= k < leaving.len() && leaving[k] == registry[j];
            assert(accessory_ids(leaving)[k] == id);
        }
    }
}

/// Which ids the addition pass picks, and that it picks none twice.
proof fn lemma_arrived_ids(registered: Seq<Seq<char>>, available: Seq<SpotifyDevice>)
    ensures
        device_ids(arrived(registered, available)).no_duplicates(),
        forall|id: Seq<char>| #[trigger]
            device_ids(arrived(registered, available)).contains(id) <==> device_ids(available).contains(id)
                && !registered.contains(id),
    decreases available.len(),
{
    if available.len() > 0 {
        let front = available.drop_last();
        let device = available.last();
        let earlier = arrived(registered, front);
        lemma_arrived_ids(registered, front);
        assert(device_ids(available) == device_ids(front).push(device.id@));
        assert(device_ids(earlier.push(device)) == device_ids(earlier).push(device.id@));
        assert forall|id: Seq<char>| #[trigger]
            device_ids(arrived(registered, available)).contains(id) <==> device_ids(available).contains(id)
                && !registered.contains(id) by {
            lemma_push_contains(device_ids(front), device.id@, id);
            lemma_push_contains(device_ids(earlier), device.id@, id);
        }
    }
}

/// An element is in a sequence with one more element iff it is that element or was in the sequence.
proof fn lemma_push_contains<A>(s: Seq<A>, last: A, x: A)
    ensures
        s.push(last).contains(x) <==> s.contains(x) || x == last,
{
    if s.contains(x) {
        let i = choose|i: int| 0 <= i < s.len() && s[i] == x;
        assert(s.push(last)[i] == x);
    }
    if x == last {
        assert(s.push(last)[s.len() as int] == x);
    }
}

/// One poll brings the registry in step with the available devices. With `staying` the
/// accessories that the removal pass keeps, `leaving` those that it hands out to be
/// unregistered and `coming` the devices that it hands out to be registered:
/// `leaving` holds exactly the registered ids that are no longer available, `coming`
/// exactly the available ids that were not registered, neither holds an id twice, an id
/// that is both registered and available is in neither, and `staying` together with
/// `coming` holds exactly the available ids, each once.
pub proof fn lemma_poll_converges<H>(registry: Seq<SpotifyAccessory<H>>, available: Seq<SpotifyDevice>)
    requires
        accessory_ids(registry).no_duplicates(),
    ensures
        ({
            let ids = device_ids(available);
            let staying = accessory_ids(kept(registry, ids));
            let leaving = accessory_ids(vanished(registry, ids));
            let coming = device_ids(arrived(staying, available));
            &&& leaving.no_duplicates()
            &&& coming.no_duplicates()
            &&& leaving.to_set() == accessory_ids(registry).to_set().difference(ids.to_set())
            &&& coming.to_set() == ids.to_set().difference(accessory_ids(registry).to_set())
            &&& (staying + coming).no_duplicates()
            &&& (staying + coming).to_set() == ids.to_set()
        }),
{
    let ids = device_ids(available);
    let staying = accessory_ids(kept(registry, ids));
    let leaving = accessory_ids(vanished(registry, ids));
    let coming = device_ids(arrived(staying, available));
    lemma_filter_distinct(registry, is_available(ids));
    lemma_filter_distinct(registry, is_missing(ids));
    lemma_arrived_ids(staying, available);
    assert forall|id: Seq<char>|
        (leaving.contains(id) <==> accessory_ids(registry).contains(id) && !ids.contains(id)) && (
        staying.contains(id) <==> accessory_ids(registry).contains(id) && ids.contains(id)) by {
        lemma_split_ids(registry, ids, id);
    }
    assert(leaving.to_set() =~= accessory_ids(registry).to_set().difference(ids.to_set()));
    assert(coming.to_set() =~= ids.to_set().difference(accessory_ids(registry).to_set())) by {
        assert forall|id: Seq<char>| coming.contains(id) <==> ids.contains(id) && !accessory_ids(
            registry,
        ).contains(id) by {
            assert(coming.contains(id) <==> ids.contains(id) && !staying.contains(id));
        }
    }
    assert((staying + coming).no_duplicates()) by {
        assert forall|i: int, j: int|
            0 <= i < staying.len() && 0 <= j < coming.len() implies staying[i] != coming[j] by {
            assert(coming.contains(coming[j]));
            assert(staying.contains(staying[i]));
        }
        vstd::seq_lib::lemma_no_dup_in_concat(staying, coming);
    }
    assert((staying + coming).to_set() =~= ids.to_set()) by {
        assert forall|id: Seq<char>| (staying + coming).contains(id) <==> ids.contains(id) by {
            if (staying + coming).contains(id) {
                let i = choose|i: int| 0 <= i < (staying + coming).len() && (staying + coming)[i] == id;
                if i < staying.len() {
                    assert(staying.contains(staying[i]));
                } else {
                    assert(coming.contains(coming[i - staying.len()]));
                }
            }
            if ids.contains(id) {
                if staying.contains(id) {
                    let i = choose|i: int| 0 <= i < staying.len() && staying[i] == id;
                    assert((staying + coming)[i] == id);
                } else {
                    assert(coming.contains(id));
                    let j = choose|j: int| 0 <= j < coming.len() && coming[j] == id;
                    assert((staying + coming)[staying.len() + j] == id);
                }
            }
        }
    }
}

/// After a poll, every accessory that the host creates for the devices handed out to be
/// registered joins the registry: registering them in order, one for each device,
/// appends them all.
pub proof fn lemma_arrivals_join<H>(
    registry: Seq<SpotifyAccessory<H>>,
    available: Seq<SpotifyDevice>,
    created: Seq<SpotifyAccessory<H>>,
)
    requires
        accessory_ids(registry).no_duplicates(),
        accessory_ids(created) == device_ids(
            arrived(accessory_ids(kept(registry, device_ids(available))), available),
        ),
    ensures
        registered_all(kept(registry, device_ids(available)), created) == kept(
            registry,
            device_ids(available),
        ) + created,
{
    let staying = kept(registry, device_ids(available));
    lemma_poll_converges(registry, available);
    lemma_join_distinct(staying, created);
}

/// Registering accessories whose ids are new and distinct appends them all.
proof fn lemma_join_distinct<H>(registry: Seq<SpotifyAccessory<H>>, created: Seq<SpotifyAccessory<H>>)
    requires
        (accessory_ids(registry) + accessory_ids(created)).no_duplicates(),
    ensures
        registered_all(registry, created) == registry + created,
    decreases created.len(),
{
    let all = accessory_ids(registry) + accessory_ids(created);
    if created.len() == 0 {
        assert(registry + created == registry);
    } else {
        let front = created.drop_last();
        let last = created.last();
        assert(accessory_ids(front) == accessory_ids(created).drop_last());
        assert forall|i: int, j: int|
            0 <= i < j < (accessory_ids(registry) + accessory_ids(front)).len() implies (accessory_ids(
            registry,
        ) + accessory_ids(front))[i] != (accessory_ids(registry) + accessory_ids(front))[j] by {
            assert(all[i] != all[j]);
        }
        lemma_join_distinct(registry, front);
        let before = registry + front;
        assert(accessory_ids(before) == accessory_ids(registry) + accessory_ids(front));
        if accessory_ids(before).contains(last.device_id@) {
            let i = choose|i: int| 0 <= i < before.len() && accessory_ids(before)[i] == last.device_id@;
            assert(all[i] != all[all.len() - 1]);
        }
        assert(before.push(last) == registry + created);
    }
}

/// The ids of a filtered registry are ids of the registry.
proof fn lemma_filter_ids<H>(registry: Seq<SpotifyAccessory<H>>, pred: spec_fn(SpotifyAccessory<H>) -> bool, id: Seq<char>)
    requires
        accessory_ids(registry.filter(pred)).contains(id),
    ensures
        accessory_ids(registry).contains(id),
{
    let part = registry.filter(pred);
    let i = choose|i: int| 0 <= i < part.len() && accessory_ids(part)[i] == id;
    assert(part.contains(part[i]));
    registry.lemma_filter_contains_rev(pred, part[i]);
    let j = choose|j: int| 0 <= j < registry.len() && registry[j] == part[i];
    assert(accessory_ids(registry)[j] == id);
}

/// Filtering a registry keeps its device ids distinct.
proof fn lemma_filter_distinct<H>(registry: Seq<SpotifyAccessory<H>>, pred: spec_fn(SpotifyAccessory<H>) -> bool)
    requires
        accessory_ids(registry).no_duplicates(),
    ensures
        accessory_ids(registry.filter(pred)).no_duplicates(),
    decreases registry.len(),
{
    reveal(Seq::filter);
    if registry.len() > 0 {
        let front = registry.drop_last();
        let last = registry.last();
        assert(accessory_ids(front) == accessory_ids(registry).drop_last());
        lemma_filter_distinct(front, pred);
        if pred(last) {
            let part = front.filter(pred);
            assert(accessory_ids(part.push(last)) == accessory_ids(part).push(last.device_id@));
            if accessory_ids(part).contains(last.device_id@) {
                lemma_filter_ids(front, pred, last.device_id@);
                let j = choose|j: int| 0 <= j < front.len() && accessory_ids(front)[j] == last.device_id@;
                assert(accessory_ids(registry)[j] == accessory_ids(registry)[registry.len() - 1]);
            }
        }
    }
}

} // verus!
