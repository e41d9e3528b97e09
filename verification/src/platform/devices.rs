//! Device hot-plug bookkeeping: which events a rescan of the cameras raises,
//! and whether monitoring runs.

use vstd::prelude::*;
use crate::errors::CameraError;
use crate::types::Platform;
use crate::platform::table::{DeviceTable, entries_map};

verus! {

/// Device event types
#[derive(Debug, Clone, PartialEq, Eq)]
pub enum DeviceEvent {
    /// A device appeared (its ID).
    Connected(String),
    /// A device went away (its ID).
    Disconnected(String),
    /// A device's settings changed (its ID).
    Modified(String),
}

/// The identifiers held by a list of strings.
pub open spec fn id_views(ids: Seq<String>) -> Seq<Seq<char>> {
    ids.map_values(|s: String| s@)
}

/// `Disconnected` events (`false`, id) for the ids of `old` missing from
/// `new`, in the order of `old`.
pub open spec fn gone_ids(old: Seq<Seq<char>>, new: Seq<Seq<char>>) -> Seq<(bool, Seq<char>)>
    decreases old.len(),
{
    if old.len() == 0 {
        seq![]
    } else {
        let prev = gone_ids(old.drop_last(), new);
        if new.contains(old.last()) {
            prev
        } else {
            prev.push((false, old.last()))
        }
    }
}

/// `Connected` events (`true`, id) for the ids of `new` missing from `old`,
/// in the order of `new`.
pub open spec fn arrived_ids(old: Seq<Seq<char>>, new: Seq<Seq<char>>) -> Seq<(bool, Seq<char>)>
    decreases new.len(),
{
    if new.len() == 0 {
        seq![]
    } else {
        let prev = arrived_ids(old, new.drop_last());
        if old.contains(new.last()) {
            prev
        } else {
            prev.push((true, new.last()))
        }
    }
}

/// The events a rescan raises: disconnections first, then connections.
pub open spec fn rescan_events(old: Seq<Seq<char>>, new: Seq<Seq<char>>) -> Seq<(bool, Seq<char>)> {
    gone_ids(old, new) + arrived_ids(old, new)
}

/// An event is the given (connected?, id) pair.
pub open spec fn event_is(e: DeviceEvent, expected: (bool, Seq<char>)) -> bool {
    match e {
        DeviceEvent::Connected(id) => expected.0 && id@ == expected.1,
        DeviceEvent::Disconnected(id) => !expected.0 && id@ == expected.1,
        DeviceEvent::Modified(_) => false,
    }
}

/// Whether `id` is one of `ids`.
fn contains_id(ids: &Vec<String>, id: &String) -> (b: bool)
    ensures
        b == id_views(ids@).contains(id@),
{
    let mut i: usize = 0;
    while i < ids.len()
        invariant
            i <= ids@.len(),
            forall|k: int| 0 <= k < i ==> #[trigger] ids@[k]@ != id@,
        decreases ids@.len() - i,
    {
        if ids[i] == *id {
            assert(id_views(ids@)[i as int] == id@);
            return true;
        }
        i += 1;
    }
    assert forall|k: int| 0 <= k < id_views(ids@).len() implies #[trigger] id_views(ids@)[k] != id@ by {
        assert(id_views(ids@)[k] == ids@[k]@);
    }
    false
}

/// The events a rescan raises, given the ids known before it (`old_ids`) and
/// the ids it found (`new_ids`): a `Disconnected` event for each known id
/// that was not found, then a `Connected` event for each found id that was
/// not known. After the rescan the known ids are `new_ids`.
pub fn device_events(old_ids: &Vec<String>, new_ids: &Vec<String>) -> (events: Vec<DeviceEvent>)
    ensures
        events@.len() == rescan_events(id_views(old_ids@), id_views(new_ids@)).len(),
        forall|i: int|
            0 <= i < events@.len() ==> event_is(
                #[trigger] events@[i],
                rescan_events(id_views(old_ids@), id_views(new_ids@))[i],
            ),
        forall|k: int|
            0 <= k < old_ids@.len() && !id_views(new_ids@).contains(#[trigger] old_ids@[k]@)
                ==> exists|i: int|
                0 <= i < events@.len() && (#[trigger] events@[i] matches DeviceEvent::Disconnected(
                    id,
                ) && id@ == old_ids@[k]@),
        forall|k: int|
            0 <= k < new_ids@.len() && !id_views(old_ids@).contains(#[trigger] new_ids@[k]@)
                ==> exists|i: int|
                0 <= i < events@.len() && (#[trigger] events@[i] matches DeviceEvent::Connected(id)
                    && id@ == new_ids@[k]@),
        forall|i: int|
            0 <= i < events@.len() ==> match #[trigger] events@[i] {
                DeviceEvent::Disconnected(id) => id_views(old_ids@).contains(id@) && !id_views(
                    new_ids@,
                ).contains(id@),
                DeviceEvent::Connected(id) => id_views(new_ids@).contains(id@) && !id_views(
                    old_ids@,
                ).contains(id@),
                DeviceEvent::Modified(_) => false,
            },
{
    let ghost old = id_views(old_ids@);
    let ghost new = id_views(new_ids@);
    let mut events: Vec<DeviceEvent> = Vec::new();
    let mut i: usize = 0;
    while i < old_ids.len()
        invariant
            i <= old_ids@.len(),
            old == id_views(old_ids@),
            new == id_views(new_ids@),
            events@.len() == gone_ids(old.take(i as int), new).len(),
            forall|k: int|
                0 <= k < events@.len() ==> event_is(
                    #[trigger] events@[k],
                    gone_ids(old.take(i as int), new)[k],
                ),
        decreases old_ids@.len() - i,
    {
        assert(old.take(i + 1).drop_last() =~= old.take(i as int));
        assert(old.take(i + 1).last() == old_ids@[i as int]@);
        if !contains_id(new_ids, &old_ids[i]) {
            events.push(DeviceEvent::Disconnected(old_ids[i].clone()));
        }
        i += 1;
    }
    assert(old.take(old_ids@.len() as int) =~= old);
    let ghost gone_len = events@.len();
    let mut j: usize = 0;
    while j < new_ids.len()
        invariant
            j <= new_ids@.len(),
            old == id_views(old_ids@),
            new == id_views(new_ids@),
            gone_len == gone_ids(old, new).len(),
            events@.len() == gone_len + arrived_ids(old, new.take(j as int)).len(),
            forall|k: int|
                0 <= k < gone_len ==> event_is(#[trigger] events@[k], gone_ids(old, new)[k]),
            forall|k: int|
                gone_len <= k < events@.len() ==> event_is(
                    #[trigger] events@[k],
                    arrived_ids(old, new.take(j as int))[k - gone_len],
                ),
        decreases new_ids@.len() - j,
    {
        assert(new.take(j + 1).drop_last() =~= new.take(j as int));
        assert(new.take(j + 1).last() == new_ids@[j as int]@);
        if !contains_id(old_ids, &new_ids[j]) {
            events.push(DeviceEvent::Connected(new_ids[j].clone()));
        }
        j += 1;
    }
    assert(new.take(new_ids@.len() as int) =~= new);
    proof {
        let ev = rescan_events(old, new);
        assert forall|k: int|
            0 <= k < old_ids@.len() && !new.contains(#[trigger] old_ids@[k]@) implies exists|i: int|
            0 <= i < events@.len() && (#[trigger] events@[i] matches DeviceEvent::Disconnected(
                id,
            ) && id@ == old_ids@[k]@) by {
            assert(old[k] == old_ids@[k]@);
            lemma_every_change_is_reported(old, new, old_ids@[k]@);
            let j = choose|j: int| 0 <= j < ev.len() && ev[j] == (false, old_ids@[k]@);
            assert(event_is(events@[j], ev[j]));
        }
        assert forall|k: int|
            0 <= k < new_ids@.len() && !old.contains(#[trigger] new_ids@[k]@) implies exists|i: int|
            0 <= i < events@.len() && (#[trigger] events@[i] matches DeviceEvent::Connected(id)
                && id@ == new_ids@[k]@) by {
            assert(new[k] == new_ids@[k]@);
            lemma_every_change_is_reported(old, new, new_ids@[k]@);
            let j = choose|j: int| 0 <= j < ev.len() && ev[j] == (true, new_ids@[k]@);
            assert(event_is(events@[j], ev[j]));
        }
        assert forall|i: int| 0 <= i < events@.len() implies match #[trigger] events@[i] {
            DeviceEvent::Disconnected(id) => old.contains(id@) && !new.contains(id@),
            DeviceEvent::Connected(id) => new.contains(id@) && !old.contains(id@),
            DeviceEvent::Modified(_) => false,
        } by {
            assert(event_is(events@[i], ev[i]));
            lemma_events_are_changes(old, new, i);
        }
    }
    events
}

// ---------------------------------------------------------------------------
// Laws
// ---------------------------------------------------------------------------

proof fn lemma_gone_empty_when_kept(old: Seq<Seq<char>>, new: Seq<Seq<char>>)
    requires
        forall|i: int| 0 <= i < old.len() ==> new.contains(#[trigger] old[i]),
    ensures
        gone_ids(old, new).len() == 0,
    decreases old.len(),
{
    if old.len() > 0 {
        assert forall|i: int| 0 <= i < old.drop_last().len() implies new.contains(
            #[trigger] old.drop_last()[i],
        ) by {
            assert(old.drop_last()[i] == old[i]);
        }
        lemma_gone_empty_when_kept(old.drop_last(), new);
        assert(new.contains(old[old.len() - 1]));
    }
}

proof fn lemma_arrived_empty_when_known(old: Seq<Seq<char>>, new: Seq<Seq<char>>)
    requires
        forall|i: int| 0 <= i < new.len() ==> old.contains(#[trigger] new[i]),
    ensures
        arrived_ids(old, new).len() == 0,
    decreases new.len(),
{
    if new.len() > 0 {
        assert forall|i: int| 0 <= i < new.drop_last().len() implies old.contains(
            #[trigger] new.drop_last()[i],
        ) by {
            assert(new.drop_last()[i] == new[i]);
        }
        lemma_arrived_empty_when_known(old, new.drop_last());
        assert(old.contains(new[new.len() - 1]));
    }
}

/// A rescan that finds exactly the devices already known raises no event.
pub proof fn lemma_unchanged_devices_raise_no_events(ids: Seq<Seq<char>>)
    ensures
        rescan_events(ids, ids).len() == 0,
{
    assert forall|i: int| 0 <= i < ids.len() implies ids.contains(#[trigger] ids[i]) by {}
    lemma_gone_empty_when_kept(ids, ids);
    lemma_arrived_empty_when_known(ids, ids);
}

proof fn lemma_gone_members(old: Seq<Seq<char>>, new: Seq<Seq<char>>, k: int)
    requires
        0 <= k < gone_ids(old, new).len(),
    ensures
        !gone_ids(old, new)[k].0,
        old.contains(gone_ids(old, new)[k].1),
        !new.contains(gone_ids(old, new)[k].1),
    decreases old.len(),
{
    let prev = gone_ids(old.drop_last(), new);
    if k < prev.len() {
        lemma_gone_members(old.drop_last(), new, k);
        let id = prev[k].1;
        let w = choose|w: int| 0 <= w < old.drop_last().len() && old.drop_last()[w] == id;
        assert(old[w] == id);
    } else {
        assert(old[old.len() - 1] == old.last());
    }
}

proof fn lemma_arrived_members(old: Seq<Seq<char>>, new: Seq<Seq<char>>, k: int)
    requires
        0 <= k < arrived_ids(old, new).len(),
    ensures
        arrived_ids(old, new)[k].0,
        new.contains(arrived_ids(old, new)[k].1),
        !old.contains(arrived_ids(old, new)[k].1),
    decreases new.len(),
{
    let prev = arrived_ids(old, new.drop_last());
    if k < prev.len() {
        lemma_arrived_members(old, new.drop_last(), k);
        let id = prev[k].1;
        let w = choose|w: int| 0 <= w < new.drop_last().len() && new.drop_last()[w] == id;
        assert(new[w] == id);
    } else {
        assert(new[new.len() - 1] == new.last());
    }
}

/// Every event of a rescan is about a device that changed: a disconnected id
/// was known and is no longer found, a connected id is found and was not
/// known.
pub proof fn lemma_events_are_changes(old: Seq<Seq<char>>, new: Seq<Seq<char>>, k: int)
    requires
        0 <= k < rescan_events(old, new).len(),
    ensures
        !rescan_events(old, new)[k].0 ==> old.contains(rescan_events(old, new)[k].1) && !new.contains(
            rescan_events(old, new)[k].1,
        ),
        rescan_events(old, new)[k].0 ==> new.contains(rescan_events(old, new)[k].1)
            && !old.contains(rescan_events(old, new)[k].1),
{
    let g = gone_ids(old, new);
    if k < g.len() {
        lemma_gone_members(old, new, k);
    } else {
        lemma_arrived_members(old, new, k - g.len());
    }
}

proof fn lemma_gone_complete(old: Seq<Seq<char>>, new: Seq<Seq<char>>, id: Seq<char>)
    requires
        old.contains(id),
        !new.contains(id),
    ensures
        gone_ids(old, new).contains((false, id)),
    decreases old.len(),
{
    let prev = gone_ids(old.drop_last(), new);
    if old.last() == id {
        let g = gone_ids(old, new);
        assert(g[g.len() - 1] == (false, id));
    } else {
        let w = choose|w: int| 0 <= w < old.len() && old[w] == id;
        assert(old.drop_last()[w] == id);
        lemma_gone_complete(old.drop_last(), new, id);
        let j = choose|j: int| 0 <= j < prev.len() && prev[j] == (false, id);
        assert(gone_ids(old, new)[j] == (false, id));
    }
}

proof fn lemma_arrived_complete(old: Seq<Seq<char>>, new: Seq<Seq<char>>, id: Seq<char>)
    requires
        new.contains(id),
        !old.contains(id),
    ensures
        arrived_ids(old, new).contains((true, id)),
    decreases new.len(),
{
    let prev = arrived_ids(old, new.drop_last());
    if new.last() == id {
        let a = arrived_ids(old, new);
        assert(a[a.len() - 1] == (true, id));
    } else {
        let w = choose|w: int| 0 <= w < new.len() && new[w] == id;
        assert(new.drop_last()[w] == id);
        lemma_arrived_complete(old, new.drop_last(), id);
        let j = choose|j: int| 0 <= j < prev.len() && prev[j] == (true, id);
        assert(arrived_ids(old, new)[j] == (true, id));
    }
}

/// No change goes unreported: every known id that a rescan no longer finds
/// has a `Disconnected` event, and every found id that was not known has a
/// `Connected` event.
pub proof fn lemma_every_change_is_reported(old: Seq<Seq<char>>, new: Seq<Seq<char>>, id: Seq<char>)
    ensures
        old.contains(id) && !new.contains(id) ==> rescan_events(old, new).contains((false, id)),
        new.contains(id) && !old.contains(id) ==> rescan_events(old, new).contains((true, id)),
{
    let g = gone_ids(old, new);
    let a = arrived_ids(old, new);
    if old.contains(id) && !new.contains(id) {
        lemma_gone_complete(old, new, id);
        let j = choose|j: int| 0 <= j < g.len() && g[j] == (false, id);
        assert((g + a)[j] == (false, id));
    }
    if new.contains(id) && !old.contains(id) {
        lemma_arrived_complete(old, new, id);
        let j = choose|j: int| 0 <= j < a.len() && a[j] == (true, id);
        assert((g + a)[g.len() + j] == (true, id));
    }
}

/// The events of a rescan are, first, a disconnection for each known id
/// that the rescan no longer finds, in the order they were known, then a
/// connection for each found id that was not known, in the order they were
/// found.
pub proof fn lemma_events_are_the_missing_ids(old: Seq<Seq<char>>, new: Seq<Seq<char>>)
    ensures
        gone_ids(old, new) == old.filter(|x: Seq<char>| !new.contains(x)).map_values(
            |x: Seq<char>| (false, x),
        ),
        arrived_ids(old, new) == new.filter(|x: Seq<char>| !old.contains(x)).map_values(
            |x: Seq<char>| (true, x),
        ),
        rescan_events(old, new) == old.filter(|x: Seq<char>| !new.contains(x)).map_values(
            |x: Seq<char>| (false, x),
        ) + new.filter(|x: Seq<char>| !old.contains(x)).map_values(|x: Seq<char>| (true, x)),
{
    lemma_gone_filter(old, new);
    lemma_arrived_filter(old, new);
}

proof fn lemma_gone_filter(old: Seq<Seq<char>>, new: Seq<Seq<char>>)
    ensures
        gone_ids(old, new) == old.filter(|x: Seq<char>| !new.contains(x)).map_values(
            |x: Seq<char>| (false, x),
        ),
    decreases old.len(),
{
    reveal(Seq::filter);
    let pg = |x: Seq<char>| !new.contains(x);
    if old.len() == 0 {
        assert(old.filter(pg) =~= Seq::<Seq<char>>::empty());
        assert(gone_ids(old, new) =~= old.filter(pg).map_values(|x: Seq<char>| (false, x)));
    } else {
        lemma_gone_filter(old.drop_last(), new);
        let sub = old.drop_last().filter(pg);
        assert(old.filter(pg) == if pg(old.last()) {
            sub.push(old.last())
        } else {
            sub
        });
        if pg(old.last()) {
            assert(sub.push(old.last()).map_values(|x: Seq<char>| (false, x)) =~= sub.map_values(
                |x: Seq<char>| (false, x),
            ).push((false, old.last())));
        }
    }
}

proof fn lemma_arrived_filter(old: Seq<Seq<char>>, new: Seq<Seq<char>>)
    ensures
        arrived_ids(old, new) == new.filter(|x: Seq<char>| !old.contains(x)).map_values(
            |x: Seq<char>| (true, x),
        ),
    decreases new.len(),
{
    reveal(Seq::filter);
    let pa = |x: Seq<char>| !old.contains(x);
    if new.len() == 0 {
        assert(new.filter(pa) =~= Seq::<Seq<char>>::empty());
        assert(arrived_ids(old, new) =~= new.filter(pa).map_values(|x: Seq<char>| (true, x)));
    } else {
        lemma_arrived_filter(old, new.drop_last());
        let sub = new.drop_last().filter(pa);
        assert(new.filter(pa) == if pa(new.last()) {
            sub.push(new.last())
        } else {
            sub
        });
        if pa(new.last()) {
            assert(sub.push(new.last()).map_values(|x: Seq<char>| (true, x)) =~= sub.map_values(
                |x: Seq<char>| (true, x),
            ).push((true, new.last())));
        }
    }
}

/// How a request to start monitoring is to be carried out.
#[derive(Debug, Clone, Copy, PartialEq, Eq, Structural)]
pub enum MonitorStart {
    /// Monitoring already runs; nothing is to be done.
    AlreadyRunning,
    /// Scan the devices once, then poll for changes; monitoring runs once
    /// the first scan succeeded.
    Begin,
}

/// The text of the error when monitoring cannot run on a platform.
pub open spec fn monitoring_unsupported_text() -> Seq<char> {
    "Device monitoring not supported on this platform"@
}

/// Whether device monitoring runs, on a given platform.
pub struct MonitorSwitch {
    platform: Platform,
    monitoring: bool,
}

impl MonitorSwitch {
    /// The platform monitored.
    pub closed spec fn spec_platform(&self) -> Platform {
        self.platform
    }

    /// Whether monitoring runs.
    pub closed spec fn spec_monitoring(&self) -> bool {
        self.monitoring
    }

    /// A monitor for `platform` that does not run yet.
    pub fn new(platform: Platform) -> (m: Self)
        ensures
            m.spec_platform() == platform,
            !m.spec_monitoring(),
    {
        MonitorSwitch { platform, monitoring: false }
    }

    /// Whether monitoring runs.
    pub fn is_monitoring(&self) -> (b: bool)
        ensures
            b == self.spec_monitoring(),
    {
        self.monitoring
    }

    /// Decide how to start monitoring: nothing to do when it runs already;
    /// an initialization error on an unknown platform; otherwise begin.
    pub fn start(&self) -> (r: Result<MonitorStart, CameraError>)
        ensures
            self.spec_monitoring() ==> r == Ok::<MonitorStart, CameraError>(
                MonitorStart::AlreadyRunning,
            ),
            !self.spec_monitoring() && self.spec_platform() == Platform::Unknown ==> (r matches Err(
                CameraError::InitializationError(m),
            ) && m@ == monitoring_unsupported_text()),
            !self.spec_monitoring() && self.spec_platform() != Platform::Unknown ==> r
                == Ok::<MonitorStart, CameraError>(MonitorStart::Begin),
    {
        if self.monitoring {
            Ok(MonitorStart::AlreadyRunning)
        } else if self.platform == Platform::Unknown {
            Err(
                CameraError::InitializationError(
                    "Device monitoring not supported on this platform".to_string(),
                ),
            )
        } else {
            Ok(MonitorStart::Begin)
        }
    }

    /// Record that the first scan succeeded: monitoring runs.
    pub fn mark_started(&mut self)
        ensures
            final(self).spec_monitoring(),
            final(self).spec_platform() == old(self).spec_platform(),
    {
        self.monitoring = true;
    }

    /// Stop monitoring for device changes; stopping a monitor that does not
    /// run is no error.
    pub fn stop(&mut self) -> (r: Result<(), CameraError>)
        ensures
            r is Ok,
            !final(self).spec_monitoring(),
            final(self).spec_platform() == old(self).spec_platform(),
    {
        self.monitoring = false;
        Ok(())
    }
}

/// The IDs of found devices, in order.
pub open spec fn found_ids<T>(found: Seq<(String, T)>) -> Seq<Seq<char>> {
    found.map_values(|e: (String, T)| e.0@)
}

/// Take in the result of a device scan: the events it raises (see
/// [`device_events`]) for the devices known before, in the table's order,
/// and the devices found; the known devices become exactly those found.
pub fn rescan_devices<T>(known: &mut DeviceTable<T>, found: Vec<(String, T)>) -> (events: Vec<
    DeviceEvent,
>)
    requires
        old(known).wf(),
    ensures
        final(known).wf(),
        final(known).map() == entries_map(found@),
        events@.len() == rescan_events(old(known).ids_in_order(), found_ids(found@)).len(),
        forall|i: int|
            0 <= i < events@.len() ==> event_is(
                #[trigger] events@[i],
                rescan_events(old(known).ids_in_order(), found_ids(found@))[i],
            ),
{
    let old_ids = known.ids();
    let mut new_ids: Vec<String> = Vec::new();
    let mut i: usize = 0;
    while i < found.len()
        invariant
            i <= found@.len(),
            new_ids@.len() == i,
            forall|j: int| 0 <= j < i ==> (#[trigger] new_ids@[j])@ == found@[j].0@,
        decreases found@.len() - i,
    {
        let id = found[i].0.clone();
        new_ids.push(id);
        i += 1;
    }
    assert(id_views(new_ids@) =~= found_ids(found@));
    assert(id_views(old_ids@) =~= old(known).ids_in_order());
    let events = device_events(&old_ids, &new_ids);
    known.replace_all(found);
    events
}

/// After a rescan that found devices with distinct IDs, the known devices are
/// exactly those found: each found ID is known, with the device found for
/// it, and no other ID is known.
pub proof fn lemma_rescan_knows_exactly_the_found<T>(found: Seq<(String, T)>)
    requires
        forall|i: int, j: int| 0 <= i < j < found.len() ==> found[i].0@ != found[j].0@,
    ensures
        forall|i: int|
            0 <= i < found.len() ==> #[trigger] entries_map(found).contains_key(found[i].0@)
                && entries_map(found)[found[i].0@] == found[i].1,
        forall|id: Seq<char>| #[trigger] entries_map(found).contains_key(id) ==> found_ids(found).contains(
            id,
        ),
    decreases found.len(),
{
    if found.len() > 0 {
        let init = found.drop_last();
        lemma_rescan_knows_exactly_the_found(init);
        let m = entries_map(found);
        assert(m == entries_map(init).insert(found.last().0@, found.last().1));
        assert forall|i: int| 0 <= i < found.len() implies #[trigger] m.contains_key(found[i].0@)
            && m[found[i].0@] == found[i].1 by {
            if i < found.len() - 1 {
                assert(init[i] == found[i]);
                assert(entries_map(init).contains_key(init[i].0@));
                assert(found[i].0@ != found[found.len() - 1].0@);
            }
        }
        assert forall|id: Seq<char>| #[trigger] m.contains_key(id) implies found_ids(found).contains(
            id,
        ) by {
            if id == found.last().0@ {
                assert(found_ids(found)[found.len() - 1] == id);
            } else {
                assert(entries_map(init).contains_key(id));
                let j = choose|j: int| 0 <= j < found_ids(init).len() && found_ids(init)[j] == id;
                assert(found_ids(found)[j] == id);
            }
        }
    }
}

/// Whether the camera at position `i` is the first of its name.
pub open spec fn first_of_its_name(names: Seq<Seq<char>>, i: int) -> bool {
    forall|j: int| 0 <= j < i ==> names[j] != names[i]
}

/// The positions, among the first `n`, of the cameras that are the first of
/// their name, in order.
pub open spec fn first_of_each_name(names: Seq<Seq<char>>, n: int) -> Seq<int>
    decreases n,
{
    if n <= 0 {
        seq![]
    } else if first_of_its_name(names, n - 1) {
        first_of_each_name(names, n - 1).push(n - 1)
    } else {
        first_of_each_name(names, n - 1)
    }
}

/// The text of the error when no backend found a camera.
pub open spec fn no_cameras_text() -> Seq<char> {
    "No cameras found on any backend"@
}

/// Merge the cameras the backends found, listed one backend after another
/// by name: a camera is kept unless an earlier one has the same name, so
/// that a camera two backends see is listed once. Finding none is an
/// initialization error. The result holds the positions of the cameras
/// kept, in order.
pub fn distinct_cameras(names: &Vec<String>) -> (r: Result<Vec<usize>, CameraError>)
    ensures
        r is Err <==> names@.len() == 0,
        r matches Err(e) ==> (e matches CameraError::InitializationError(m) && m@
            == no_cameras_text()),
        r matches Ok(v) ==> v@.len() == first_of_each_name(id_views(names@), names@.len() as int).len()
            && forall|k: int|
            0 <= k < v@.len() ==> v@[k] as int == #[trigger] first_of_each_name(
                id_views(names@),
                names@.len() as int,
            )[k],
{
    if names.len() == 0 {
        return Err(CameraError::InitializationError("No cameras found on any backend".to_string()));
    }
    let ghost ns = id_views(names@);
    let mut kept: Vec<usize> = Vec::new();
    let mut i: usize = 0;
    while i < names.len()
        invariant
            i <= names@.len(),
            ns == id_views(names@),
            kept@.len() == first_of_each_name(ns, i as int).len(),
            forall|k: int|
                0 <= k < kept@.len() ==> kept@[k] as int == #[trigger] first_of_each_name(
                    ns,
                    i as int,
                )[k],
        decreases names@.len() - i,
    {
        let mut j: usize = 0;
        let mut seen = false;
        while j < i
            invariant
                j <= i < names@.len(),
                ns == id_views(names@),
                seen <==> exists|m: int| 0 <= m < j && ns[m] == ns[i as int],
            decreases i - j,
        {
            if names[j] == names[i] {
                assert(ns[j as int] == ns[i as int]);
                seen = true;
            }
            j += 1;
        }
        let ghost before = kept@;
        if !seen {
            kept.push(i);
        }
        assert forall|k: int| 0 <= k < kept@.len() implies kept@[k] as int
            == #[trigger] first_of_each_name(ns, i + 1)[k] by {
            if k < before.len() {
                assert(kept@[k] == before[k]);
            }
        }
        i += 1;
    }
    Ok(kept)
}

} // verus!
