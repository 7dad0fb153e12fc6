//! The engine as a mathematical model: its state as plain values, what each
//! operation makes of it, and the laws that hold of every run.

use crate::command::{advanced, counter_after_step, request_at_step};
use crate::decode::{calibration_after, init_state_after, snapshot_after};
use crate::gamepad::{GamepadContext, GamepadView};
use vstd::prelude::*;

verus! {

/// A registry entry as plain values.
pub struct DeviceRecord {
    pub serial: Seq<char>,
    pub index: usize,
    pub context: GamepadContext,
}

/// The state of an engine as plain values: the registry in the order in
/// which the devices were first seen, the next index to hand out, and the
/// rolling subcommand counter.
pub struct ApiView {
    pub devices: Seq<DeviceRecord>,
    pub next_index: usize,
    pub report_counter: u8,
}

/// The predicate that holds of the registry entries whose serial is in
/// `live`.
pub open spec fn is_live(live: Set<Seq<char>>) -> spec_fn(DeviceRecord) -> bool {
    |device: DeviceRecord| live.contains(device.serial)
}

/// One report as plain values.
pub struct ReportView {
    pub serial: Seq<char>,
    pub data: Seq<u8>,
}

/// The outcome of handling one report as plain values.
pub struct DevicePollView {
    pub gamepad: GamepadView,
    pub request: Option<Seq<u8>>,
}

/// The serial numbers of the reports of one sweep, in order.
pub open spec fn serials(reports: Seq<ReportView>) -> Seq<Seq<char>> {
    Seq::new(reports.len(), |i: int| reports[i].serial)
}

/// No serial occurs twice in `devices`, the indices grow along it, and all
/// of them lie below `next_index`.
pub open spec fn ordered(devices: Seq<DeviceRecord>, next_index: usize) -> bool {
    &&& forall|i: int, j: int|
        0 <= i < j < devices.len() ==> (#[trigger] devices[i]).serial != (
        #[trigger] devices[j]).serial
    &&& forall|i: int, j: int|
        0 <= i < j < devices.len() ==> (#[trigger] devices[i]).index < (
        #[trigger] devices[j]).index
    &&& forall|i: int| 0 <= i < devices.len() ==> (#[trigger] devices[i]).index < next_index
}

/// Something that happens to an engine.
pub enum ApiEvent {
    /// One report of one device is handled.
    Poll { serial: Seq<char>, report: Seq<u8> },
    /// Every device whose serial is not in `live` is evicted.
    Evict { live: Set<Seq<char>> },
    /// A whole sweep is handled.
    Sweep { reports: Seq<ReportView> },
}

impl ApiView {
    /// The state of an engine that has seen no device.
    pub open spec fn empty() -> ApiView {
        ApiView { devices: Seq::empty(), next_index: 0, report_counter: 0 }
    }

    /// No serial is registered twice, the indices grow in the order of
    /// registration, and every index in use lies below the next one to be
    /// handed out.
    pub open spec fn wf(self) -> bool {
        ordered(self.devices, self.next_index)
    }

    /// Whether `serial` is registered.
    pub open spec fn knows(self, serial: Seq<char>) -> bool {
        exists|i: int| 0 <= i < self.devices.len() && (#[trigger] self.devices[i]).serial == serial
    }

    /// The place of `serial` in the registry, for a registered serial.
    pub open spec fn position(self, serial: Seq<char>) -> int {
        choose|i: int| 0 <= i < self.devices.len() && (#[trigger] self.devices[i]).serial == serial
    }

    /// The registry entry of `serial`, for a registered serial.
    pub open spec fn record(self, serial: Seq<char>) -> DeviceRecord {
        self.devices[self.position(serial)]
    }

    /// Whether `serial` can be polled: it is registered already, or an index
    /// is left to register it under.
    pub open spec fn can_register(self, serial: Seq<char>) -> bool {
        self.knows(serial) || self.next_index < usize::MAX
    }

    /// The state after `serial` has been seen: unchanged for a registered
    /// serial; for a new one, registered last, under the next index and with
    /// a fresh context.
    pub open spec fn register(self, serial: Seq<char>) -> ApiView {
        if self.knows(serial) {
            self
        } else {
            ApiView {
                devices: self.devices.push(
                    DeviceRecord {
                        serial,
                        index: self.next_index,
                        context: GamepadContext::fresh(),
                    },
                ),
                next_index: (self.next_index + 1) as usize,
                report_counter: self.report_counter,
            }
        }
    }

    /// The state after one report of `serial` has been handled: the device
    /// is registered if it was not, the report is decoded into its
    /// calibration and initialisation state, and the initialisation takes
    /// its step, which advances the counter where it sends a request.
    pub open spec fn poll(self, serial: Seq<char>, report: Seq<u8>) -> ApiView {
        let seen = self.register(serial);
        let at = seen.position(serial);
        let before = seen.devices[at];
        let answered = init_state_after(report, before.context.init_state);
        let after = DeviceRecord {
            serial: before.serial,
            index: before.index,
            context: GamepadContext {
                cal_data: calibration_after(report, before.context.cal_data),
                init_state: advanced(answered),
            },
        };
        ApiView {
            devices: seen.devices.update(at, after),
            next_index: seen.next_index,
            report_counter: counter_after_step(self.report_counter, answered),
        }
    }

    /// The snapshot that handling one report of `serial` gives: decoded from
    /// the report under the calibration that the device had before the
    /// report, and idle where the report carries no controller state.
    pub open spec fn poll_snapshot(self, serial: Seq<char>, report: Seq<u8>) -> GamepadView {
        let before = self.register(serial).record(serial);
        snapshot_after(report, before.context.cal_data, GamepadView::idle(before.index))
    }

    /// The bytes to write to the device after one report of `serial` has
    /// been handled, if any.
    pub open spec fn poll_request(self, serial: Seq<char>, report: Seq<u8>) -> Option<Seq<u8>> {
        let before = self.register(serial).record(serial);
        request_at_step(self.report_counter, init_state_after(report, before.context.init_state))
    }

    /// The state after every device whose serial is not in `live` has been
    /// evicted.
    pub open spec fn retain(self, live: Set<Seq<char>>) -> ApiView {
        ApiView {
            devices: self.devices.filter(is_live(live)),
            next_index: self.next_index,
            report_counter: self.report_counter,
        }
    }

    /// How many of the reports come from a newcomer: a device that is not
    /// registered and that no earlier report of the sweep names.
    pub open spec fn newcomers(self, reports: Seq<ReportView>) -> nat
        decreases reports.len(),
    {
        if reports.len() == 0 {
            0
        } else {
            let earlier = reports.drop_last();
            let serial = reports.last().serial;
            if self.knows(serial) || serials(earlier).contains(serial) {
                self.newcomers(earlier)
            } else {
                self.newcomers(earlier) + 1
            }
        }
    }

    /// Whether a sweep can be handled: an index is left for every newcomer
    /// among its reports.
    pub open spec fn can_sweep(self, reports: Seq<ReportView>) -> bool {
        self.next_index + self.newcomers(reports) <= usize::MAX
    }

    /// The state after the reports have been handled one after the other.
    pub open spec fn poll_all(self, reports: Seq<ReportView>) -> ApiView
        decreases reports.len(),
    {
        if reports.len() == 0 {
            self
        } else {
            self.poll_all(reports.drop_last()).poll(reports.last().serial, reports.last().data)
        }
    }

    /// The state after a sweep: the reports are handled in order, then every
    /// device that sent none is evicted.
    pub open spec fn sweep(self, reports: Seq<ReportView>) -> ApiView {
        self.poll_all(reports).retain(serials(reports).to_set())
    }

    /// What a sweep hands back: for each report, in order, the snapshot and
    /// the request that handling it gives in the state that the reports
    /// before it have left.
    pub open spec fn sweep_outcome(self, reports: Seq<ReportView>) -> Seq<DevicePollView> {
        Seq::new(
            reports.len(),
            |i: int|
                {
                    let state = self.poll_all(reports.take(i));
                    DevicePollView {
                        gamepad: state.poll_snapshot(reports[i].serial, reports[i].data),
                        request: state.poll_request(reports[i].serial, reports[i].data),
                    }
                },
        )
    }

    /// The state after one event. A report or a sweep that the engine
    /// refuses leaves the state as it was.
    pub open spec fn step(self, event: ApiEvent) -> ApiView {
        match event {
            ApiEvent::Poll { serial, report } => if self.can_register(serial) {
                self.poll(serial, report)
            } else {
                self
            },
            ApiEvent::Evict { live } => self.retain(live),
            ApiEvent::Sweep { reports } => if self.can_sweep(reports) {
                self.sweep(reports)
            } else {
                self
            },
        }
    }

    /// The state after a run of events.
    pub open spec fn run(self, events: Seq<ApiEvent>) -> ApiView
        decreases events.len(),
    {
        if events.len() == 0 {
            self
        } else {
            self.run(events.drop_last()).step(events.last())
        }
    }
}

/// In a well-formed registry a serial has one place only.
pub proof fn lemma_position_is_unique(state: ApiView, serial: Seq<char>, at: int)
    requires
        state.wf(),
        0 <= at < state.devices.len(),
        state.devices[at].serial == serial,
    ensures
        state.knows(serial),
        state.position(serial) == at,
        state.record(serial) == state.devices[at],
{
}

/// Seeing a serial keeps the registry well formed and never lowers the next
/// index. Afterwards the serial is registered; a serial that was new stands
/// last, under the index that was next.
pub proof fn lemma_register(state: ApiView, serial: Seq<char>)
    requires
        state.wf(),
        state.can_register(serial),
    ensures
        state.register(serial).wf(),
        state.register(serial).knows(serial),
        state.register(serial).next_index >= state.next_index,
        state.register(serial).next_index <= state.next_index + 1,
        state.knows(serial) ==> state.register(serial) == state,
        !state.knows(serial) ==> {
            &&& state.register(serial).position(serial) == state.devices.len()
            &&& state.register(serial).record(serial).index == state.next_index
            &&& state.register(serial).record(serial).context == GamepadContext::fresh()
            &&& state.register(serial).next_index == state.next_index + 1
        },
{
    if !state.knows(serial) {
        lemma_position_is_unique(state.register(serial), serial, state.devices.len() as int);
    }
}

/// Handling a report keeps the registry well formed, keeps the serial and
/// the index of every entry, and never lowers the next index.
pub proof fn lemma_poll(state: ApiView, serial: Seq<char>, report: Seq<u8>)
    requires
        state.wf(),
        state.can_register(serial),
    ensures
        state.poll(serial, report).wf(),
        state.poll(serial, report).knows(serial),
        state.poll(serial, report).next_index == state.register(serial).next_index,
        state.poll(serial, report).devices.len() == state.register(serial).devices.len(),
        forall|i: int|
            0 <= i < state.register(serial).devices.len() ==> {
                &&& (#[trigger] state.poll(serial, report).devices[i]).serial == state.register(
                    serial,
                ).devices[i].serial
                &&& state.poll(serial, report).devices[i].index == state.register(
                    serial,
                ).devices[i].index
            },
        state.poll(serial, report).record(serial).index == state.register(serial).record(
            serial,
        ).index,
{
    lemma_register(state, serial);
    let at = state.register(serial).position(serial);
    lemma_position_is_unique(state.poll(serial, report), serial, at);
}

/// A filter keeps the last entry if the predicate holds of it, and filters
/// what stands before it.
pub proof fn lemma_filter_last(devices: Seq<DeviceRecord>, pred: spec_fn(DeviceRecord) -> bool)
    ensures
        devices.len() == 0 ==> devices.filter(pred) == Seq::<DeviceRecord>::empty(),
        devices.len() > 0 && pred(devices.last()) ==> devices.filter(pred)
            == devices.drop_last().filter(pred).push(devices.last()),
        devices.len() > 0 && !pred(devices.last()) ==> devices.filter(pred)
            == devices.drop_last().filter(pred),
{
    reveal(Seq::filter);
}

/// Evicting from an ordered registry leaves an ordered registry, each of
/// whose entries was there before.
pub proof fn lemma_filter_ordered(devices: Seq<DeviceRecord>, next_index: usize, live: Set<Seq<char>>)
    requires
        ordered(devices, next_index),
    ensures
        ordered(devices.filter(is_live(live)), next_index),
        forall|k: int|
            0 <= k < devices.filter(is_live(live)).len() ==> {
                &&& live.contains((#[trigger] devices.filter(is_live(live))[k]).serial)
                &&& devices.contains(devices.filter(is_live(live))[k])
            },
        forall|i: int|
            0 <= i < devices.len() && live.contains((#[trigger] devices[i]).serial)
                ==> devices.filter(is_live(live)).contains(devices[i]),
    decreases devices.len(),
{
    lemma_filter_last(devices, is_live(live));
    if devices.len() > 0 {
        lemma_filter_ordered(devices.drop_last(), next_index, live);
    }
}

/// Eviction keeps the registry well formed and the next index as it was.
/// What stays registered is exactly what was registered and is live, each
/// with the entry it had.
pub proof fn lemma_retain(state: ApiView, live: Set<Seq<char>>)
    requires
        state.wf(),
    ensures
        state.retain(live).wf(),
        state.retain(live).next_index == state.next_index,
        state.retain(live).report_counter == state.report_counter,
        forall|serial: Seq<char>| #[trigger]
            state.retain(live).knows(serial) <==> state.knows(serial) && live.contains(serial),
        forall|serial: Seq<char>| #[trigger]
            state.retain(live).knows(serial) ==> state.retain(live).record(serial) == state.record(
                serial,
            ),
{
    let after = state.retain(live);
    lemma_filter_ordered(state.devices, state.next_index, live);
    assert forall|serial: Seq<char>| #[trigger]
        after.knows(serial) implies state.knows(serial) && live.contains(serial) && after.record(
        serial,
    ) == state.record(serial) by {
        let k = after.position(serial);
        let i = choose|i: int| 0 <= i < state.devices.len() && state.devices[i] == after.devices[k];
        lemma_position_is_unique(state, serial, i);
    }
}

/// A sweep has at most as many newcomers as reports, and a part of a sweep
/// has no more newcomers than the whole.
pub proof fn lemma_newcomers_grow(state: ApiView, reports: Seq<ReportView>, count: int)
    requires
        0 <= count <= reports.len(),
    ensures
        state.newcomers(reports.take(count)) <= state.newcomers(reports) <= reports.len(),
    decreases reports.len(),
{
    if reports.len() > 0 {
        let earlier = reports.drop_last();
        if count == reports.len() {
            assert(reports.take(count) =~= reports);
            lemma_newcomers_grow(state, earlier, count - 1);
        } else {
            assert(earlier.take(count) =~= reports.take(count));
            lemma_newcomers_grow(state, earlier, count);
        }
    }
}

/// Handling the reports of a sweep one after the other keeps the registry
/// well formed. Afterwards a device is registered exactly if it was before or
/// sent one of the reports, every device that was registered has the index it
/// had, and the next index has grown by the number of newcomers.
pub proof fn lemma_poll_all(state: ApiView, reports: Seq<ReportView>)
    requires
        state.wf(),
        state.can_sweep(reports),
    ensures
        state.poll_all(reports).wf(),
        state.poll_all(reports).next_index == state.next_index + state.newcomers(reports),
        forall|serial: Seq<char>| #[trigger]
            state.poll_all(reports).knows(serial) <==> state.knows(serial) || serials(
                reports,
            ).contains(serial),
        forall|serial: Seq<char>|
            state.knows(serial) ==> #[trigger] state.poll_all(reports).knows(serial)
                && state.poll_all(reports).record(serial).index == state.record(serial).index,
        reports.len() > 0 ==> state.poll_all(reports.drop_last()).wf() && state.poll_all(
            reports.drop_last(),
        ).can_register(reports.last().serial),
    decreases reports.len(),
{
    if reports.len() > 0 {
        let earlier = reports.drop_last();
        let last = reports.last();
        lemma_poll_all(state, earlier);
        let mid = state.poll_all(earlier);
        lemma_poll_keeps(mid, last.serial, last.data);
        lemma_poll_knows(mid, last.serial, last.data);
        lemma_register(mid, last.serial);
        assert forall|serial: Seq<char>| #[trigger]
            state.poll_all(reports).knows(serial) <==> state.knows(serial) || serials(
                reports,
            ).contains(serial) by {
            if serials(reports).contains(serial) {
                let i = choose|i: int|
                    0 <= i < serials(reports).len() && serials(reports)[i] == serial;
                if i < earlier.len() {
                    assert(serials(earlier)[i] == serial);
                }
            }
            if serials(earlier).contains(serial) {
                let i = choose|i: int|
                    0 <= i < serials(earlier).len() && serials(earlier)[i] == serial;
                assert(serials(reports)[i] == serial);
            }
            assert(serials(reports)[reports.len() - 1] == last.serial);
        }
    }
}

/// After a report has been handled, the registered devices are those that
/// were registered and the one that sent the report.
pub proof fn lemma_poll_knows(state: ApiView, serial: Seq<char>, report: Seq<u8>)
    requires
        state.wf(),
        state.can_register(serial),
    ensures
        forall|other: Seq<char>| #[trigger]
            state.poll(serial, report).knows(other) <==> state.knows(other) || other == serial,
{
    lemma_register(state, serial);
    lemma_poll(state, serial, report);
    lemma_poll_keeps(state, serial, report);
}

/// A sweep is refused only where it has to be: if every report, as its turn
/// comes, can be handled, then the sweep can be handled.
pub proof fn lemma_sweep_is_owed(state: ApiView, reports: Seq<ReportView>)
    requires
        state.wf(),
        forall|i: int|
            0 <= i < reports.len() ==> state.poll_all(#[trigger] reports.take(i)).can_register(
                reports[i].serial,
            ),
    ensures
        state.can_sweep(reports),
    decreases reports.len(),
{
    if reports.len() > 0 {
        let earlier = reports.drop_last();
        assert forall|i: int| 0 <= i < earlier.len() implies state.poll_all(
            #[trigger] earlier.take(i),
        ).can_register(earlier[i].serial) by {
            assert(earlier.take(i) =~= reports.take(i));
        }
        lemma_sweep_is_owed(state, earlier);
        lemma_poll_all(state, earlier);
    }
}

/// Handling a report keeps every device registered that was, under the
/// index it had.
pub proof fn lemma_poll_keeps(state: ApiView, serial: Seq<char>, report: Seq<u8>)
    requires
        state.wf(),
        state.can_register(serial),
    ensures
        state.poll(serial, report).wf(),
        state.poll(serial, report).knows(serial),
        state.next_index <= state.poll(serial, report).next_index <= state.next_index + 1,
        forall|other: Seq<char>|
            state.knows(other) ==> #[trigger] state.poll(serial, report).knows(other)
                && state.poll(serial, report).record(other).index == state.record(other).index,
{
    lemma_register(state, serial);
    lemma_poll(state, serial, report);
    let polled = state.poll(serial, report);
    assert forall|other: Seq<char>| state.knows(other) implies #[trigger] polled.knows(other)
        && polled.record(other).index == state.record(other).index by {
        let i = state.position(other);
        lemma_position_is_unique(state, other, i);
        lemma_position_is_unique(polled, other, i);
    }
}

/// After a sweep the registry is well formed and holds exactly the devices
/// that sent a report in it. A device that was registered before and still is
/// has the index it had, and the next index was not lowered.
pub proof fn lemma_sweep(state: ApiView, reports: Seq<ReportView>)
    requires
        state.wf(),
        state.can_sweep(reports),
    ensures
        state.sweep(reports).wf(),
        state.sweep(reports).next_index == state.next_index + state.newcomers(reports),
        forall|serial: Seq<char>| #[trigger]
            state.sweep(reports).knows(serial) <==> serials(reports).contains(serial),
        forall|serial: Seq<char>|
            state.knows(serial) && #[trigger] state.sweep(reports).knows(serial) ==> state.sweep(
                reports,
            ).record(serial).index == state.record(serial).index,
{
    lemma_poll_all(state, reports);
    lemma_retain(state.poll_all(reports), serials(reports).to_set());
}

/// Whatever happens to an engine, its registry stays well formed and its
/// next index is never lowered.
pub proof fn lemma_run(state: ApiView, events: Seq<ApiEvent>)
    requires
        state.wf(),
    ensures
        state.run(events).wf(),
        state.run(events).next_index >= state.next_index,
    decreases events.len(),
{
    if events.len() > 0 {
        lemma_run(state, events.drop_last());
        let mid = state.run(events.drop_last());
        match events.last() {
            ApiEvent::Poll { serial, report } => {
                if mid.can_register(serial) {
                    lemma_poll_keeps(mid, serial, report);
                }
            },
            ApiEvent::Evict { live } => {
                lemma_retain(mid, live);
            },
            ApiEvent::Sweep { reports } => {
                if mid.can_sweep(reports) {
                    lemma_sweep(mid, reports);
                }
            },
        }
    }
}

/// Devices with different serial numbers have different indices.
pub proof fn lemma_indices_are_unique(state: ApiView, first: Seq<char>, second: Seq<char>)
    requires
        state.wf(),
        state.knows(first),
        state.knows(second),
        first != second,
    ensures
        state.record(first).index != state.record(second).index,
{
}

/// A device that is registered for the first time gets the index that was
/// next, which is larger than every index in use.
pub proof fn lemma_new_index_is_largest(state: ApiView, serial: Seq<char>, report: Seq<u8>)
    requires
        state.wf(),
        !state.knows(serial),
        state.can_register(serial),
    ensures
        state.poll(serial, report).record(serial).index == state.next_index,
        forall|i: int|
            0 <= i < state.devices.len() ==> (#[trigger] state.devices[i]).index < state.poll(
                serial,
                report,
            ).record(serial).index,
{
    lemma_register(state, serial);
    lemma_poll(state, serial, report);
}

/// A device that was registered once, has been evicted since, and is seen
/// again gets a new index, larger than the one it had; so does any device
/// first seen after any run of events, against every index that was in use
/// before the run.
pub proof fn lemma_reseen_index_is_larger(
    state: ApiView,
    events: Seq<ApiEvent>,
    serial: Seq<char>,
    report: Seq<u8>,
)
    requires
        state.wf(),
        !state.run(events).knows(serial),
        state.run(events).can_register(serial),
    ensures
        state.run(events).poll(serial, report).record(serial).index >= state.next_index,
        forall|i: int|
            0 <= i < state.devices.len() ==> (#[trigger] state.devices[i]).index < state.run(
                events,
            ).poll(serial, report).record(serial).index,
        state.knows(serial) ==> state.record(serial).index < state.run(events).poll(
            serial,
            report,
        ).record(serial).index,
{
    lemma_run(state, events);
    lemma_new_index_is_largest(state.run(events), serial, report);
}

} // verus!
