//! The engine: the registry of known devices and the poll that drives them.
//!
//! The engine does no input or output itself. A host enumerates the
//! controllers, reads one report from each, and hands serial numbers and
//! reports to the engine; the engine answers with a snapshot for each device
//! and with the request, if any, that the host has to write to it.

use crate::gamepad::{Gamepad, GamepadContext};
use crate::model::{
    is_live, lemma_filter_last, lemma_filter_ordered, lemma_newcomers_grow, lemma_poll,
    lemma_poll_all, lemma_position_is_unique, lemma_register, lemma_retain, ordered, serials,
    ApiView, DevicePollView, DeviceRecord, ReportView,
};
use crate::packet::SubcommandOutputPacket;
use crate::util::generate_id;
use vstd::prelude::*;

verus! {

/// One report as the host read it: the serial number of the device and the
/// bytes that came back.
pub struct DeviceReport {
    pub serial: String,
    pub data: Vec<u8>,
}

impl View for DeviceReport {
    type V = ReportView;

    open spec fn view(&self) -> ReportView {
        ReportView { serial: self.serial@, data: self.data@ }
    }
}

/// The reports of one sweep as plain values.
pub open spec fn report_views(reports: Seq<DeviceReport>) -> Seq<ReportView> {
    Seq::new(reports.len(), |i: int| reports[i]@)
}

/// A list of serial numbers as plain values.
pub open spec fn strings(list: Seq<String>) -> Seq<Seq<char>> {
    Seq::new(list.len(), |i: int| list[i]@)
}

/// The outcome of handling one report: the snapshot of the device, and the
/// request that has to be written to it, if one is due.
#[derive(Clone, Copy, Debug, PartialEq, Eq)]
pub struct DevicePoll {
    pub gamepad: Gamepad,
    pub request: Option<SubcommandOutputPacket>,
}

/// The outcomes of one sweep as plain values.
pub open spec fn poll_views(polls: Seq<DevicePoll>) -> Seq<DevicePollView> {
    Seq::new(polls.len(), |i: int| polls[i]@)
}

impl View for DevicePoll {
    type V = DevicePollView;

    open spec fn view(&self) -> DevicePollView {
        DevicePollView {
            gamepad: self.gamepad@,
            request: match self.request {
                Some(packet) => Some(packet@),
                None => None,
            },
        }
    }
}

/// Why the engine refused to handle a report.
#[derive(Clone, Copy, Debug, PartialEq, Eq, Structural)]
pub enum PollError {
    /// Every index has been handed out, so that a device seen for the first
    /// time cannot be given one that was never used.
    IndexSpaceExhausted,
}

/// What the registry holds for one device: its serial number, the index it
/// was given on first sight, and its context.
struct DeviceEntry {
    serial: String,
    index: usize,
    context: GamepadContext,
}

/// A registry entry as plain values.
spec fn record_of(entry: DeviceEntry) -> DeviceRecord {
    DeviceRecord { serial: entry.serial@, index: entry.index, context: entry.context }
}

/// The registry entries of the engine as plain values.
spec fn records(devices: Seq<DeviceEntry>) -> Seq<DeviceRecord> {
    Seq::new(devices.len(), |i: int| record_of(devices[i]))
}

/// The state that the three parts of an engine make up.
spec fn state_of(devices: Seq<DeviceEntry>, next_index: usize, report_counter: u8) -> ApiView {
    ApiView { devices: records(devices), next_index, report_counter }
}

/// The place of `serial` among `devices`: the first entry that holds it.
fn find_device(devices: &Vec<DeviceEntry>, serial: &String) -> (place: Option<usize>)
    ensures
        match place {
            Some(at) => at < devices@.len() && records(devices@)[at as int].serial == serial@,
            None => forall|k: int|
                0 <= k < devices@.len() ==> (#[trigger] records(devices@)[k]).serial != serial@,
        },
{
    let mut i: usize = 0;
    while i < devices.len()
        invariant
            i <= devices@.len(),
            forall|k: int| 0 <= k < i ==> (#[trigger] records(devices@)[k]).serial != serial@,
        decreases devices@.len() - i,
    {
        if devices[i].serial == *serial {
            return Some(i);
        }
        i += 1;
    }
    None
}

/// Handles one report on the parts of an engine.
fn poll_parts(
    devices: &mut Vec<DeviceEntry>,
    next_index: &mut usize,
    report_counter: &mut u8,
    serial: &str,
    report: &[u8],
) -> (outcome: Result<DevicePoll, PollError>)
    requires
        state_of(old(devices)@, *old(next_index), *old(report_counter)).wf(),
    ensures
        state_of(final(devices)@, *final(next_index), *final(report_counter)).wf(),
        outcome is Ok <==> state_of(
            old(devices)@,
            *old(next_index),
            *old(report_counter),
        ).can_register(serial@),
        match outcome {
            Ok(poll) => {
                let before = state_of(old(devices)@, *old(next_index), *old(report_counter));
                let after = state_of(final(devices)@, *final(next_index), *final(report_counter));
                &&& after == before.poll(serial@, report@)
                &&& after.knows(serial@)
                &&& poll.gamepad@ == before.poll_snapshot(serial@, report@)
                &&& poll.gamepad@.index == after.record(serial@).index
                &&& poll@.request == before.poll_request(serial@, report@)
                &&& poll.gamepad@.wf()
            },
            Err(error) => {
                &&& error == PollError::IndexSpaceExhausted
                &&& final(devices)@ == old(devices)@
                &&& *final(next_index) == *old(next_index)
                &&& *final(report_counter) == *old(report_counter)
            },
        },
{
    let ghost before = state_of(devices@, *next_index, *report_counter);
    let owned = String::from_str(serial);
    let at: usize = match find_device(devices, &owned) {
        Some(at) => {
            proof {
                lemma_position_is_unique(before, serial@, at as int);
            }
            at
        },
        None => {
            if *next_index == usize::MAX {
                return Err(PollError::IndexSpaceExhausted);
            }
            let index = generate_id(next_index);
            devices.push(DeviceEntry { serial: owned, index, context: GamepadContext::default() });
            devices.len() - 1
        },
    };
    proof {
        lemma_register(before, serial@);
        lemma_poll(before, serial@, report@);
    }
    let mut context = devices[at].context;
    let mut gamepad = Gamepad::new(devices[at].index);
    GamepadAPI::fill_from_report(
        report,
        &mut gamepad,
        &mut context.cal_data,
        &mut context.init_state,
    );
    let request = GamepadAPI::advance_init_state(&mut context.init_state, report_counter);
    devices[at].context = context;
    assert(records(devices@) =~= before.poll(serial@, report@).devices);
    Ok(DevicePoll { gamepad, request })
}

/// Whether `serial` occurs in `list`.
fn is_listed(list: &Vec<String>, serial: &String) -> (listed: bool)
    ensures
        listed == strings(list@).to_set().contains(serial@),
{
    let mut i: usize = 0;
    while i < list.len()
        invariant
            i <= list@.len(),
            forall|k: int| 0 <= k < i ==> (#[trigger] strings(list@)[k]) != serial@,
        decreases list@.len() - i,
    {
        if list[i] == *serial {
            assert(strings(list@)[i as int] == serial@);
            return true;
        }
        i += 1;
    }
    false
}

/// Evicts, on the parts of an engine, every device whose serial is not in
/// `live`.
fn retain_parts(devices: &mut Vec<DeviceEntry>, live: &Vec<String>, Ghost(next_index): Ghost<usize>)
    requires
        ordered(records(old(devices)@), next_index),
    ensures
        records(final(devices)@) == records(old(devices)@).filter(
            is_live(strings(live@).to_set()),
        ),
        ordered(records(final(devices)@), next_index),
{
    let ghost pred = is_live(strings(live@).to_set());
    let ghost all = records(devices@);
    let mut kept: Vec<DeviceEntry> = Vec::new();
    let mut i: usize = 0;
    proof {
        lemma_filter_last(all.take(0), pred);
    }
    while i < devices.len()
        invariant
            i <= devices@.len(),
            devices@ == old(devices)@,
            all == records(devices@),
            pred == is_live(strings(live@).to_set()),
            records(kept@) == all.take(i as int).filter(pred),
        decreases devices@.len() - i,
    {
        proof {
            assert(all.take(i + 1).drop_last() =~= all.take(i as int));
            lemma_filter_last(all.take(i + 1), pred);
        }
        if is_listed(live, &devices[i].serial) {
            let entry = DeviceEntry {
                serial: devices[i].serial.clone(),
                index: devices[i].index,
                context: devices[i].context,
            };
            kept.push(entry);
        }
        i += 1;
    }
    proof {
        assert(all.take(i as int) =~= all);
        lemma_filter_ordered(all, next_index, strings(live@).to_set());
    }
    *devices = kept;
}

/// Whether one of the first `count` reports names `serial`.
fn is_named_before(reports: &Vec<DeviceReport>, count: usize, serial: &String) -> (named: bool)
    requires
        count <= reports@.len(),
    ensures
        named == serials(report_views(reports@).take(count as int)).contains(serial@),
{
    let ghost earlier = serials(report_views(reports@).take(count as int));
    let mut i: usize = 0;
    while i < count
        invariant
            i <= count <= reports@.len(),
            earlier == serials(report_views(reports@).take(count as int)),
            forall|k: int| 0 <= k < i ==> (#[trigger] earlier[k]) != serial@,
        decreases count - i,
    {
        if reports[i].serial == *serial {
            assert(earlier[i as int] == serial@);
            return true;
        }
        i += 1;
    }
    false
}

/// Counts the newcomers among the reports of a sweep.
fn count_newcomers(
    devices: &Vec<DeviceEntry>,
    reports: &Vec<DeviceReport>,
    Ghost(state): Ghost<ApiView>,
) -> (count: usize)
    requires
        state.wf(),
        state.devices == records(devices@),
    ensures
        count == state.newcomers(report_views(reports@)),
{
    let ghost views = report_views(reports@);
    let mut count: usize = 0;
    let mut i: usize = 0;
    while i < reports.len()
        invariant
            i <= reports@.len(),
            views == report_views(reports@),
            state.wf(),
            state.devices == records(devices@),
            count == state.newcomers(views.take(i as int)),
            count <= i,
        decreases reports@.len() - i,
    {
        proof {
            assert(views.take(i + 1).drop_last() =~= views.take(i as int));
        }
        let registered = match find_device(devices, &reports[i].serial) {
            Some(at) => {
                proof {
                    lemma_position_is_unique(state, reports@[i as int].serial@, at as int);
                }
                true
            },
            None => false,
        };
        if !registered && !is_named_before(reports, i, &reports[i].serial) {
            count += 1;
        }
        i += 1;
    }
    assert(views.take(i as int) =~= views);
    count
}

/// The protocol engine for all controllers of one host.
pub struct GamepadAPI {
    devices: Vec<DeviceEntry>,
    next_index: usize,
    report_counter: u8,
}

impl View for GamepadAPI {
    type V = ApiView;

    closed spec fn view(&self) -> ApiView {
        state_of(self.devices@, self.next_index, self.report_counter)
    }
}

impl GamepadAPI {
    #[verifier::type_invariant]
    spec fn inv(self) -> bool {
        self@.wf()
    }

    /// An engine that has seen no device.
    pub fn new() -> (api: GamepadAPI)
        ensures
            api@ == ApiView::empty(),
            api@.wf(),
    {
        let api = GamepadAPI { devices: Vec::new(), next_index: 0, report_counter: 0 };
        assert(api@.devices =~= Seq::<DeviceRecord>::empty());
        api
    }

    /// An engine that has seen no device and numbers its devices from
    /// `first_index` on.
    pub fn starting_at(first_index: usize) -> (api: GamepadAPI)
        ensures
            api@ == (ApiView { devices: Seq::empty(), next_index: first_index, report_counter: 0 }),
            api@.wf(),
    {
        let api = GamepadAPI { devices: Vec::new(), next_index: first_index, report_counter: 0 };
        assert(api@.devices =~= Seq::<DeviceRecord>::empty());
        api
    }

    /// Handles one report of the device `serial`: registers the device if it
    /// is new, decodes the report, steps the initialisation, and returns the
    /// snapshot together with the request to write, if any. Fails, and
    /// changes nothing, only where the device is new and no index is left.
    pub fn poll_device(&mut self, serial: &str, report: &[u8]) -> (outcome: Result<
        DevicePoll,
        PollError,
    >)
        ensures
            final(self)@.wf(),
            outcome is Ok <==> old(self)@.can_register(serial@),
            match outcome {
                Ok(poll) => {
                    &&& final(self)@ == old(self)@.poll(serial@, report@)
                    &&& final(self)@.knows(serial@)
                    &&& poll.gamepad@ == old(self)@.poll_snapshot(serial@, report@)
                    &&& poll.gamepad@.index == final(self)@.record(serial@).index
                    &&& poll@.request == old(self)@.poll_request(serial@, report@)
                    &&& poll.gamepad@.wf()
                },
                Err(error) => error == PollError::IndexSpaceExhausted && final(self)@ == old(self)@,
            },
    {
        proof {
            use_type_invariant(&*self);
        }
        let mut devices: Vec<DeviceEntry> = Vec::new();
        core::mem::swap(&mut self.devices, &mut devices);
        let mut next_index: usize = self.next_index;
        let mut report_counter: u8 = self.report_counter;
        let outcome = poll_parts(&mut devices, &mut next_index, &mut report_counter, serial, report);
        self.next_index = next_index;
        self.report_counter = report_counter;
        self.devices = devices;
        outcome
    }

    /// Evicts every device whose serial is not in `live`.
    pub fn evict_missing(&mut self, live: &Vec<String>)
        ensures
            final(self)@.wf(),
            final(self)@ == old(self)@.retain(strings(live@).to_set()),
    {
        proof {
            use_type_invariant(&*self);
        }
        let mut devices: Vec<DeviceEntry> = Vec::new();
        core::mem::swap(&mut self.devices, &mut devices);
        retain_parts(&mut devices, live, Ghost(self.next_index));
        self.devices = devices;
    }

    /// Handles one sweep: the reports of all enumerated devices, in the order
    /// of enumeration. Every report is handled as by
    /// [`poll_device`](Self::poll_device), then every device that sent no
    /// report is evicted. The outcome holds, for each report in order, the
    /// snapshot and the request to write. Fails, and changes nothing, only
    /// where the sweep brings more new devices than indices are left.
    pub fn get_gamepads(&mut self, reports: &Vec<DeviceReport>) -> (outcome: Result<
        Vec<DevicePoll>,
        PollError,
    >)
        ensures
            final(self)@.wf(),
            outcome is Ok <==> old(self)@.can_sweep(report_views(reports@)),
            match outcome {
                Ok(polls) => {
                    &&& final(self)@ == old(self)@.sweep(report_views(reports@))
                    &&& poll_views(polls@) == old(self)@.sweep_outcome(report_views(reports@))
                    &&& forall|i: int| 0 <= i < polls@.len() ==> (#[trigger] polls@[i]).gamepad@.wf()
                },
                Err(error) => error == PollError::IndexSpaceExhausted && final(self)@ == old(self)@,
            },
    {
        proof {
            use_type_invariant(&*self);
        }
        let ghost before = self@;
        let ghost views = report_views(reports@);
        if count_newcomers(&self.devices, reports, Ghost(before)) > usize::MAX - self.next_index {
            return Err(PollError::IndexSpaceExhausted);
        }
        let mut devices: Vec<DeviceEntry> = Vec::new();
        core::mem::swap(&mut self.devices, &mut devices);
        let mut next_index: usize = self.next_index;
        let mut report_counter: u8 = self.report_counter;
        let mut polls: Vec<DevicePoll> = Vec::new();
        let mut live: Vec<String> = Vec::new();
        let mut i: usize = 0;
        while i < reports.len()
            invariant
                i <= reports@.len(),
                views == report_views(reports@),
                before.wf(),
                before.can_sweep(views),
                state_of(devices@, next_index, report_counter) == before.poll_all(
                    views.take(i as int),
                ),
                poll_views(polls@) == before.sweep_outcome(views).take(i as int),
                forall|k: int| 0 <= k < polls@.len() ==> (#[trigger] polls@[k]).gamepad@.wf(),
                strings(live@) == serials(views).take(i as int),
            decreases reports@.len() - i,
        {
            proof {
                assert(views.take(i + 1).drop_last() =~= views.take(i as int));
                lemma_newcomers_grow(before, views, i + 1);
                lemma_poll_all(before, views.take(i + 1));
            }
            let report = &reports[i];
            let poll = match poll_parts(
                &mut devices,
                &mut next_index,
                &mut report_counter,
                report.serial.as_str(),
                report.data.as_slice(),
            ) {
                Ok(poll) => poll,
                Err(error) => {
                    proof {
                        assert(false);
                    }
                    return Err(error);
                },
            };
            polls.push(poll);
            live.push(report.serial.clone());
            proof {
                assert(before.sweep_outcome(views).take(i + 1) =~= before.sweep_outcome(views).take(
                    i as int,
                ).push(before.sweep_outcome(views)[i as int]));
                assert(serials(views).take(i + 1) =~= serials(views).take(i as int).push(
                    report@.serial,
                ));
            }
            i += 1;
        }
        proof {
            assert(views.take(i as int) =~= views);
            assert(serials(views).take(i as int) =~= serials(views));
            lemma_poll_all(before, views);
            lemma_retain(before.poll_all(views), serials(views).to_set());
        }
        retain_parts(&mut devices, &live, Ghost(next_index));
        self.next_index = next_index;
        self.report_counter = report_counter;
        self.devices = devices;
        Ok(polls)
    }

    /// The number of registered devices.
    pub fn device_count(&self) -> (count: usize)
        ensures
            count == self@.devices.len(),
    {
        self.devices.len()
    }

    /// The index that the next new device will get.
    pub fn next_index(&self) -> (index: usize)
        ensures
            index == self@.next_index,
    {
        self.next_index
    }

    /// The counter that the last subcommand carried.
    pub fn report_counter(&self) -> (counter: u8)
        ensures
            counter == self@.report_counter,
    {
        self.report_counter
    }

    /// The index of the device `serial`, or `None` where it is not
    /// registered.
    pub fn index_of(&self, serial: &str) -> (index: Option<usize>)
        ensures
            index is Some <==> self@.knows(serial@),
            index matches Some(found) ==> found == self@.record(serial@).index,
    {
        proof {
            use_type_invariant(self);
        }
        let owned = String::from_str(serial);
        match find_device(&self.devices, &owned) {
            Some(at) => {
                proof {
                    lemma_position_is_unique(self@, serial@, at as int);
                }
                Some(self.devices[at].index)
            },
            None => None,
        }
    }

    /// The context of the device `serial`, or `None` where it is not
    /// registered.
    pub fn context_of(&self, serial: &str) -> (context: Option<GamepadContext>)
        ensures
            context is Some <==> self@.knows(serial@),
            context matches Some(found) ==> found == self@.record(serial@).context,
    {
        proof {
            use_type_invariant(self);
        }
        let owned = String::from_str(serial);
        match find_device(&self.devices, &owned) {
            Some(at) => {
                proof {
                    lemma_position_is_unique(self@, serial@, at as int);
                }
                Some(self.devices[at].context)
            },
            None => None,
        }
    }
}

} // verus!
