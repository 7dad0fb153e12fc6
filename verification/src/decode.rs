//! Decoding of input reports: buttons and sticks into a snapshot, flash
//! contents into the calibration.

use crate::api::GamepadAPI;
use crate::calibration::CalibrationData;
use crate::gamepad::{Button, Gamepad, GamepadInitState, GamepadView};
use crate::packet::{
    le_value, AnalogStickCalibrationPacket, AnalogStickParamsCalibrationPacket,
    ControllerStatePacket, SimpleControllerStatePacket, SubcommandInputPacket,
    CONTROLLER_STATE_SIZE, SUBCOMMAND_INPUT_SIZE,
};
use crate::protocol::{
    InputReportID, SPIAddress, SubcommandID, CAL_BOGUS_VALUE, CAL_DEFAULT_CENTER,
    CAL_DEFAULT_DEADZONE, CAL_DEFAULT_MAX, CAL_DEFAULT_MIN, MIN_REPORT_LEN,
};
use crate::util::{
    axis_position, bits_of, clamp_axis, extract_bits, in_dead_zone, is_dead_zone,
    lemma_bits_of_popcount, unpack_first, unpack_second, unpack_shorts, AxisValue,
};
use vstd::prelude::*;
use vstd::slice::slice_subrange;

verus! {

/// The 24 buttons that the three bytes of a button field stand for, bit 0 of
/// the first byte first.
pub open spec fn decoded_buttons(button_status: Seq<u8>) -> Seq<Button> {
    Seq::new(24, |i: int| Button::of_bit(bits_of(button_status)[i]))
}

/// The two axes of one stick. Inside the dead zone around the centre both
/// are at rest; outside it each is normalised against its own bounds.
pub open spec fn decoded_stick(
    stick: Seq<u8>,
    x_center: u16,
    x_min: u16,
    x_max: u16,
    y_center: u16,
    y_min: u16,
    y_max: u16,
    dead_zone: u16,
) -> (AxisValue, AxisValue) {
    let x = unpack_first(stick[0], stick[1]);
    let y = unpack_second(stick[1], stick[2]);
    if in_dead_zone(x, y, x_center, y_center, dead_zone) {
        (AxisValue { num: 0i32, den: 1i32 }, AxisValue { num: 0i32, den: 1i32 })
    } else {
        (axis_position(x, x_min, x_max), axis_position(y, y_min, y_max))
    }
}

/// The four axes of a snapshot: left X, left Y, right X, right Y.
pub open spec fn decoded_axes(left: Seq<u8>, right: Seq<u8>, cal: CalibrationData) -> Seq<
    AxisValue,
> {
    let l = decoded_stick(
        left,
        cal.lx_center,
        cal.lx_min,
        cal.lx_max,
        cal.ly_center,
        cal.ly_min,
        cal.ly_max,
        cal.dead_zone,
    );
    let r = decoded_stick(
        right,
        cal.rx_center,
        cal.rx_min,
        cal.rx_max,
        cal.ry_center,
        cal.ry_min,
        cal.ry_max,
        cal.dead_zone,
    );
    seq![l.0, l.1, r.0, r.1]
}

/// The snapshot of device `index` that the nine bytes of a simple controller
/// state give under a calibration.
pub open spec fn decoded_snapshot(state: Seq<u8>, cal: CalibrationData, index: usize) -> GamepadView {
    GamepadView {
        index,
        axes: decoded_axes(state.subrange(3, 6), state.subrange(6, 9), cal),
        buttons: decoded_buttons(state.subrange(0, 3)),
    }
}

/// Every decoded snapshot is well formed.
pub proof fn lemma_decoded_snapshot_wf(state: Seq<u8>, cal: CalibrationData, index: usize)
    requires
        state.len() == 9,
    ensures
        decoded_snapshot(state, cal, index).wf(),
{
    lemma_bits_of_popcount(state.subrange(0, 3));
}

/// The nine bytes of simple controller state that an input report carries.
/// A report of fewer than 12 bytes carries none, nor does a report of an
/// unknown kind or one too short for the record that its kind announces.
pub open spec fn carried_state(report: Seq<u8>) -> Option<Seq<u8>> {
    if report.len() < MIN_REPORT_LEN {
        None
    } else if report[0] == InputReportID::FullControllerState.spec_code() && report.len() >= 1
        + CONTROLLER_STATE_SIZE {
        Some(report.subrange(3, 12))
    } else if report[0] == InputReportID::SimpleControllerState.spec_code() {
        Some(report.subrange(1, 10))
    } else if report[0] == InputReportID::SubcommandReply.spec_code() && report.len() >= 1
        + SUBCOMMAND_INPUT_SIZE {
        Some(report.subrange(3, 12))
    } else {
        None
    }
}

/// The flash contents that an input report carries: the address read and
/// the 18 bytes of data, for a complete reply to a flash read.
pub open spec fn carried_flash_data(report: Seq<u8>) -> Option<(u16, Seq<u8>)> {
    if report.len() >= 1 + SUBCOMMAND_INPUT_SIZE && report[0]
        == InputReportID::SubcommandReply.spec_code() && report[14]
        == SubcommandID::SPIFlashRead.spec_code() {
        Some((le_value(report[15], report[16]), report.subrange(20, 38)))
    } else {
        None
    }
}

/// The snapshot after a report has been decoded: what the report's
/// controller state gives under the calibration, or the snapshot as it was
/// where the report carries no state.
pub open spec fn snapshot_after(report: Seq<u8>, cal: CalibrationData, before: GamepadView) -> GamepadView {
    match carried_state(report) {
        Some(state) => decoded_snapshot(state, cal, before.index),
        None => before,
    }
}

/// The calibration after a report has been decoded: stick calibration or
/// stick parameters folded in where the report carries them, and unchanged
/// otherwise.
pub open spec fn calibration_after(report: Seq<u8>, cal: CalibrationData) -> CalibrationData {
    match carried_flash_data(report) {
        Some((address, data)) => {
            if address == SPIAddress::AnalogStickCalibration.spec_code() {
                cal.with_stick_calibration(data)
            } else if address == SPIAddress::AnalogStickParameters.spec_code() {
                cal.with_stick_params(data.subrange(3, 6))
            } else {
                cal
            }
        },
        None => cal,
    }
}

/// The initialisation state after a report has been decoded: a reply that
/// carries stick calibration or stick parameters marks the matching request
/// as answered, anything else leaves the state alone.
pub open spec fn init_state_after(report: Seq<u8>, state: GamepadInitState) -> GamepadInitState {
    match carried_flash_data(report) {
        Some((address, data)) => {
            if address == SPIAddress::AnalogStickCalibration.spec_code() {
                GamepadInitState::RequestedAnalogCalibrationOk
            } else if address == SPIAddress::AnalogStickParameters.spec_code() {
                GamepadInitState::RequestedAnalogParamsOk
            } else {
                state
            }
        },
        None => state,
    }
}

impl GamepadAPI {
    /// Decodes buttons and sticks of a controller state into `gamepad`,
    /// leaving its index as it was.
    pub fn update_gamepad(
        state: &SimpleControllerStatePacket,
        cal_data: &CalibrationData,
        gamepad: &mut Gamepad,
    )
        ensures
            final(gamepad)@ == decoded_snapshot(state@, *cal_data, old(gamepad).index),
            final(gamepad)@.wf(),
    {
        let button_values = extract_bits(&state.button_status, 3);
        let mut i: usize = 0;
        while i < 24
            invariant
                i <= 24,
                button_values@ == bits_of(state.button_status@),
                button_values@.len() == 24,
                gamepad.index == old(gamepad).index,
                gamepad.axes == old(gamepad).axes,
                forall|k: int|
                    0 <= k < i ==> gamepad.buttons@[k] == Button::of_bit(
                        bits_of(state.button_status@)[k],
                    ),
            decreases 24 - i,
        {
            let bit: u8 = button_values[i];
            gamepad.buttons[i] = Button { pressed: bit > 0, value: bit };
            i += 1;
        }

        let mut lx: u16 = 0;
        let mut ly: u16 = 0;
        let mut rx: u16 = 0;
        let mut ry: u16 = 0;

        unpack_shorts(&state.left_stick, &mut lx, &mut ly);
        unpack_shorts(&state.right_stick, &mut rx, &mut ry);

        let is_left_deadzone = is_dead_zone(
            lx,
            ly,
            cal_data.lx_center,
            cal_data.ly_center,
            cal_data.dead_zone,
        );
        let is_right_deadzone = is_dead_zone(
            rx,
            ry,
            cal_data.rx_center,
            cal_data.ry_center,
            cal_data.dead_zone,
        );

        gamepad.axes[0] = if is_left_deadzone {
            AxisValue::rest()
        } else {
            clamp_axis(lx, cal_data.lx_min, cal_data.lx_max)
        };
        gamepad.axes[1] = if is_left_deadzone {
            AxisValue::rest()
        } else {
            clamp_axis(ly, cal_data.ly_min, cal_data.ly_max)
        };
        gamepad.axes[2] = if is_right_deadzone {
            AxisValue::rest()
        } else {
            clamp_axis(rx, cal_data.rx_min, cal_data.rx_max)
        };
        gamepad.axes[3] = if is_right_deadzone {
            AxisValue::rest()
        } else {
            clamp_axis(ry, cal_data.ry_min, cal_data.ry_max)
        };

        proof {
            let want = decoded_snapshot(state@, *cal_data, old(gamepad).index);
            assert(gamepad@.buttons =~= want.buttons);
            assert(gamepad@.axes =~= want.axes);
            lemma_decoded_snapshot_wf(state@, *cal_data, old(gamepad).index);
        }
    }

    /// Folds a stick calibration blob into the calibration of a device.
    pub fn update_stick_calibration_data(
        cal: &AnalogStickCalibrationPacket,
        cal_data: &mut CalibrationData,
    )
        ensures
            *final(cal_data) == old(cal_data).with_stick_calibration(cal@),
            final(cal_data).sticks_ordered(),
    {
        let mut lx_center: u16 = 0;
        let mut ly_center: u16 = 0;
        let mut lx_below: u16 = 0;
        let mut ly_below: u16 = 0;
        let mut lx_above: u16 = 0;
        let mut ly_above: u16 = 0;
        let mut rx_center: u16 = 0;
        let mut ry_center: u16 = 0;
        let mut rx_below: u16 = 0;
        let mut ry_below: u16 = 0;
        let mut rx_above: u16 = 0;
        let mut ry_above: u16 = 0;

        unpack_shorts(&cal.l_xy_center, &mut lx_center, &mut ly_center);
        unpack_shorts(&cal.r_xy_center, &mut rx_center, &mut ry_center);
        unpack_shorts(&cal.l_xy_min, &mut lx_below, &mut ly_below);
        unpack_shorts(&cal.r_xy_min, &mut rx_below, &mut ry_below);
        unpack_shorts(&cal.l_xy_max, &mut lx_above, &mut ly_above);
        unpack_shorts(&cal.r_xy_max, &mut rx_above, &mut ry_above);

        if lx_below == CAL_BOGUS_VALUE && ly_above == CAL_BOGUS_VALUE {
            cal_data.lx_min = CAL_DEFAULT_MIN;
            cal_data.lx_max = CAL_DEFAULT_MAX;
            cal_data.lx_center = CAL_DEFAULT_CENTER;
            cal_data.ly_min = CAL_DEFAULT_MIN;
            cal_data.ly_max = CAL_DEFAULT_MAX;
            cal_data.ly_center = CAL_DEFAULT_CENTER;
        } else {
            cal_data.lx_center = lx_center;
            cal_data.lx_min = lx_center.saturating_sub(lx_below);
            cal_data.lx_max = lx_center + lx_above;
            cal_data.ly_center = ly_center;
            cal_data.ly_min = ly_center.saturating_sub(ly_below);
            cal_data.ly_max = ly_center + ly_above;
        }

        if rx_below == CAL_BOGUS_VALUE && ry_above == CAL_BOGUS_VALUE {
            cal_data.rx_min = CAL_DEFAULT_MIN;
            cal_data.rx_max = CAL_DEFAULT_MAX;
            cal_data.rx_center = CAL_DEFAULT_CENTER;
            cal_data.ry_min = CAL_DEFAULT_MIN;
            cal_data.ry_max = CAL_DEFAULT_MAX;
            cal_data.ry_center = CAL_DEFAULT_CENTER;
        } else {
            cal_data.rx_center = rx_center;
            cal_data.rx_min = rx_center.saturating_sub(rx_below);
            cal_data.rx_max = rx_center + rx_above;
            cal_data.ry_center = ry_center;
            cal_data.ry_min = ry_center.saturating_sub(ry_below);
            cal_data.ry_max = ry_center + ry_above;
        }
    }

    /// Folds a stick parameter blob into the calibration of a device.
    pub fn update_stick_params_calibration_data(
        cal: &AnalogStickParamsCalibrationPacket,
        cal_data: &mut CalibrationData,
    )
        ensures
            *final(cal_data) == old(cal_data).with_stick_params(cal.params@),
    {
        let mut dead_zone: u16 = 0;
        let mut range_ratio: u16 = 0;
        unpack_shorts(&cal.params, &mut dead_zone, &mut range_ratio);
        if dead_zone == CAL_BOGUS_VALUE {
            dead_zone = CAL_DEFAULT_DEADZONE;
        }
        cal_data.dead_zone = dead_zone;
        cal_data.range_ratio = range_ratio;
    }

    /// Decodes one input report of a device: refreshes the snapshot from the
    /// controller state it carries, folds flash contents into the
    /// calibration, and records which request the report answers. The
    /// snapshot is decoded against the calibration as it was before the
    /// report.
    pub fn fill_from_report(
        report: &[u8],
        gamepad: &mut Gamepad,
        cal_data: &mut CalibrationData,
        init_state: &mut GamepadInitState,
    )
        ensures
            final(gamepad)@ == snapshot_after(report@, *old(cal_data), old(gamepad)@),
            old(gamepad)@.wf() ==> final(gamepad)@.wf(),
            *final(cal_data) == calibration_after(report@, *old(cal_data)),
            *final(init_state) == init_state_after(report@, *old(init_state)),
    {
        if report.len() < MIN_REPORT_LEN {
            return ;
        }
        let payload = slice_subrange(report, 1, report.len());
        match InputReportID::try_from_u8(report[0]) {
            Some(InputReportID::FullControllerState) => {
                match ControllerStatePacket::read_from_prefix(payload) {
                    Some(packet) => {
                        assert(packet.simple_state@ =~= report@.subrange(3, 12));
                        Self::update_gamepad(&packet.simple_state, cal_data, gamepad);
                    },
                    None => {},
                }
            },
            Some(InputReportID::SimpleControllerState) => {
                match SimpleControllerStatePacket::read_from_prefix(payload) {
                    Some(packet) => {
                        assert(packet@ =~= report@.subrange(1, 10));
                        Self::update_gamepad(&packet, cal_data, gamepad);
                    },
                    None => {},
                }
            },
            Some(InputReportID::SubcommandReply) => {
                match SubcommandInputPacket::read_from_prefix(payload) {
                    Some(packet) => {
                        assert(packet.controller_state.simple_state@ =~= report@.subrange(3, 12));
                        Self::update_gamepad(
                            &packet.controller_state.simple_state,
                            cal_data,
                            gamepad,
                        );
                        match SubcommandID::try_from_u8(packet.subcommand_id) {
                            Some(SubcommandID::SPIFlashRead) => {
                                match SPIAddress::try_from_u16(packet.address) {
                                    Some(SPIAddress::AnalogStickCalibration) => {
                                        match AnalogStickCalibrationPacket::read_from_prefix(
                                            &packet.subcommand_data,
                                        ) {
                                            Some(cal) => {
                                                Self::update_stick_calibration_data(&cal, cal_data);
                                                *init_state =
                                                GamepadInitState::RequestedAnalogCalibrationOk;
                                            },
                                            None => {},
                                        }
                                    },
                                    Some(SPIAddress::AnalogStickParameters) => {
                                        match AnalogStickParamsCalibrationPacket::read_from_prefix(
                                            &packet.subcommand_data,
                                        ) {
                                            Some(cal) => {
                                                Self::update_stick_params_calibration_data(
                                                    &cal,
                                                    cal_data,
                                                );
                                                *init_state =
                                                GamepadInitState::RequestedAnalogParamsOk;
                                            },
                                            None => {},
                                        }
                                    },
                                    _ => {},
                                }
                            },
                            _ => {},
                        }
                    },
                    None => {},
                }
            },
            _ => {},
        }
    }
}

} // verus!
