use switch_gamepad::packet::{
    AnalogStickCalibrationPacket, AnalogStickParamsCalibrationPacket, SimpleControllerStatePacket,
};
use switch_gamepad::util::pack_shorts;
use switch_gamepad::{
    AxisValue, Button, CalibrationData, Gamepad, GamepadAPI, GamepadContext, GamepadInitState,
};

const REST: AxisValue = AxisValue { num: 0, den: 1 };
const LOW: AxisValue = AxisValue { num: -1, den: 1 };
const HIGH: AxisValue = AxisValue { num: 1, den: 1 };

fn blob_of(packs: [(u16, u16); 6]) -> Vec<u8> {
    let mut bytes = Vec::new();
    for (x, y) in packs {
        bytes.extend_from_slice(&pack_shorts(x, y));
    }
    bytes
}

fn calibration_blob(packs: [(u16, u16); 6]) -> AnalogStickCalibrationPacket {
    AnalogStickCalibrationPacket::read_from_prefix(&blob_of(packs)).unwrap()
}

fn params_blob(dead_zone: u16, range_ratio: u16) -> AnalogStickParamsCalibrationPacket {
    let mut bytes = vec![0xaa, 0xbb, 0xcc];
    bytes.extend_from_slice(&pack_shorts(dead_zone, range_ratio));
    AnalogStickParamsCalibrationPacket::read_from_prefix(&bytes).unwrap()
}

fn state_of(buttons: [u8; 3], left: (u16, u16), right: (u16, u16)) -> SimpleControllerStatePacket {
    SimpleControllerStatePacket {
        button_status: buttons,
        left_stick: pack_shorts(left.0, left.1),
        right_stick: pack_shorts(right.0, right.1),
    }
}

fn full_report(buttons: [u8; 3], left: (u16, u16), right: (u16, u16)) -> Vec<u8> {
    let mut report = vec![0x30, 0x07, 0x8e];
    report.extend_from_slice(&buttons);
    report.extend_from_slice(&pack_shorts(left.0, left.1));
    report.extend_from_slice(&pack_shorts(right.0, right.1));
    report.push(0x0b);
    report
}

fn reply_report(command: u8, address: u16, data: &[u8]) -> Vec<u8> {
    let mut report = vec![0x21, 0x07, 0x8e];
    report.extend_from_slice(&[0x00, 0x00, 0x00]);
    report.extend_from_slice(&pack_shorts(2000, 2000));
    report.extend_from_slice(&pack_shorts(2000, 2000));
    report.push(0x0b);
    report.push(0x90);
    report.push(command);
    report.push((address & 0xff) as u8);
    report.push((address >> 8) as u8);
    report.extend_from_slice(&[0x00, 0x00]);
    report.push(18);
    let mut payload = data.to_vec();
    payload.resize(18, 0);
    report.extend_from_slice(&payload);
    report
}

fn filled(
    report: &[u8],
    cal_data: CalibrationData,
    init_state: GamepadInitState,
) -> (Gamepad, CalibrationData, GamepadInitState) {
    let mut gamepad = Gamepad::new(5);
    let mut cal_data = cal_data;
    let mut init_state = init_state;
    GamepadAPI::fill_from_report(report, &mut gamepad, &mut cal_data, &mut init_state);
    (gamepad, cal_data, init_state)
}

#[test]
fn default_calibration_holds_the_documented_values() {
    let cal = CalibrationData::default();
    assert_eq!((cal.lx_min, cal.lx_center, cal.lx_max), (550, 2050, 3550));
    assert_eq!((cal.ly_min, cal.ly_center, cal.ly_max), (550, 2050, 3550));
    assert_eq!((cal.rx_min, cal.rx_center, cal.rx_max), (550, 2050, 3550));
    assert_eq!((cal.ry_min, cal.ry_center, cal.ry_max), (550, 2050, 3550));
    assert_eq!(cal.dead_zone, 160);
    assert_eq!(cal.range_ratio, 0);
    assert_eq!(cal.accelerometer_origin_x, 0);
    assert_eq!(cal.accelerometer_sensitivity_z, 0);
    assert_eq!(cal.gyro_origin_y, 0);
    assert_eq!(cal.gyro_sensitivity_x, 0);
    assert_eq!(cal.horizontal_offset_z, 0);
}

#[test]
fn default_context_is_uninitialized() {
    let context = GamepadContext::default();
    assert_eq!(context.init_state, GamepadInitState::Uninitialized);
    assert_eq!(context.cal_data, CalibrationData::default());
    assert_eq!(GamepadInitState::default(), GamepadInitState::Uninitialized);
}

#[test]
fn new_snapshot_is_idle() {
    let gamepad = Gamepad::new(9);
    assert_eq!(gamepad.index, 9);
    assert_eq!(gamepad.axes, [REST; 4]);
    assert_eq!(gamepad.buttons, [Button { pressed: false, value: 0 }; 24]);
    assert_eq!(Gamepad::default(), Gamepad::new(0));
}

#[test]
fn stick_calibration_turns_offsets_into_bounds() {
    let blob = calibration_blob([
        (1500, 1400),
        (2000, 2100),
        (500, 600),
        (1900, 2200),
        (700, 800),
        (1300, 1200),
    ]);
    let mut cal = CalibrationData::default();
    GamepadAPI::update_stick_calibration_data(&blob, &mut cal);
    assert_eq!((cal.lx_min, cal.lx_center, cal.lx_max), (1500, 2000, 3500));
    assert_eq!((cal.ly_min, cal.ly_center, cal.ly_max), (1500, 2100, 3500));
    assert_eq!((cal.rx_min, cal.rx_center, cal.rx_max), (1200, 1900, 3200));
    assert_eq!((cal.ry_min, cal.ry_center, cal.ry_max), (1400, 2200, 3400));
    assert_eq!(cal.dead_zone, 160);
    assert_eq!(cal.range_ratio, 0);
}

#[test]
fn bogus_left_stick_reverts_to_defaults_and_leaves_the_right_stick_alone() {
    let blob = calibration_blob([
        (1234, 0x0fff),
        (2100, 1900),
        (0x0fff, 77),
        (2000, 2100),
        (400, 500),
        (600, 700),
    ]);
    let mut cal = CalibrationData::default();
    cal.lx_center = 1;
    cal.ly_max = 2;
    GamepadAPI::update_stick_calibration_data(&blob, &mut cal);
    assert_eq!((cal.lx_min, cal.lx_center, cal.lx_max), (550, 2050, 3550));
    assert_eq!((cal.ly_min, cal.ly_center, cal.ly_max), (550, 2050, 3550));
    assert_eq!((cal.rx_min, cal.rx_center, cal.rx_max), (1600, 2000, 2600));
    assert_eq!((cal.ry_min, cal.ry_center, cal.ry_max), (1600, 2100, 2800));
}

#[test]
fn bogus_right_stick_reverts_to_defaults_and_leaves_the_left_stick_alone() {
    let blob = calibration_blob([
        (600, 700),
        (2000, 2100),
        (400, 500),
        (1, 2),
        (0x0fff, 3),
        (4, 0x0fff),
    ]);
    let mut cal = CalibrationData::default();
    GamepadAPI::update_stick_calibration_data(&blob, &mut cal);
    assert_eq!((cal.lx_min, cal.lx_center, cal.lx_max), (1600, 2000, 2600));
    assert_eq!((cal.ly_min, cal.ly_center, cal.ly_max), (1600, 2100, 2800));
    assert_eq!((cal.rx_min, cal.rx_center, cal.rx_max), (550, 2050, 3550));
    assert_eq!((cal.ry_min, cal.ry_center, cal.ry_max), (550, 2050, 3550));
}

#[test]
fn both_sticks_bogus_gives_the_default_calibration() {
    let blob = AnalogStickCalibrationPacket::read_from_prefix(&[0xff; 18]).unwrap();
    let mut cal = CalibrationData::default();
    cal.lx_min = 1;
    cal.ry_max = 2;
    GamepadAPI::update_stick_calibration_data(&blob, &mut cal);
    assert_eq!(cal, CalibrationData::default());
}

#[test]
fn one_sentinel_alone_does_not_make_a_stick_bogus() {
    let blob = calibration_blob([
        (100, 200),
        (2000, 2100),
        (0x0fff, 300),
        (2000, 2100),
        (400, 500),
        (600, 0x0fff),
    ]);
    let mut cal = CalibrationData::default();
    GamepadAPI::update_stick_calibration_data(&blob, &mut cal);
    // the distance below the centre exceeds the centre: the bound stops at zero
    assert_eq!((cal.lx_min, cal.lx_center, cal.lx_max), (0, 2000, 2100));
    assert_eq!((cal.ly_min, cal.ly_center, cal.ly_max), (1800, 2100, 2300));
    assert_eq!((cal.rx_min, cal.rx_center, cal.rx_max), (1600, 2000, 2600));
    assert_eq!((cal.ry_min, cal.ry_center, cal.ry_max), (1600, 2100, 2100 + 0x0fff));
}

#[test]
fn stick_calibration_keeps_every_centre_between_its_bounds() {
    let patterns: [[u8; 3]; 5] = [
        [0x00, 0x00, 0x00],
        [0xff, 0xff, 0xff],
        [0x12, 0x34, 0x56],
        [0xf0, 0x0f, 0xf0],
        [0x01, 0x80, 0x7f],
    ];
    for a in patterns {
        for b in patterns {
            for c in patterns {
                let mut bytes = Vec::new();
                for pack in [a, b, c, c, a, b] {
                    bytes.extend_from_slice(&pack);
                }
                let blob = AnalogStickCalibrationPacket::read_from_prefix(&bytes).unwrap();
                let mut cal = CalibrationData::default();
                GamepadAPI::update_stick_calibration_data(&blob, &mut cal);
                assert!(cal.lx_min <= cal.lx_center && cal.lx_center <= cal.lx_max);
                assert!(cal.ly_min <= cal.ly_center && cal.ly_center <= cal.ly_max);
                assert!(cal.rx_min <= cal.rx_center && cal.rx_center <= cal.rx_max);
                assert!(cal.ry_min <= cal.ry_center && cal.ry_center <= cal.ry_max);
            }
        }
    }
}

#[test]
fn stick_params_set_dead_zone_and_range_ratio() {
    let mut cal = CalibrationData::default();
    GamepadAPI::update_stick_params_calibration_data(&params_blob(200, 0xe14), &mut cal);
    assert_eq!(cal.dead_zone, 200);
    assert_eq!(cal.range_ratio, 0xe14);
    assert_eq!(cal.lx_center, 2050);
}

#[test]
fn bogus_dead_zone_reverts_to_the_default() {
    let mut cal = CalibrationData::default();
    cal.dead_zone = 7;
    GamepadAPI::update_stick_params_calibration_data(&params_blob(0x0fff, 0x123), &mut cal);
    assert_eq!(cal.dead_zone, 160);
    assert_eq!(cal.range_ratio, 0x123);
}

#[test]
fn buttons_follow_the_bits_of_the_button_field() {
    let mut gamepad = Gamepad::new(3);
    let state = state_of([0x01, 0x00, 0x80], (2050, 2050), (2050, 2050));
    GamepadAPI::update_gamepad(&state, &CalibrationData::default(), &mut gamepad);
    assert_eq!(gamepad.index, 3);
    for i in 0..24 {
        let expected = i == 0 || i == 23;
        assert_eq!(gamepad.buttons[i].pressed, expected);
        assert_eq!(gamepad.buttons[i].value, expected as u8);
    }
}

#[test]
fn every_button_can_be_pressed_alone() {
    for bit in 0..24 {
        let mut status = [0u8; 3];
        status[bit / 8] = 1 << (bit % 8);
        let mut gamepad = Gamepad::new(0);
        let state = state_of(status, (0, 0), (0, 0));
        GamepadAPI::update_gamepad(&state, &CalibrationData::default(), &mut gamepad);
        for i in 0..24 {
            assert_eq!(gamepad.buttons[i], Button { pressed: i == bit, value: (i == bit) as u8 });
        }
    }
}

#[test]
fn update_gamepad_overwrites_an_earlier_decode() {
    let mut gamepad = Gamepad::new(1);
    let cal = CalibrationData::default();
    GamepadAPI::update_gamepad(&state_of([0xff, 0xff, 0xff], (0, 4095), (4095, 0)), &cal, &mut gamepad);
    assert_eq!(gamepad.axes, [LOW, HIGH, HIGH, LOW]);
    assert!(gamepad.buttons.iter().all(|button| button.pressed && button.value == 1));
    GamepadAPI::update_gamepad(&state_of([0, 0, 0], (2050, 2050), (2050, 2050)), &cal, &mut gamepad);
    assert_eq!(gamepad.axes, [REST; 4]);
    assert!(gamepad.buttons.iter().all(|button| !button.pressed && button.value == 0));
}

#[test]
fn sticks_inside_the_dead_zone_are_at_rest() {
    let mut gamepad = Gamepad::new(0);
    let state = state_of([0, 0, 0], (0x800, 0x800), (2050 + 100, 2050 - 100));
    GamepadAPI::update_gamepad(&state, &CalibrationData::default(), &mut gamepad);
    assert_eq!(gamepad.axes, [REST; 4]);
}

#[test]
fn sticks_outside_the_dead_zone_are_normalised_per_axis() {
    let mut gamepad = Gamepad::new(0);
    let state = state_of([0, 0, 0], (2048, 0), (3000, 2050));
    GamepadAPI::update_gamepad(&state, &CalibrationData::default(), &mut gamepad);
    assert_eq!(gamepad.axes[0], AxisValue { num: -4, den: 3000 });
    assert_eq!(gamepad.axes[1], LOW);
    assert_eq!(gamepad.axes[2], AxisValue { num: 1900, den: 3000 });
    assert_eq!(gamepad.axes[3], AxisValue { num: 0, den: 3000 });
}

#[test]
fn each_stick_has_its_own_dead_zone_test() {
    let mut gamepad = Gamepad::new(0);
    let state = state_of([0, 0, 0], (2050, 2050), (3550, 550));
    GamepadAPI::update_gamepad(&state, &CalibrationData::default(), &mut gamepad);
    assert_eq!(gamepad.axes, [REST, REST, HIGH, LOW]);
}

#[test]
fn sticks_use_the_calibration_of_their_own_axis() {
    let mut cal = CalibrationData::default();
    cal.lx_min = 1000;
    cal.lx_center = 2000;
    cal.lx_max = 3000;
    cal.ly_min = 0;
    cal.ly_center = 100;
    cal.ly_max = 200;
    cal.rx_min = 10;
    cal.rx_center = 20;
    cal.rx_max = 30;
    cal.ry_min = 2000;
    cal.ry_center = 3000;
    cal.ry_max = 4000;
    cal.dead_zone = 5;
    let mut gamepad = Gamepad::new(0);
    let state = state_of([0, 0, 0], (2500, 150), (15, 3999));
    GamepadAPI::update_gamepad(&state, &cal, &mut gamepad);
    assert_eq!(gamepad.axes[0], AxisValue { num: 1000, den: 2000 });
    assert_eq!(gamepad.axes[1], AxisValue { num: 100, den: 200 });
    assert_eq!(gamepad.axes[2], AxisValue { num: -10, den: 20 });
    assert_eq!(gamepad.axes[3], AxisValue { num: 1998, den: 2000 });
}

#[test]
fn reports_shorter_than_twelve_bytes_are_not_decoded() {
    let report = full_report([0xff, 0xff, 0xff], (0, 0), (0, 0));
    for len in 0..12 {
        let (gamepad, cal, state) = filled(
            &report[..len],
            CalibrationData::default(),
            GamepadInitState::RequestedAnalogCalibration,
        );
        assert_eq!(gamepad, Gamepad::new(5));
        assert_eq!(cal, CalibrationData::default());
        assert_eq!(state, GamepadInitState::RequestedAnalogCalibration);
    }
}

#[test]
fn full_state_report_needs_its_whole_record() {
    let report = full_report([0x01, 0, 0], (0, 0), (4095, 4095));
    assert_eq!(report.len(), 13);
    let (gamepad, _, _) = filled(&report, CalibrationData::default(), GamepadInitState::Initialized);
    assert!(gamepad.buttons[0].pressed);
    assert_eq!(gamepad.axes, [LOW, LOW, HIGH, HIGH]);
    let (short, _, _) = filled(&report[..12], CalibrationData::default(), GamepadInitState::Initialized);
    assert_eq!(short, Gamepad::new(5));
}

#[test]
fn full_state_report_may_be_longer_than_its_record() {
    let mut report = full_report([0x02, 0, 0], (4095, 0), (0, 4095));
    report.resize(48, 0xee);
    let (gamepad, cal, state) = filled(&report, CalibrationData::default(), GamepadInitState::Initialized);
    assert!(gamepad.buttons[1].pressed);
    assert!(!gamepad.buttons[0].pressed);
    assert_eq!(gamepad.axes, [HIGH, LOW, LOW, HIGH]);
    assert_eq!(cal, CalibrationData::default());
    assert_eq!(state, GamepadInitState::Initialized);
}

#[test]
fn simple_state_report_is_decoded_from_offset_one() {
    let mut report = vec![0x3f, 0x04, 0x00, 0x01];
    report.extend_from_slice(&pack_shorts(3550, 2050));
    report.extend_from_slice(&pack_shorts(2050, 550));
    report.extend_from_slice(&[0x00, 0x00]);
    assert_eq!(report.len(), 12);
    let (gamepad, _, _) = filled(&report, CalibrationData::default(), GamepadInitState::Initialized);
    assert!(gamepad.buttons[2].pressed);
    assert!(gamepad.buttons[16].pressed);
    assert_eq!(gamepad.buttons.iter().filter(|button| button.pressed).count(), 2);
    assert_eq!(gamepad.axes[0], HIGH);
    assert_eq!(gamepad.axes[1], AxisValue { num: 0, den: 3000 });
    assert_eq!(gamepad.axes[2], AxisValue { num: 0, den: 3000 });
    assert_eq!(gamepad.axes[3], LOW);
}

#[test]
fn unknown_and_ignored_report_kinds_change_nothing() {
    for id in [0x31u8, 0x81, 0x00, 0x10, 0x20, 0x22, 0x2f, 0x32, 0x3e, 0x40, 0xff] {
        let mut report = reply_report(0x10, 0x603d, &[0xff; 18]);
        report[0] = id;
        let (gamepad, cal, state) = filled(&report, CalibrationData::default(), GamepadInitState::RequestedAnalogParams);
        assert_eq!(gamepad, Gamepad::new(5));
        assert_eq!(cal, CalibrationData::default());
        assert_eq!(state, GamepadInitState::RequestedAnalogParams);
    }
}

#[test]
fn calibration_reply_is_folded_in_and_marks_the_request_answered() {
    let data = blob_of([(1500, 1500), (2000, 2000), (500, 500), (2000, 2000), (500, 500), (1500, 1500)]);
    let report = reply_report(0x10, 0x603d, &data);
    assert_eq!(report.len(), 38);
    let (gamepad, cal, state) = filled(&report, CalibrationData::default(), GamepadInitState::RequestedAnalogCalibration);
    assert_eq!((cal.lx_min, cal.lx_center, cal.lx_max), (1500, 2000, 3500));
    assert_eq!((cal.ry_min, cal.ry_center, cal.ry_max), (1500, 2000, 3500));
    assert_eq!(cal.dead_zone, 160);
    assert_eq!(state, GamepadInitState::RequestedAnalogCalibrationOk);
    // the snapshot of this very report is still decoded against the old calibration
    assert_eq!(gamepad.axes, [REST; 4]);
}

#[test]
fn reply_snapshot_uses_the_calibration_from_before_the_reply() {
    let data = blob_of([(10, 10), (2600, 2600), (10, 10), (2600, 2600), (10, 10), (10, 10)]);
    let mut report = reply_report(0x10, 0x603d, &data);
    let stick = pack_shorts(2600, 2600);
    report[6..9].copy_from_slice(&stick);
    report[9..12].copy_from_slice(&stick);
    let (gamepad, cal, _) = filled(&report, CalibrationData::default(), GamepadInitState::Uninitialized);
    assert_eq!(cal.lx_center, 2600);
    // against the defaults (2600 - 550) * 2 - 3000 = 1100
    assert_eq!(gamepad.axes, [AxisValue { num: 1100, den: 3000 }; 4]);
    // against the new calibration the same sample is at the centre
    let mut later = Gamepad::new(5);
    let state = state_of([0, 0, 0], (2600, 2600), (2600, 2600));
    GamepadAPI::update_gamepad(&state, &cal, &mut later);
    assert_eq!(later.axes, [REST; 4]);
}

#[test]
fn params_reply_is_folded_in_and_marks_the_request_answered() {
    let mut data = vec![0x11, 0x22, 0x33];
    data.extend_from_slice(&pack_shorts(200, 0));
    let report = reply_report(0x10, 0x6086, &data);
    let (_, cal, state) = filled(&report, CalibrationData::default(), GamepadInitState::RequestedAnalogParams);
    assert_eq!(cal.dead_zone, 200);
    assert_eq!(cal.range_ratio, 0);
    assert_eq!(cal.lx_center, 2050);
    assert_eq!(state, GamepadInitState::RequestedAnalogParamsOk);
}

#[test]
fn replies_are_dispatched_on_their_address_whatever_was_requested() {
    let mut data = vec![0, 0, 0];
    data.extend_from_slice(&pack_shorts(300, 5));
    let report = reply_report(0x10, 0x6086, &data);
    for state in [
        GamepadInitState::Uninitialized,
        GamepadInitState::RequestedAnalogCalibration,
        GamepadInitState::RequestedAnalogCalibrationOk,
        GamepadInitState::RequestedAnalogParams,
        GamepadInitState::RequestedAnalogParamsOk,
        GamepadInitState::Initialized,
    ] {
        let (_, cal, after) = filled(&report, CalibrationData::default(), state);
        assert_eq!(cal.dead_zone, 300);
        assert_eq!(cal.range_ratio, 5);
        assert_eq!(after, GamepadInitState::RequestedAnalogParamsOk);
    }
}

#[test]
fn reply_to_another_subcommand_only_refreshes_the_snapshot() {
    let mut report = reply_report(0x02, 0x603d, &[0xff; 18]);
    report[3] = 0x08;
    let (gamepad, cal, state) = filled(&report, CalibrationData::default(), GamepadInitState::RequestedAnalogCalibration);
    assert!(gamepad.buttons[3].pressed);
    assert_eq!(cal, CalibrationData::default());
    assert_eq!(state, GamepadInitState::RequestedAnalogCalibration);
    let unknown = reply_report(0x77, 0x603d, &[0xff; 18]);
    let (_, cal, state) = filled(&unknown, CalibrationData::default(), GamepadInitState::RequestedAnalogCalibration);
    assert_eq!(cal, CalibrationData::default());
    assert_eq!(state, GamepadInitState::RequestedAnalogCalibration);
}

#[test]
fn reply_for_another_address_only_refreshes_the_snapshot() {
    for address in [0x6020u16, 0x6080, 0x0000, 0x3d60, 0x603c, 0x6087] {
        let mut report = reply_report(0x10, address, &[0x01; 18]);
        report[4] = 0x01;
        let (gamepad, cal, state) = filled(&report, CalibrationData::default(), GamepadInitState::RequestedAnalogCalibration);
        assert!(gamepad.buttons[8].pressed);
        assert_eq!(cal, CalibrationData::default());
        assert_eq!(state, GamepadInitState::RequestedAnalogCalibration);
    }
}

#[test]
fn truncated_reply_is_ignored_altogether() {
    let data = blob_of([(1500, 1500), (2000, 2000), (500, 500), (2000, 2000), (500, 500), (1500, 1500)]);
    let mut report = reply_report(0x10, 0x603d, &data);
    report[3] = 0xff;
    for len in 12..38 {
        let (gamepad, cal, state) = filled(&report[..len], CalibrationData::default(), GamepadInitState::RequestedAnalogCalibration);
        assert_eq!(gamepad, Gamepad::new(5));
        assert_eq!(cal, CalibrationData::default());
        assert_eq!(state, GamepadInitState::RequestedAnalogCalibration);
    }
    let (gamepad, cal, state) = filled(&report, CalibrationData::default(), GamepadInitState::RequestedAnalogCalibration);
    assert!(gamepad.buttons[0].pressed);
    assert_eq!(cal.lx_center, 2000);
    assert_eq!(state, GamepadInitState::RequestedAnalogCalibrationOk);
}
