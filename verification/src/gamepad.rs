//! The snapshot handed to the host and the per-device state behind it.

use crate::calibration::CalibrationData;
use crate::util::AxisValue;
use vstd::prelude::*;

verus! {

/// Number of analog axes in a snapshot: left X, left Y, right X, right Y.
pub const AXIS_COUNT: usize = 4;

/// Number of buttons in a snapshot.
pub const BUTTON_COUNT: usize = 24;

/// One digital button: whether it is pressed, and its value, 1 when pressed
/// and 0 when released.
#[derive(Clone, Copy, Debug, PartialEq, Eq, Structural)]
pub struct Button {
    pub pressed: bool,
    pub value: u8,
}

impl Button {
    /// The button that a single bit of the button field stands for.
    pub open spec fn of_bit(bit: u8) -> Button {
        Button { pressed: bit > 0, value: bit }
    }

    /// A button that is not pressed.
    pub open spec fn released() -> Button {
        Button { pressed: false, value: 0 }
    }
}

/// The state of one controller at one poll.
#[derive(Clone, Copy, Debug, PartialEq, Eq)]
pub struct Gamepad {
    pub index: usize,
    pub axes: [AxisValue; 4],
    pub buttons: [Button; 24],
}

/// A snapshot as plain values: the device index, the four axes and the 24
/// buttons.
pub struct GamepadView {
    pub index: usize,
    pub axes: Seq<AxisValue>,
    pub buttons: Seq<Button>,
}

impl GamepadView {
    /// The snapshot of a device from which nothing has been decoded: sticks
    /// at rest and no button pressed.
    pub open spec fn idle(index: usize) -> GamepadView {
        GamepadView {
            index,
            axes: Seq::new(AXIS_COUNT as nat, |i: int| AxisValue { num: 0i32, den: 1i32 }),
            buttons: Seq::new(BUTTON_COUNT as nat, |i: int| Button::released()),
        }
    }

    /// Four axes, each a fraction in [-1, +1], and 24 buttons, each with
    /// value 0 or 1 and pressed exactly when the value is 1.
    pub open spec fn wf(self) -> bool {
        &&& self.axes.len() == AXIS_COUNT
        &&& self.buttons.len() == BUTTON_COUNT
        &&& forall|i: int| 0 <= i < AXIS_COUNT ==> (#[trigger] self.axes[i]).wf()
        &&& forall|i: int|
            0 <= i < BUTTON_COUNT ==> (#[trigger] self.buttons[i]).value <= 1
                && self.buttons[i].pressed == (self.buttons[i].value == 1)
    }
}

impl View for Gamepad {
    type V = GamepadView;

    open spec fn view(&self) -> GamepadView {
        GamepadView { index: self.index, axes: self.axes@, buttons: self.buttons@ }
    }
}

impl Gamepad {
    /// The snapshot of device `index` before anything has been decoded.
    pub fn new(index: usize) -> (gamepad: Gamepad)
        ensures
            gamepad@ == GamepadView::idle(index),
            gamepad@.wf(),
    {
        let rest = AxisValue { num: 0, den: 1 };
        let up = Button { pressed: false, value: 0 };
        let idle = Gamepad {
            index,
            axes: [rest, rest, rest, rest],
            buttons: [
                up, up, up, up, up, up, up, up, up, up, up, up,
                up, up, up, up, up, up, up, up, up, up, up, up,
            ],
        };
        assert(idle@.axes =~= GamepadView::idle(index).axes);
        assert(idle@.buttons =~= GamepadView::idle(index).buttons);
        idle
    }
}

impl Default for Gamepad {
    fn default() -> (gamepad: Gamepad)
        ensures
            gamepad@ == GamepadView::idle(0),
    {
        Gamepad::new(0)
    }
}

/// How far the initialisation of a device has come.
#[derive(Clone, Copy, Debug, PartialEq, Eq, Structural)]
pub enum GamepadInitState {
    Uninitialized,
    RequestedAnalogCalibration,
    RequestedAnalogCalibrationOk,
    RequestedAnalogParams,
    RequestedAnalogParamsOk,
    Initialized,
}

impl GamepadInitState {
    /// The position of the state in the order of initialisation, from 0 for
    /// `Uninitialized` to 5 for `Initialized`.
    pub open spec fn rank(self) -> nat {
        match self {
            GamepadInitState::Uninitialized => 0,
            GamepadInitState::RequestedAnalogCalibration => 1,
            GamepadInitState::RequestedAnalogCalibrationOk => 2,
            GamepadInitState::RequestedAnalogParams => 3,
            GamepadInitState::RequestedAnalogParamsOk => 4,
            GamepadInitState::Initialized => 5,
        }
    }
}

impl Default for GamepadInitState {
    fn default() -> (state: GamepadInitState)
        ensures
            state == GamepadInitState::Uninitialized,
    {
        GamepadInitState::Uninitialized
    }
}

/// What the engine remembers of one device between polls.
#[derive(Clone, Copy, Debug, PartialEq, Eq)]
pub struct GamepadContext {
    pub cal_data: CalibrationData,
    pub init_state: GamepadInitState,
}

impl GamepadContext {
    /// The context of a device seen for the first time: default calibration,
    /// nothing requested yet.
    pub open spec fn fresh() -> GamepadContext {
        GamepadContext {
            cal_data: CalibrationData::spec_default(),
            init_state: GamepadInitState::Uninitialized,
        }
    }
}

impl Default for GamepadContext {
    fn default() -> (context: GamepadContext)
        ensures
            context == GamepadContext::fresh(),
    {
        GamepadContext {
            cal_data: CalibrationData::default(),
            init_state: GamepadInitState::Uninitialized,
        }
    }
}

} // verus!
