//! Fixed-layout records of the controller protocol and their byte codecs.
//!
//! Every record is tightly packed and little-endian. The view of a record is
//! its image on the wire.

use vstd::prelude::*;

verus! {

/// Wire size of [`SimpleControllerStatePacket`].
pub const SIMPLE_CONTROLLER_STATE_SIZE: usize = 9;

/// Wire size of [`ControllerStatePacket`].
pub const CONTROLLER_STATE_SIZE: usize = 12;

/// Wire size of [`SubcommandInputPacket`].
pub const SUBCOMMAND_INPUT_SIZE: usize = 37;

/// Wire size of [`AnalogStickCalibrationPacket`].
pub const ANALOG_STICK_CALIBRATION_SIZE: usize = 18;

/// Wire size of [`AnalogStickParamsCalibrationPacket`].
pub const ANALOG_STICK_PARAMS_SIZE: usize = 6;

/// Wire size of [`SubcommandOutputPacket`].
pub const SUBCOMMAND_OUTPUT_SIZE: usize = 43;

/// Wire size of [`ReadSpiPacket`].
pub const READ_SPI_SIZE: usize = 6;

/// Largest payload that fits the data field of a subcommand.
pub const SUBCOMMAND_DATA_SIZE: usize = 32;

/// The two bytes of `value`, low byte first.
pub open spec fn le_bytes(value: u16) -> Seq<u8> {
    seq![(value % 256) as u8, (value / 256) as u8]
}

/// The 16-bit value whose low byte is `low` and whose high byte is `high`.
pub open spec fn le_value(low: u8, high: u8) -> u16 {
    (low + 256 * high) as u16
}

/// Copies `N` bytes of `bytes`, starting at `at`, into an array.
fn copy_bytes<const N: usize>(bytes: &[u8], at: usize) -> (out: [u8; N])
    requires
        at + N <= bytes@.len(),
    ensures
        out@ == bytes@.subrange(at as int, at + N),
{
    let mut out: [u8; N] = [0u8; N];
    let mut i: usize = 0;
    while i < N
        invariant
            i <= N,
            at + N <= bytes.len() == bytes@.len(),
            out@.len() == N,
            forall|k: int| 0 <= k < i ==> out@[k] == bytes@[at + k],
        decreases N - i,
    {
        out[i] = bytes[at + i];
        i += 1;
    }
    out
}

/// Buttons and both sticks as every state-carrying report holds them.
#[derive(Clone, Copy, Debug, PartialEq, Eq)]
pub struct SimpleControllerStatePacket {
    pub button_status: [u8; 3],
    pub left_stick: [u8; 3],
    pub right_stick: [u8; 3],
}

impl View for SimpleControllerStatePacket {
    type V = Seq<u8>;

    open spec fn view(&self) -> Seq<u8> {
        self.button_status@ + self.left_stick@ + self.right_stick@
    }
}

impl SimpleControllerStatePacket {
    /// Decodes the record from the front of `bytes`, or gives `None` where
    /// `bytes` is shorter than the record.
    pub fn read_from_prefix(bytes: &[u8]) -> (packet: Option<SimpleControllerStatePacket>)
        ensures
            packet is Some <==> bytes@.len() >= SIMPLE_CONTROLLER_STATE_SIZE,
            packet matches Some(p) ==> {
                &&& p@ == bytes@.take(SIMPLE_CONTROLLER_STATE_SIZE as int)
                &&& p.button_status@ == bytes@.subrange(0, 3)
                &&& p.left_stick@ == bytes@.subrange(3, 6)
                &&& p.right_stick@ == bytes@.subrange(6, 9)
            },
    {
        if bytes.len() < SIMPLE_CONTROLLER_STATE_SIZE {
            return None;
        }
        Some(
            SimpleControllerStatePacket {
                button_status: copy_bytes::<3>(bytes, 0),
                left_stick: copy_bytes::<3>(bytes, 3),
                right_stick: copy_bytes::<3>(bytes, 6),
            },
        )
    }
}

/// The full controller state: a report counter, battery and connection
/// information, the simple state and the vibration code.
#[derive(Clone, Copy, Debug, PartialEq, Eq)]
pub struct ControllerStatePacket {
    pub counter: u8,
    pub battery_and_connection: u8,
    pub simple_state: SimpleControllerStatePacket,
    pub vibration_code: u8,
}

impl View for ControllerStatePacket {
    type V = Seq<u8>;

    open spec fn view(&self) -> Seq<u8> {
        seq![self.counter, self.battery_and_connection] + self.simple_state@ + seq![
            self.vibration_code,
        ]
    }
}

impl ControllerStatePacket {
    /// Decodes the record from the front of `bytes`, or gives `None` where
    /// `bytes` is shorter than the record.
    pub fn read_from_prefix(bytes: &[u8]) -> (packet: Option<ControllerStatePacket>)
        ensures
            packet is Some <==> bytes@.len() >= CONTROLLER_STATE_SIZE,
            packet matches Some(p) ==> {
                &&& p@ == bytes@.take(CONTROLLER_STATE_SIZE as int)
                &&& p.counter == bytes@[0]
                &&& p.battery_and_connection == bytes@[1]
                &&& p.simple_state@ == bytes@.subrange(2, 11)
                &&& p.simple_state.button_status@ == bytes@.subrange(2, 5)
                &&& p.simple_state.left_stick@ == bytes@.subrange(5, 8)
                &&& p.simple_state.right_stick@ == bytes@.subrange(8, 11)
                &&& p.vibration_code == bytes@[11]
            },
    {
        if bytes.len() < CONTROLLER_STATE_SIZE {
            return None;
        }
        Some(
            ControllerStatePacket {
                counter: bytes[0],
                battery_and_connection: bytes[1],
                simple_state: SimpleControllerStatePacket {
                    button_status: copy_bytes::<3>(bytes, 2),
                    left_stick: copy_bytes::<3>(bytes, 5),
                    right_stick: copy_bytes::<3>(bytes, 8),
                },
                vibration_code: bytes[11],
            },
        )
    }
}

/// The reply to a subcommand: the controller state, the acknowledgement, the
/// subcommand identifier and, for a flash read, the address, the length and
/// the data read.
#[derive(Clone, Copy, Debug, PartialEq, Eq)]
pub struct SubcommandInputPacket {
    pub controller_state: ControllerStatePacket,
    pub subcommand_ack: u8,
    pub subcommand_id: u8,
    pub address: u16,
    pub padding: [u8; 2],
    pub length: u8,
    pub subcommand_data: [u8; 18],
}

impl View for SubcommandInputPacket {
    type V = Seq<u8>;

    open spec fn view(&self) -> Seq<u8> {
        self.controller_state@ + seq![self.subcommand_ack, self.subcommand_id] + le_bytes(
            self.address,
        ) + self.padding@ + seq![self.length] + self.subcommand_data@
    }
}

impl SubcommandInputPacket {
    /// Decodes the record from the front of `bytes`, or gives `None` where
    /// `bytes` is shorter than the record.
    pub fn read_from_prefix(bytes: &[u8]) -> (packet: Option<SubcommandInputPacket>)
        ensures
            packet is Some <==> bytes@.len() >= SUBCOMMAND_INPUT_SIZE,
            packet matches Some(p) ==> {
                &&& p@ == bytes@.take(SUBCOMMAND_INPUT_SIZE as int)
                &&& p.controller_state@ == bytes@.subrange(0, 12)
                &&& p.controller_state.simple_state@ == bytes@.subrange(2, 11)
                &&& p.controller_state.simple_state.button_status@ == bytes@.subrange(2, 5)
                &&& p.controller_state.simple_state.left_stick@ == bytes@.subrange(5, 8)
                &&& p.controller_state.simple_state.right_stick@ == bytes@.subrange(8, 11)
                &&& p.subcommand_ack == bytes@[12]
                &&& p.subcommand_id == bytes@[13]
                &&& p.address == le_value(bytes@[14], bytes@[15])
                &&& p.padding@ == bytes@.subrange(16, 18)
                &&& p.length == bytes@[18]
                &&& p.subcommand_data@ == bytes@.subrange(19, 37)
            },
    {
        if bytes.len() < SUBCOMMAND_INPUT_SIZE {
            return None;
        }
        let controller_state = match ControllerStatePacket::read_from_prefix(bytes) {
            Some(state) => state,
            None => {
                return None;
            },
        };
        Some(
            SubcommandInputPacket {
                controller_state,
                subcommand_ack: bytes[12],
                subcommand_id: bytes[13],
                address: (bytes[14] as u16) + 256 * (bytes[15] as u16),
                padding: copy_bytes::<2>(bytes, 16),
                length: bytes[18],
                subcommand_data: copy_bytes::<18>(bytes, 19),
            },
        )
    }
}

/// The stick calibration as the flash holds it: three packs for the left
/// stick (maximum, centre, minimum), then three for the right stick (centre,
/// minimum, maximum).
#[derive(Clone, Copy, Debug, PartialEq, Eq)]
pub struct AnalogStickCalibrationPacket {
    pub l_xy_max: [u8; 3],
    pub l_xy_center: [u8; 3],
    pub l_xy_min: [u8; 3],
    pub r_xy_center: [u8; 3],
    pub r_xy_min: [u8; 3],
    pub r_xy_max: [u8; 3],
}

impl View for AnalogStickCalibrationPacket {
    type V = Seq<u8>;

    open spec fn view(&self) -> Seq<u8> {
        self.l_xy_max@ + self.l_xy_center@ + self.l_xy_min@ + self.r_xy_center@ + self.r_xy_min@
            + self.r_xy_max@
    }
}

impl AnalogStickCalibrationPacket {
    /// Decodes the record from the front of `bytes`, or gives `None` where
    /// `bytes` is shorter than the record.
    pub fn read_from_prefix(bytes: &[u8]) -> (packet: Option<AnalogStickCalibrationPacket>)
        ensures
            packet is Some <==> bytes@.len() >= ANALOG_STICK_CALIBRATION_SIZE,
            packet matches Some(p) ==> {
                &&& p@ == bytes@.take(ANALOG_STICK_CALIBRATION_SIZE as int)
                &&& p.l_xy_max@ == bytes@.subrange(0, 3)
                &&& p.l_xy_center@ == bytes@.subrange(3, 6)
                &&& p.l_xy_min@ == bytes@.subrange(6, 9)
                &&& p.r_xy_center@ == bytes@.subrange(9, 12)
                &&& p.r_xy_min@ == bytes@.subrange(12, 15)
                &&& p.r_xy_max@ == bytes@.subrange(15, 18)
            },
    {
        if bytes.len() < ANALOG_STICK_CALIBRATION_SIZE {
            return None;
        }
        Some(
            AnalogStickCalibrationPacket {
                l_xy_max: copy_bytes::<3>(bytes, 0),
                l_xy_center: copy_bytes::<3>(bytes, 3),
                l_xy_min: copy_bytes::<3>(bytes, 6),
                r_xy_center: copy_bytes::<3>(bytes, 9),
                r_xy_min: copy_bytes::<3>(bytes, 12),
                r_xy_max: copy_bytes::<3>(bytes, 15),
            },
        )
    }
}

/// The stick parameters as the flash holds them: three bytes of padding, then
/// one pack of dead zone and range ratio.
#[derive(Clone, Copy, Debug, PartialEq, Eq)]
pub struct AnalogStickParamsCalibrationPacket {
    pub padding: [u8; 3],
    pub params: [u8; 3],
}

impl View for AnalogStickParamsCalibrationPacket {
    type V = Seq<u8>;

    open spec fn view(&self) -> Seq<u8> {
        self.padding@ + self.params@
    }
}

impl AnalogStickParamsCalibrationPacket {
    /// Decodes the record from the front of `bytes`, or gives `None` where
    /// `bytes` is shorter than the record.
    pub fn read_from_prefix(bytes: &[u8]) -> (packet: Option<AnalogStickParamsCalibrationPacket>)
        ensures
            packet is Some <==> bytes@.len() >= ANALOG_STICK_PARAMS_SIZE,
            packet matches Some(p) ==> {
                &&& p@ == bytes@.take(ANALOG_STICK_PARAMS_SIZE as int)
                &&& p.padding@ == bytes@.subrange(0, 3)
                &&& p.params@ == bytes@.subrange(3, 6)
            },
    {
        if bytes.len() < ANALOG_STICK_PARAMS_SIZE {
            return None;
        }
        Some(
            AnalogStickParamsCalibrationPacket {
                padding: copy_bytes::<3>(bytes, 0),
                params: copy_bytes::<3>(bytes, 3),
            },
        )
    }
}

/// An output report that carries rumble data and one subcommand.
#[derive(Clone, Copy, Debug, PartialEq, Eq)]
pub struct SubcommandOutputPacket {
    pub report_id: u8,
    pub report_counter: u8,
    pub rumble_data: [u8; 8],
    pub subcommand_id: u8,
    pub subcommand_data: [u8; 32],
}

impl View for SubcommandOutputPacket {
    type V = Seq<u8>;

    open spec fn view(&self) -> Seq<u8> {
        seq![self.report_id, self.report_counter] + self.rumble_data@ + seq![self.subcommand_id]
            + self.subcommand_data@
    }
}

impl SubcommandOutputPacket {
    /// The record with every byte zero.
    pub fn zeroed() -> (packet: SubcommandOutputPacket)
        ensures
            packet@ == Seq::new(SUBCOMMAND_OUTPUT_SIZE as nat, |k: int| 0u8),
            packet.report_id == 0,
            packet.report_counter == 0,
            packet.subcommand_id == 0,
            packet.rumble_data@ == Seq::new(8, |k: int| 0u8),
            packet.subcommand_data@ == Seq::new(32, |k: int| 0u8),
    {
        SubcommandOutputPacket {
            report_id: 0,
            report_counter: 0,
            rumble_data: [0u8; 8],
            subcommand_id: 0,
            subcommand_data: [0u8; 32],
        }
    }

    /// The record's image on the wire.
    pub fn as_bytes(&self) -> (bytes: [u8; 43])
        ensures
            bytes@ == self@,
    {
        let mut bytes: [u8; 43] = [0u8; 43];
        bytes[0] = self.report_id;
        bytes[1] = self.report_counter;
        let mut i: usize = 0;
        while i < 8
            invariant
                i <= 8,
                bytes@.len() == 43,
                bytes@[0] == self.report_id,
                bytes@[1] == self.report_counter,
                forall|k: int| 0 <= k < i ==> bytes@[2 + k] == self.rumble_data@[k],
            decreases 8 - i,
        {
            bytes[2 + i] = self.rumble_data[i];
            i += 1;
        }
        bytes[10] = self.subcommand_id;
        let mut j: usize = 0;
        while j < 32
            invariant
                j <= 32,
                bytes@.len() == 43,
                bytes@[0] == self.report_id,
                bytes@[1] == self.report_counter,
                forall|k: int| 0 <= k < 8 ==> bytes@[2 + k] == self.rumble_data@[k],
                bytes@[10] == self.subcommand_id,
                forall|k: int| 0 <= k < j ==> bytes@[11 + k] == self.subcommand_data@[k],
            decreases 32 - j,
        {
            bytes[11 + j] = self.subcommand_data[j];
            j += 1;
        }
        assert(bytes@ =~= self@);
        bytes
    }
}

/// The payload of a flash read: the address, two bytes of padding and the
/// number of bytes to read.
#[derive(Clone, Copy, Debug, PartialEq, Eq)]
pub struct ReadSpiPacket {
    pub address: u16,
    pub padding: u16,
    pub length: u16,
}

impl View for ReadSpiPacket {
    type V = Seq<u8>;

    open spec fn view(&self) -> Seq<u8> {
        le_bytes(self.address) + le_bytes(self.padding) + le_bytes(self.length)
    }
}

impl ReadSpiPacket {
    /// The record's image on the wire.
    pub fn as_bytes(&self) -> (bytes: [u8; 6])
        ensures
            bytes@ == self@,
    {
        let bytes: [u8; 6] = [
            (self.address % 256) as u8,
            (self.address / 256) as u8,
            (self.padding % 256) as u8,
            (self.padding / 256) as u8,
            (self.length % 256) as u8,
            (self.length / 256) as u8,
        ];
        bytes
    }
}

} // verus!
