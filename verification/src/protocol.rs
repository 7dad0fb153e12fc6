//! Wire-level constants of the controller protocol: device identifiers,
//! report and subcommand identifiers, flash addresses and calibration
//! defaults.

use vstd::prelude::*;

verus! {

/// USB vendor identifier of Nintendo.
pub const VENDOR_ID_NINTENDO: u16 = 0x057e;

/// Product identifier of the left Joy-Con.
pub const PRODUCT_ID_NINTENDO_JOYCONL: u16 = 0x2006;

/// Product identifier of the right Joy-Con.
pub const PRODUCT_ID_NINTENDO_JOYCONR: u16 = 0x2007;

/// Product identifier of the Pro Controller.
pub const PRODUCT_ID_NINTENDO_PROCON: u16 = 0x2009;

/// Calibration value that marks a slot as never programmed.
pub const CAL_BOGUS_VALUE: u16 = 0x0fff;

/// Dead zone radius used when the controller reports none.
pub const CAL_DEFAULT_DEADZONE: u16 = 160;

/// Lower travel bound used when the controller reports none.
pub const CAL_DEFAULT_MIN: u16 = 550;

/// Stick centre used when the controller reports none.
pub const CAL_DEFAULT_CENTER: u16 = 2050;

/// Upper travel bound used when the controller reports none.
pub const CAL_DEFAULT_MAX: u16 = 3550;

/// Size in bytes of the buffer that input reports are read into.
pub const REPORT_BUF_SIZE: usize = 48;

/// Shortest input report that is decoded at all.
pub const MIN_REPORT_LEN: usize = 12;

/// Number of bytes requested by each flash read of the initialisation.
pub const SPI_READ_LENGTH: u16 = 18;

/// The (vendor, product) pairs of the supported controllers, in the order in
/// which they are registered with the transport.
pub fn device_tuples() -> (pairs: [(u16, u16); 3])
    ensures
        pairs@ == seq![
            (VENDOR_ID_NINTENDO, PRODUCT_ID_NINTENDO_JOYCONL),
            (VENDOR_ID_NINTENDO, PRODUCT_ID_NINTENDO_JOYCONR),
            (VENDOR_ID_NINTENDO, PRODUCT_ID_NINTENDO_PROCON),
        ],
{
    let pairs: [(u16, u16); 3] = [
        (VENDOR_ID_NINTENDO, PRODUCT_ID_NINTENDO_JOYCONL),
        (VENDOR_ID_NINTENDO, PRODUCT_ID_NINTENDO_JOYCONR),
        (VENDOR_ID_NINTENDO, PRODUCT_ID_NINTENDO_PROCON),
    ];
    assert(pairs@ =~= seq![
        (VENDOR_ID_NINTENDO, PRODUCT_ID_NINTENDO_JOYCONL),
        (VENDOR_ID_NINTENDO, PRODUCT_ID_NINTENDO_JOYCONR),
        (VENDOR_ID_NINTENDO, PRODUCT_ID_NINTENDO_PROCON),
    ]);
    pairs
}

/// Identifier of a report sent to the controller.
#[derive(Clone, Copy, Debug, PartialEq, Eq, Structural)]
pub enum OutputReportID {
    RumbleAndSubcommand,
    RumbleOnly,
    Proprietary,
}

impl OutputReportID {
    /// The identifier's byte on the wire.
    pub open spec fn spec_code(self) -> u8 {
        match self {
            OutputReportID::RumbleAndSubcommand => 0x01,
            OutputReportID::RumbleOnly => 0x10,
            OutputReportID::Proprietary => 0x80,
        }
    }

    /// The identifier's byte on the wire.
    #[verifier::when_used_as_spec(spec_code)]
    pub fn code(self) -> (byte: u8)
        ensures
            byte == self.spec_code(),
    {
        match self {
            OutputReportID::RumbleAndSubcommand => 0x01,
            OutputReportID::RumbleOnly => 0x10,
            OutputReportID::Proprietary => 0x80,
        }
    }
}

/// Identifier of a vendor subcommand carried in an output report.
#[derive(Clone, Copy, Debug, PartialEq, Eq, Structural)]
pub enum SubcommandID {
    BluetoothManualPair,
    RequestDeviceInfo,
    SetInputReportMode,
    SetHCIState,
    SPIFlashRead,
    SetPlayerLights,
    SetHomeLight,
    EnableIMU,
    SetIMUSensitivity,
    EnableVibration,
}

impl SubcommandID {
    /// The identifier's byte on the wire.
    pub open spec fn spec_code(self) -> u8 {
        match self {
            SubcommandID::BluetoothManualPair => 0x01,
            SubcommandID::RequestDeviceInfo => 0x02,
            SubcommandID::SetInputReportMode => 0x03,
            SubcommandID::SetHCIState => 0x06,
            SubcommandID::SPIFlashRead => 0x10,
            SubcommandID::SetPlayerLights => 0x30,
            SubcommandID::SetHomeLight => 0x38,
            SubcommandID::EnableIMU => 0x40,
            SubcommandID::SetIMUSensitivity => 0x41,
            SubcommandID::EnableVibration => 0x48,
        }
    }

    /// The subcommand that a byte names, if any.
    pub open spec fn spec_try_from_u8(value: u8) -> Option<SubcommandID> {
        if value == 0x01 {
            Some(SubcommandID::BluetoothManualPair)
        } else if value == 0x02 {
            Some(SubcommandID::RequestDeviceInfo)
        } else if value == 0x03 {
            Some(SubcommandID::SetInputReportMode)
        } else if value == 0x06 {
            Some(SubcommandID::SetHCIState)
        } else if value == 0x10 {
            Some(SubcommandID::SPIFlashRead)
        } else if value == 0x30 {
            Some(SubcommandID::SetPlayerLights)
        } else if value == 0x38 {
            Some(SubcommandID::SetHomeLight)
        } else if value == 0x40 {
            Some(SubcommandID::EnableIMU)
        } else if value == 0x41 {
            Some(SubcommandID::SetIMUSensitivity)
        } else if value == 0x48 {
            Some(SubcommandID::EnableVibration)
        } else {
            None
        }
    }

    /// The identifier's byte on the wire.
    #[verifier::when_used_as_spec(spec_code)]
    pub fn code(self) -> (byte: u8)
        ensures
            byte == self.spec_code(),
    {
        match self {
            SubcommandID::BluetoothManualPair => 0x01,
            SubcommandID::RequestDeviceInfo => 0x02,
            SubcommandID::SetInputReportMode => 0x03,
            SubcommandID::SetHCIState => 0x06,
            SubcommandID::SPIFlashRead => 0x10,
            SubcommandID::SetPlayerLights => 0x30,
            SubcommandID::SetHomeLight => 0x38,
            SubcommandID::EnableIMU => 0x40,
            SubcommandID::SetIMUSensitivity => 0x41,
            SubcommandID::EnableVibration => 0x48,
        }
    }

    /// Recognises a subcommand identifier; any other byte gives `None`.
    #[verifier::when_used_as_spec(spec_try_from_u8)]
    pub fn try_from_u8(value: u8) -> (id: Option<SubcommandID>)
        ensures
            id == Self::spec_try_from_u8(value),
            id matches Some(known) ==> known.spec_code() == value,
            id is None ==> forall|known: SubcommandID| known.spec_code() != value,
    {
        match value {
            0x01 => Some(SubcommandID::BluetoothManualPair),
            0x02 => Some(SubcommandID::RequestDeviceInfo),
            0x03 => Some(SubcommandID::SetInputReportMode),
            0x06 => Some(SubcommandID::SetHCIState),
            0x10 => Some(SubcommandID::SPIFlashRead),
            0x30 => Some(SubcommandID::SetPlayerLights),
            0x38 => Some(SubcommandID::SetHomeLight),
            0x40 => Some(SubcommandID::EnableIMU),
            0x41 => Some(SubcommandID::SetIMUSensitivity),
            0x48 => Some(SubcommandID::EnableVibration),
            _ => None,
        }
    }
}

/// Address of a region in the controller's flash memory.
#[derive(Clone, Copy, Debug, PartialEq, Eq, Structural)]
pub enum SPIAddress {
    ImuCalibration,
    AnalogStickCalibration,
    ImuHorizontalOffsets,
    AnalogStickParameters,
}

impl SPIAddress {
    /// The region's 16-bit address.
    pub open spec fn spec_code(self) -> u16 {
        match self {
            SPIAddress::ImuCalibration => 0x6020,
            SPIAddress::AnalogStickCalibration => 0x603d,
            SPIAddress::ImuHorizontalOffsets => 0x6080,
            SPIAddress::AnalogStickParameters => 0x6086,
        }
    }

    /// The region that a 16-bit address names, if any.
    pub open spec fn spec_try_from_u16(value: u16) -> Option<SPIAddress> {
        if value == 0x6020 {
            Some(SPIAddress::ImuCalibration)
        } else if value == 0x603d {
            Some(SPIAddress::AnalogStickCalibration)
        } else if value == 0x6080 {
            Some(SPIAddress::ImuHorizontalOffsets)
        } else if value == 0x6086 {
            Some(SPIAddress::AnalogStickParameters)
        } else {
            None
        }
    }

    /// The region's 16-bit address.
    #[verifier::when_used_as_spec(spec_code)]
    pub fn code(self) -> (address: u16)
        ensures
            address == self.spec_code(),
    {
        match self {
            SPIAddress::ImuCalibration => 0x6020,
            SPIAddress::AnalogStickCalibration => 0x603d,
            SPIAddress::ImuHorizontalOffsets => 0x6080,
            SPIAddress::AnalogStickParameters => 0x6086,
        }
    }

    /// Recognises a flash region by its address; any other value gives `None`.
    #[verifier::when_used_as_spec(spec_try_from_u16)]
    pub fn try_from_u16(value: u16) -> (region: Option<SPIAddress>)
        ensures
            region == Self::spec_try_from_u16(value),
            region matches Some(known) ==> known.spec_code() == value,
            region is None ==> forall|known: SPIAddress| known.spec_code() != value,
    {
        match value {
            0x6020 => Some(SPIAddress::ImuCalibration),
            0x603d => Some(SPIAddress::AnalogStickCalibration),
            0x6080 => Some(SPIAddress::ImuHorizontalOffsets),
            0x6086 => Some(SPIAddress::AnalogStickParameters),
            _ => None,
        }
    }
}

/// Identifier of a report received from the controller.
#[derive(Clone, Copy, Debug, PartialEq, Eq, Structural)]
pub enum InputReportID {
    SubcommandReply,
    FullControllerState,
    FullControllerAndMcuState,
    SimpleControllerState,
    CommandAck,
}

impl InputReportID {
    /// The identifier's byte on the wire.
    pub open spec fn spec_code(self) -> u8 {
        match self {
            InputReportID::SubcommandReply => 0x21,
            InputReportID::FullControllerState => 0x30,
            InputReportID::FullControllerAndMcuState => 0x31,
            InputReportID::SimpleControllerState => 0x3f,
            InputReportID::CommandAck => 0x81,
        }
    }

    /// The report kind that a byte names, if any.
    pub open spec fn spec_try_from_u8(value: u8) -> Option<InputReportID> {
        if value == 0x21 {
            Some(InputReportID::SubcommandReply)
        } else if value == 0x30 {
            Some(InputReportID::FullControllerState)
        } else if value == 0x31 {
            Some(InputReportID::FullControllerAndMcuState)
        } else if value == 0x3f {
            Some(InputReportID::SimpleControllerState)
        } else if value == 0x81 {
            Some(InputReportID::CommandAck)
        } else {
            None
        }
    }

    /// The identifier's byte on the wire.
    #[verifier::when_used_as_spec(spec_code)]
    pub fn code(self) -> (byte: u8)
        ensures
            byte == self.spec_code(),
    {
        match self {
            InputReportID::SubcommandReply => 0x21,
            InputReportID::FullControllerState => 0x30,
            InputReportID::FullControllerAndMcuState => 0x31,
            InputReportID::SimpleControllerState => 0x3f,
            InputReportID::CommandAck => 0x81,
        }
    }

    /// Recognises an input report identifier; any other byte gives `None`.
    #[verifier::when_used_as_spec(spec_try_from_u8)]
    pub fn try_from_u8(value: u8) -> (id: Option<InputReportID>)
        ensures
            id == Self::spec_try_from_u8(value),
            id matches Some(known) ==> known.spec_code() == value,
            id is None ==> forall|known: InputReportID| known.spec_code() != value,
    {
        match value {
            0x21 => Some(InputReportID::SubcommandReply),
            0x30 => Some(InputReportID::FullControllerState),
            0x31 => Some(InputReportID::FullControllerAndMcuState),
            0x3f => Some(InputReportID::SimpleControllerState),
            0x81 => Some(InputReportID::CommandAck),
            _ => None,
        }
    }
}

} // verus!
