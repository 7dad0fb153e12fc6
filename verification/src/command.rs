//! Requests to the controller: the subcommand report with its rolling
//! counter, the two flash reads of the initialisation, and the step of the
//! initialisation that decides which of them is due.

use crate::api::GamepadAPI;
use crate::gamepad::GamepadInitState;
use crate::packet::{le_bytes, ReadSpiPacket, SubcommandOutputPacket, SUBCOMMAND_DATA_SIZE};
use crate::protocol::{OutputReportID, SPIAddress, SubcommandID, SPI_READ_LENGTH};
use vstd::prelude::*;

verus! {

/// The counter that follows `counter`: one more, kept to four bits.
pub open spec fn next_counter(counter: u8) -> u8 {
    (((counter as u16 + 1) as u16) & 0x0f) as u8
}

/// The counter after `sends` subcommands, starting from `counter`.
pub open spec fn counter_after(counter: u8, sends: nat) -> u8
    decreases sends,
{
    if sends == 0 {
        counter
    } else {
        next_counter(counter_after(counter, (sends - 1) as nat))
    }
}

/// The 43 bytes of an output report that carries one subcommand: the report
/// identifier, the counter, eight zero bytes of rumble data, the subcommand
/// identifier, and the payload filled up with zeros to 32 bytes.
pub open spec fn subcommand_report(counter: u8, command: u8, payload: Seq<u8>) -> Seq<u8> {
    seq![OutputReportID::RumbleAndSubcommand.spec_code(), counter] + Seq::new(8, |k: int| 0u8)
        + seq![command] + payload + Seq::new(
        (SUBCOMMAND_DATA_SIZE - payload.len()) as nat,
        |k: int| 0u8,
    )
}

/// The payload of a flash read of 18 bytes at `address`.
pub open spec fn spi_read_payload(address: u16) -> Seq<u8> {
    le_bytes(address) + le_bytes(0) + le_bytes(SPI_READ_LENGTH)
}

/// The output report that asks for 18 bytes of flash at the address of
/// `region`.
pub open spec fn spi_read_report(counter: u8, region: SPIAddress) -> Seq<u8> {
    subcommand_report(
        counter,
        SubcommandID::SPIFlashRead.spec_code(),
        spi_read_payload(region.spec_code()),
    )
}

/// The flash region that a device in `state` has to be asked for next, if
/// any.
pub open spec fn due_request(state: GamepadInitState) -> Option<SPIAddress> {
    match state {
        GamepadInitState::Uninitialized => Some(SPIAddress::AnalogStickCalibration),
        GamepadInitState::RequestedAnalogCalibrationOk => Some(SPIAddress::AnalogStickParameters),
        _ => None,
    }
}

/// The state that follows `state` at the end of a poll: a device that has
/// not been asked for anything is now waiting for its stick calibration, an
/// answered calibration request is followed by the request for the stick
/// parameters, and answered parameters complete the initialisation. A
/// device that is waiting, or done, stays as it is.
pub open spec fn advanced(state: GamepadInitState) -> GamepadInitState {
    match state {
        GamepadInitState::Uninitialized => GamepadInitState::RequestedAnalogCalibration,
        GamepadInitState::RequestedAnalogCalibrationOk => GamepadInitState::RequestedAnalogParams,
        GamepadInitState::RequestedAnalogParamsOk => GamepadInitState::Initialized,
        _ => state,
    }
}

/// The counter after the step of a device in `state`: advanced by one where
/// a request is due.
pub open spec fn counter_after_step(counter: u8, state: GamepadInitState) -> u8 {
    if due_request(state) is Some {
        next_counter(counter)
    } else {
        counter
    }
}

/// The bytes to send at the step of a device in `state`, if any.
pub open spec fn request_at_step(counter: u8, state: GamepadInitState) -> Option<Seq<u8>> {
    match due_request(state) {
        Some(region) => Some(spi_read_report(next_counter(counter), region)),
        None => None,
    }
}

/// After any number of sends the counter is the starting value plus that
/// number, modulo 16: the counter bytes of consecutive subcommands count up
/// by one and wrap from 15 to 0.
pub proof fn lemma_counter_sequence(counter: u8, sends: nat)
    requires
        sends >= 1,
    ensures
        counter_after(counter, sends) == (counter + sends) % 16,
        counter_after(counter, sends) <= 0x0f,
    decreases sends,
{
    let before = counter_after(counter, (sends - 1) as nat);
    let after = next_counter(before);
    assert(after == (before + 1) % 16 && after <= 0x0f) by (bit_vector)
        requires
            after == (((before as u16 + 1) as u16) & 0x0f) as u8,
    ;
    if sends > 1 {
        lemma_counter_sequence(counter, (sends - 1) as nat);
    }
}

/// The initialisation never goes back: every step keeps or raises the rank
/// of the state, and a step sends a request exactly when the state was
/// `Uninitialized` or an answered calibration request.
pub proof fn lemma_step_advances(state: GamepadInitState)
    ensures
        advanced(state).rank() >= state.rank(),
        advanced(state).rank() <= state.rank() + 1,
        due_request(state) is Some <==> (state == GamepadInitState::Uninitialized || state
            == GamepadInitState::RequestedAnalogCalibrationOk),
        due_request(advanced(state)) is None,
{
}

impl GamepadAPI {
    /// Builds the output report for one subcommand and advances the rolling
    /// counter, which the report carries in its second byte.
    pub fn subcommand_packet(report_counter: &mut u8, command_id: SubcommandID, buf: &[u8]) -> (packet:
        SubcommandOutputPacket)
        requires
            buf@.len() <= SUBCOMMAND_DATA_SIZE,
        ensures
            *final(report_counter) == next_counter(*old(report_counter)),
            packet@ == subcommand_report(*final(report_counter), command_id.spec_code(), buf@),
            packet.report_counter == *final(report_counter),
    {
        let mut packet = SubcommandOutputPacket::zeroed();
        packet.report_id = OutputReportID::RumbleAndSubcommand.code();
        packet.subcommand_id = command_id.code();
        *report_counter = (((*report_counter as u16) + 1) & 0x0f) as u8;
        packet.report_counter = *report_counter;
        let mut i: usize = 0;
        while i < buf.len()
            invariant
                i <= buf@.len() <= SUBCOMMAND_DATA_SIZE,
                packet.report_id == OutputReportID::RumbleAndSubcommand.spec_code(),
                packet.subcommand_id == command_id.spec_code(),
                packet.report_counter == *report_counter,
                packet.rumble_data@ == Seq::new(8, |k: int| 0u8),
                packet.subcommand_data@.len() == 32,
                forall|k: int| 0 <= k < i ==> packet.subcommand_data@[k] == buf@[k],
                forall|k: int| i <= k < 32 ==> packet.subcommand_data@[k] == 0,
            decreases buf@.len() - i,
        {
            packet.subcommand_data[i] = buf[i];
            i += 1;
        }
        packet
    }

    /// Builds the request for the stick calibration in flash.
    pub fn request_analog_calibration(report_counter: &mut u8) -> (packet: SubcommandOutputPacket)
        ensures
            *final(report_counter) == next_counter(*old(report_counter)),
            packet@ == spi_read_report(
                *final(report_counter),
                SPIAddress::AnalogStickCalibration,
            ),
    {
        let payload = ReadSpiPacket {
            address: SPIAddress::AnalogStickCalibration.code(),
            padding: 0,
            length: SPI_READ_LENGTH,
        };
        let bytes = payload.as_bytes();
        Self::subcommand_packet(report_counter, SubcommandID::SPIFlashRead, &bytes)
    }

    /// Builds the request for the stick parameters in flash.
    pub fn request_analog_params(report_counter: &mut u8) -> (packet: SubcommandOutputPacket)
        ensures
            *final(report_counter) == next_counter(*old(report_counter)),
            packet@ == spi_read_report(*final(report_counter), SPIAddress::AnalogStickParameters),
    {
        let payload = ReadSpiPacket {
            address: SPIAddress::AnalogStickParameters.code(),
            padding: 0,
            length: SPI_READ_LENGTH,
        };
        let bytes = payload.as_bytes();
        Self::subcommand_packet(report_counter, SubcommandID::SPIFlashRead, &bytes)
    }

    /// Takes the step of the initialisation that ends a poll of one device:
    /// moves the state on and, where a request is due, builds it.
    pub fn advance_init_state(init_state: &mut GamepadInitState, report_counter: &mut u8) -> (request:
        Option<SubcommandOutputPacket>)
        ensures
            *final(init_state) == advanced(*old(init_state)),
            *final(report_counter) == counter_after_step(*old(report_counter), *old(init_state)),
            request is Some <==> due_request(*old(init_state)) is Some,
            match request {
                Some(packet) => Some(packet@) == request_at_step(
                    *old(report_counter),
                    *old(init_state),
                ),
                None => request_at_step(*old(report_counter), *old(init_state)) is None,
            },
    {
        match *init_state {
            GamepadInitState::Uninitialized => {
                let packet = Self::request_analog_calibration(report_counter);
                *init_state = GamepadInitState::RequestedAnalogCalibration;
                Some(packet)
            },
            GamepadInitState::RequestedAnalogCalibrationOk => {
                let packet = Self::request_analog_params(report_counter);
                *init_state = GamepadInitState::RequestedAnalogParams;
                Some(packet)
            },
            GamepadInitState::RequestedAnalogParamsOk => {
                *init_state = GamepadInitState::Initialized;
                None
            },
            _ => None,
        }
    }
}

} // verus!
