//! The per-device calibration record and the rules by which raw flash
//! contents are folded into it.

use crate::protocol::{
    CAL_BOGUS_VALUE, CAL_DEFAULT_CENTER, CAL_DEFAULT_DEADZONE, CAL_DEFAULT_MAX, CAL_DEFAULT_MIN,
};
use crate::util::{lemma_unpack_values, unpack_first, unpack_second};
use vstd::prelude::*;

verus! {

/// Calibration of one controller: for each stick axis the centre and the
/// absolute lower and upper bounds of travel, the dead zone radius, the range
/// ratio, and the motion sensor fields.
#[derive(Clone, Copy, Debug, PartialEq, Eq)]
pub struct CalibrationData {
    pub lx_center: u16,
    pub lx_min: u16,
    pub lx_max: u16,
    pub ly_center: u16,
    pub ly_min: u16,
    pub ly_max: u16,
    pub rx_center: u16,
    pub rx_min: u16,
    pub rx_max: u16,
    pub ry_center: u16,
    pub ry_min: u16,
    pub ry_max: u16,
    pub dead_zone: u16,
    pub range_ratio: u16,
    pub accelerometer_origin_x: u16,
    pub accelerometer_origin_y: u16,
    pub accelerometer_origin_z: u16,
    pub accelerometer_sensitivity_x: u16,
    pub accelerometer_sensitivity_y: u16,
    pub accelerometer_sensitivity_z: u16,
    pub gyro_origin_x: u16,
    pub gyro_origin_y: u16,
    pub gyro_origin_z: u16,
    pub gyro_sensitivity_x: u16,
    pub gyro_sensitivity_y: u16,
    pub gyro_sensitivity_z: u16,
    pub horizontal_offset_x: u16,
    pub horizontal_offset_y: u16,
    pub horizontal_offset_z: u16,
}

/// The absolute lower bound of travel for a centre and the distance below it
/// that the flash records; a bound that would fall below zero is held at zero.
pub open spec fn lower_bound(center: u16, below: u16) -> u16 {
    if below > center {
        0
    } else {
        (center - below) as u16
    }
}

/// The absolute upper bound of travel for a centre and the distance above it
/// that the flash records. Both are 12-bit values, so the sum fits.
pub open spec fn upper_bound(center: u16, above: u16) -> u16 {
    (center + above) as u16
}

/// Whether the flash marks a stick as never calibrated: the X distance below
/// centre and the Y distance above centre both hold the bogus value.
pub open spec fn is_bogus(x_below: u16, y_above: u16) -> bool {
    x_below == CAL_BOGUS_VALUE && y_above == CAL_BOGUS_VALUE
}

impl CalibrationData {
    /// The calibration of a controller that has reported none: default
    /// bounds, centre and dead zone, everything else zero.
    pub open spec fn spec_default() -> CalibrationData {
        CalibrationData {
            lx_center: CAL_DEFAULT_CENTER,
            lx_min: CAL_DEFAULT_MIN,
            lx_max: CAL_DEFAULT_MAX,
            ly_center: CAL_DEFAULT_CENTER,
            ly_min: CAL_DEFAULT_MIN,
            ly_max: CAL_DEFAULT_MAX,
            rx_center: CAL_DEFAULT_CENTER,
            rx_min: CAL_DEFAULT_MIN,
            rx_max: CAL_DEFAULT_MAX,
            ry_center: CAL_DEFAULT_CENTER,
            ry_min: CAL_DEFAULT_MIN,
            ry_max: CAL_DEFAULT_MAX,
            dead_zone: CAL_DEFAULT_DEADZONE,
            range_ratio: 0,
            accelerometer_origin_x: 0,
            accelerometer_origin_y: 0,
            accelerometer_origin_z: 0,
            accelerometer_sensitivity_x: 0,
            accelerometer_sensitivity_y: 0,
            accelerometer_sensitivity_z: 0,
            gyro_origin_x: 0,
            gyro_origin_y: 0,
            gyro_origin_z: 0,
            gyro_sensitivity_x: 0,
            gyro_sensitivity_y: 0,
            gyro_sensitivity_z: 0,
            horizontal_offset_x: 0,
            horizontal_offset_y: 0,
            horizontal_offset_z: 0,
        }
    }

    /// On every stick axis the centre lies between the bounds.
    pub open spec fn sticks_ordered(self) -> bool {
        &&& self.lx_min <= self.lx_center <= self.lx_max
        &&& self.ly_min <= self.ly_center <= self.ly_max
        &&& self.rx_min <= self.rx_center <= self.rx_max
        &&& self.ry_min <= self.ry_center <= self.ry_max
    }

    /// The left stick holds the default bounds and centre on both axes.
    pub open spec fn left_is_default(self) -> bool {
        &&& self.lx_min == CAL_DEFAULT_MIN && self.lx_center == CAL_DEFAULT_CENTER && self.lx_max
            == CAL_DEFAULT_MAX
        &&& self.ly_min == CAL_DEFAULT_MIN && self.ly_center == CAL_DEFAULT_CENTER && self.ly_max
            == CAL_DEFAULT_MAX
    }

    /// The right stick holds the default bounds and centre on both axes.
    pub open spec fn right_is_default(self) -> bool {
        &&& self.rx_min == CAL_DEFAULT_MIN && self.rx_center == CAL_DEFAULT_CENTER && self.rx_max
            == CAL_DEFAULT_MAX
        &&& self.ry_min == CAL_DEFAULT_MIN && self.ry_center == CAL_DEFAULT_CENTER && self.ry_max
            == CAL_DEFAULT_MAX
    }

    /// This record after the 18 bytes of a stick calibration blob have been
    /// folded in. A stick that the blob marks as bogus gets the defaults; any
    /// other stick gets the blob's centre, and bounds at the recorded
    /// distances from it. Nothing but the twelve stick values changes.
    pub open spec fn with_stick_calibration(self, blob: Seq<u8>) -> CalibrationData {
        let lx_above = unpack_first(blob[0], blob[1]);
        let ly_above = unpack_second(blob[1], blob[2]);
        let lx_center = unpack_first(blob[3], blob[4]);
        let ly_center = unpack_second(blob[4], blob[5]);
        let lx_below = unpack_first(blob[6], blob[7]);
        let ly_below = unpack_second(blob[7], blob[8]);
        let rx_center = unpack_first(blob[9], blob[10]);
        let ry_center = unpack_second(blob[10], blob[11]);
        let rx_below = unpack_first(blob[12], blob[13]);
        let ry_below = unpack_second(blob[13], blob[14]);
        let rx_above = unpack_first(blob[15], blob[16]);
        let ry_above = unpack_second(blob[16], blob[17]);
        let left_bogus = is_bogus(lx_below, ly_above);
        let right_bogus = is_bogus(rx_below, ry_above);
        CalibrationData {
            lx_center: if left_bogus { CAL_DEFAULT_CENTER } else { lx_center },
            lx_min: if left_bogus { CAL_DEFAULT_MIN } else { lower_bound(lx_center, lx_below) },
            lx_max: if left_bogus { CAL_DEFAULT_MAX } else { upper_bound(lx_center, lx_above) },
            ly_center: if left_bogus { CAL_DEFAULT_CENTER } else { ly_center },
            ly_min: if left_bogus { CAL_DEFAULT_MIN } else { lower_bound(ly_center, ly_below) },
            ly_max: if left_bogus { CAL_DEFAULT_MAX } else { upper_bound(ly_center, ly_above) },
            rx_center: if right_bogus { CAL_DEFAULT_CENTER } else { rx_center },
            rx_min: if right_bogus { CAL_DEFAULT_MIN } else { lower_bound(rx_center, rx_below) },
            rx_max: if right_bogus { CAL_DEFAULT_MAX } else { upper_bound(rx_center, rx_above) },
            ry_center: if right_bogus { CAL_DEFAULT_CENTER } else { ry_center },
            ry_min: if right_bogus { CAL_DEFAULT_MIN } else { lower_bound(ry_center, ry_below) },
            ry_max: if right_bogus { CAL_DEFAULT_MAX } else { upper_bound(ry_center, ry_above) },
            ..self
        }
    }

    /// This record after the three-byte parameter pack has been folded in:
    /// the pack's dead zone, or the default where it holds the bogus value, and
    /// the pack's range ratio.
    pub open spec fn with_stick_params(self, params: Seq<u8>) -> CalibrationData {
        let dead_zone = unpack_first(params[0], params[1]);
        let range_ratio = unpack_second(params[1], params[2]);
        CalibrationData {
            dead_zone: if dead_zone == CAL_BOGUS_VALUE { CAL_DEFAULT_DEADZONE } else { dead_zone },
            range_ratio,
            ..self
        }
    }
}

impl Default for CalibrationData {
    fn default() -> (data: CalibrationData)
        ensures
            data == CalibrationData::spec_default(),
    {
        CalibrationData {
            lx_center: CAL_DEFAULT_CENTER,
            lx_min: CAL_DEFAULT_MIN,
            lx_max: CAL_DEFAULT_MAX,
            ly_center: CAL_DEFAULT_CENTER,
            ly_min: CAL_DEFAULT_MIN,
            ly_max: CAL_DEFAULT_MAX,
            rx_center: CAL_DEFAULT_CENTER,
            rx_min: CAL_DEFAULT_MIN,
            rx_max: CAL_DEFAULT_MAX,
            ry_center: CAL_DEFAULT_CENTER,
            ry_min: CAL_DEFAULT_MIN,
            ry_max: CAL_DEFAULT_MAX,
            dead_zone: CAL_DEFAULT_DEADZONE,
            range_ratio: 0,
            accelerometer_origin_x: 0,
            accelerometer_origin_y: 0,
            accelerometer_origin_z: 0,
            accelerometer_sensitivity_x: 0,
            accelerometer_sensitivity_y: 0,
            accelerometer_sensitivity_z: 0,
            gyro_origin_x: 0,
            gyro_origin_y: 0,
            gyro_origin_z: 0,
            gyro_sensitivity_x: 0,
            gyro_sensitivity_y: 0,
            gyro_sensitivity_z: 0,
            horizontal_offset_x: 0,
            horizontal_offset_y: 0,
            horizontal_offset_z: 0,
        }
    }
}

/// Folding a stick calibration blob keeps every centre between its bounds.
/// A stick that the blob marks as bogus ends with the defaults exactly,
/// whatever the rest of the blob holds.
pub proof fn lemma_stick_calibration(data: CalibrationData, blob: Seq<u8>)
    requires
        blob.len() == 18,
    ensures
        data.with_stick_calibration(blob).sticks_ordered(),
        is_bogus(unpack_first(blob[6], blob[7]), unpack_second(blob[1], blob[2]))
            ==> data.with_stick_calibration(blob).left_is_default(),
        is_bogus(unpack_first(blob[12], blob[13]), unpack_second(blob[16], blob[17]))
            ==> data.with_stick_calibration(blob).right_is_default(),
{
    lemma_unpack_values(blob[0], blob[1], blob[2]);
    lemma_unpack_values(blob[3], blob[4], blob[5]);
    lemma_unpack_values(blob[6], blob[7], blob[8]);
    lemma_unpack_values(blob[9], blob[10], blob[11]);
    lemma_unpack_values(blob[12], blob[13], blob[14]);
    lemma_unpack_values(blob[15], blob[16], blob[17]);
}

} // verus!
