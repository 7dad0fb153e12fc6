use switch_gamepad::util::{
    clamp_axis, extract_bits, generate_id, is_dead_zone, pack_shorts, to_hex_string,
    unpack_shorts,
};
use switch_gamepad::AxisValue;

fn unpacked(buf: &[u8]) -> (u16, u16) {
    let mut first = 0u16;
    let mut second = 0u16;
    unpack_shorts(buf, &mut first, &mut second);
    (first, second)
}

fn popcount_of(bytes: &[u8]) -> u32 {
    bytes.iter().map(|b| b.count_ones()).sum()
}

#[test]
fn generate_id_counts_up_from_the_counter() {
    let mut counter = 0usize;
    assert_eq!(generate_id(&mut counter), 0);
    assert_eq!(generate_id(&mut counter), 1);
    assert_eq!(generate_id(&mut counter), 2);
    assert_eq!(counter, 3);
}

#[test]
fn generate_id_wraps_after_the_largest_value() {
    let mut counter = usize::MAX;
    assert_eq!(generate_id(&mut counter), usize::MAX);
    assert_eq!(counter, 0);
}

#[test]
fn extract_bits_emits_bit_zero_first() {
    let bits = extract_bits(&[0b0000_0101, 0xff, 0x80], 3);
    let expected: Vec<u8> = vec![
        1, 0, 1, 0, 0, 0, 0, 0, 1, 1, 1, 1, 1, 1, 1, 1, 0, 0, 0, 0, 0, 0, 0, 1,
    ];
    assert_eq!(bits, expected);
}

#[test]
fn extract_bits_reads_only_the_requested_bytes() {
    let bits = extract_bits(&[0x01, 0xff, 0xff], 1);
    assert_eq!(bits, vec![1, 0, 0, 0, 0, 0, 0, 0]);
    assert!(extract_bits(&[0x01, 0xff], 0).is_empty());
    assert!(extract_bits(&[], 0).is_empty());
}

#[test]
fn extract_bits_has_eight_entries_per_byte_and_keeps_the_popcount() {
    let inputs: Vec<Vec<u8>> = vec![
        vec![],
        vec![0x00],
        vec![0xff],
        vec![0x5a, 0xa5],
        vec![0x01, 0x02, 0x04, 0x08, 0x10, 0x20, 0x40, 0x80],
        vec![0xde, 0xad, 0xbe, 0xef, 0x00, 0x7f],
    ];
    for input in inputs {
        let bits = extract_bits(&input, input.len());
        assert_eq!(bits.len(), 8 * input.len());
        assert!(bits.iter().all(|bit| *bit == 0 || *bit == 1));
        let ones: u32 = bits.iter().map(|bit| *bit as u32).sum();
        assert_eq!(ones, popcount_of(&input));
    }
}

#[test]
fn extract_bits_of_every_single_byte() {
    for byte in 0..=255u8 {
        let bits = extract_bits(&[byte], 1);
        assert_eq!(bits.len(), 8);
        for i in 0..8 {
            assert_eq!(bits[i], (byte >> i) & 1);
        }
    }
}

#[test]
fn unpack_shorts_follows_the_wire_packing() {
    assert_eq!(unpacked(&[0x00, 0x08, 0x00]), (0x800, 0x000));
    assert_eq!(unpacked(&[0xbc, 0xfa, 0xde]), (0xabc, 0xdef));
    assert_eq!(unpacked(&[0xff, 0xff, 0xff]), (0xfff, 0xfff));
    assert_eq!(unpacked(&[0x00, 0x00, 0x00]), (0, 0));
    assert_eq!(unpacked(&[0x01, 0x10, 0x00]), (0x001, 0x001));
    assert_eq!(unpacked(&[0x00, 0x0f, 0x00]), (0xf00, 0x000));
    assert_eq!(unpacked(&[0x00, 0xf0, 0x00]), (0x000, 0x00f));
}

#[test]
fn unpack_shorts_ignores_bytes_after_the_third() {
    assert_eq!(unpacked(&[0xbc, 0xfa, 0xde, 0x11, 0x22]), (0xabc, 0xdef));
}

#[test]
fn unpack_shorts_results_fit_in_twelve_bits() {
    for b1 in 0..=255u8 {
        for other in [0x00u8, 0x5a, 0xff] {
            let (first, second) = unpacked(&[other, b1, other]);
            assert!(first <= 0x0fff);
            assert!(second <= 0x0fff);
            assert_eq!(first, ((b1 as u16) % 16) * 256 + other as u16);
            assert_eq!(second, (other as u16) * 16 + (b1 as u16) / 16);
        }
    }
}

#[test]
fn pack_shorts_lays_out_two_twelve_bit_values() {
    assert_eq!(pack_shorts(0x800, 0x000), [0x00, 0x08, 0x00]);
    assert_eq!(pack_shorts(0xabc, 0xdef), [0xbc, 0xfa, 0xde]);
    assert_eq!(pack_shorts(0xfff, 0xfff), [0xff, 0xff, 0xff]);
    assert_eq!(pack_shorts(2000, 2000), [0xd0, 0x07, 0x7d]);
}

#[test]
fn unpack_after_pack_gives_the_low_twelve_bits() {
    let samples: [u16; 12] = [
        0, 1, 0x00f, 0x0f0, 0xf00, 0x7ff, 0x800, 0xfff, 0x1000, 0x1abc, 0xf123, 0xffff,
    ];
    for a in samples {
        for b in samples {
            let packed = pack_shorts(a, b);
            assert_eq!(unpacked(&packed), (a & 0x0fff, b & 0x0fff));
        }
    }
}

#[test]
fn dead_zone_is_a_strict_circle_around_the_centre() {
    assert!(is_dead_zone(2050, 2050, 2050, 2050, 160));
    assert!(is_dead_zone(2050 + 159, 2050, 2050, 2050, 160));
    assert!(!is_dead_zone(2050 + 160, 2050, 2050, 2050, 160));
    assert!(is_dead_zone(2050, 2050 + 159, 2050, 2050, 160));
    assert!(!is_dead_zone(2050, 2050 + 160, 2050, 2050, 160));
    // 96^2 + 128^2 = 160^2, 95^2 + 128^2 < 160^2
    assert!(!is_dead_zone(2050 + 96, 2050 + 128, 2050, 2050, 160));
    assert!(is_dead_zone(2050 + 95, 2050 + 128, 2050, 2050, 160));
}

#[test]
fn dead_zone_handles_samples_below_the_centre() {
    assert!(is_dead_zone(2050 - 159, 2050, 2050, 2050, 160));
    assert!(!is_dead_zone(2050 - 160, 2050, 2050, 2050, 160));
    assert!(is_dead_zone(2048, 2048, 2050, 2050, 160));
    assert!(!is_dead_zone(2048, 0, 2050, 2050, 160));
    assert!(is_dead_zone(2050 - 95, 2050 - 128, 2050, 2050, 160));
    assert!(!is_dead_zone(2050 - 96, 2050 - 128, 2050, 2050, 160));
}

#[test]
fn dead_zone_of_radius_zero_is_empty() {
    assert!(!is_dead_zone(2050, 2050, 2050, 2050, 0));
    assert!(is_dead_zone(2050, 2050, 2050, 2050, 1));
    assert!(!is_dead_zone(2051, 2050, 2050, 2050, 1));
}

#[test]
fn dead_zone_with_large_values_does_not_overflow() {
    assert!(is_dead_zone(2050 + 299, 2050, 2050, 2050, 300));
    assert!(!is_dead_zone(2050 + 300, 2050, 2050, 2050, 300));
    assert!(!is_dead_zone(65535, 65535, 0, 0, 65535));
    assert!(is_dead_zone(65534, 0, 0, 0, 65535));
    assert!(!is_dead_zone(0, 0, 65535, 65535, 65535));
    assert!(is_dead_zone(46340, 46340, 0, 0, 65535));
    assert!(!is_dead_zone(46341, 46341, 0, 0, 65535));
}

#[test]
fn clamp_axis_is_exact_at_the_bounds() {
    assert_eq!(clamp_axis(550, 550, 3550), AxisValue { num: -1, den: 1 });
    assert_eq!(clamp_axis(0, 550, 3550), AxisValue { num: -1, den: 1 });
    assert_eq!(clamp_axis(3550, 550, 3550), AxisValue { num: 1, den: 1 });
    assert_eq!(clamp_axis(4095, 550, 3550), AxisValue { num: 1, den: 1 });
}

#[test]
fn clamp_axis_between_the_bounds_is_the_exact_fraction() {
    assert_eq!(clamp_axis(2048, 550, 3550), AxisValue { num: -4, den: 3000 });
    assert_eq!(clamp_axis(2050, 550, 3550), AxisValue { num: 0, den: 3000 });
    assert_eq!(clamp_axis(551, 550, 3550), AxisValue { num: -2998, den: 3000 });
    assert_eq!(clamp_axis(3549, 550, 3550), AxisValue { num: 2998, den: 3000 });
    assert_eq!(clamp_axis(65534, 0, 65535), AxisValue { num: 65533, den: 65535 });
}

#[test]
fn clamp_axis_midpoint_is_zero_only_for_an_even_span() {
    // even span: the midpoint is hit exactly
    assert_eq!(clamp_axis((100 + 200) / 2, 100, 200).num, 0);
    assert_eq!(clamp_axis((0 + 2) / 2, 0, 2).num, 0);
    // odd span: the rounded midpoint lies just below zero
    assert_eq!(clamp_axis((100 + 203) / 2, 100, 203), AxisValue { num: -1, den: 103 });
    assert_eq!(clamp_axis((0 + 3) / 2, 0, 3), AxisValue { num: -1, den: 3 });
    // span one: the rounded midpoint is the lower bound itself
    assert_eq!(clamp_axis((7 + 8) / 2, 7, 8), AxisValue { num: -1, den: 1 });
}

#[test]
fn clamp_axis_stays_within_minus_one_and_one() {
    let bounds: [(u16, u16); 6] = [(550, 3550), (0, 1), (0, 65535), (10, 10), (3550, 550), (7, 8)];
    let values: [u16; 9] = [0, 1, 7, 8, 10, 550, 2050, 3550, 65535];
    for (min, max) in bounds {
        for value in values {
            let axis = clamp_axis(value, min, max);
            assert!(axis.den > 0);
            assert!(-axis.den <= axis.num && axis.num <= axis.den);
        }
    }
}

#[test]
fn clamp_axis_never_divides_by_an_empty_span() {
    assert_eq!(clamp_axis(10, 10, 10), AxisValue { num: -1, den: 1 });
    assert_eq!(clamp_axis(9, 10, 10), AxisValue { num: -1, den: 1 });
    assert_eq!(clamp_axis(11, 10, 10), AxisValue { num: 1, den: 1 });
    assert_eq!(clamp_axis(5, 10, 3), AxisValue { num: -1, den: 1 });
    assert_eq!(clamp_axis(20, 10, 3), AxisValue { num: 1, den: 1 });
}

#[test]
fn axis_value_at_rest_is_zero() {
    assert_eq!(AxisValue::rest(), AxisValue { num: 0, den: 1 });
}

#[test]
fn hex_string_has_two_digits_and_a_space_per_byte() {
    assert_eq!(to_hex_string(&[0x00, 0xff, 0x0a]), "00 ff 0a ");
    assert_eq!(to_hex_string(&[0x3f]), "3f ");
    assert_eq!(to_hex_string(&[]), "");
    assert_eq!(
        to_hex_string(&[0x01, 0x23, 0x45, 0x67, 0x89, 0xab, 0xcd, 0xef]),
        "01 23 45 67 89 ab cd ef "
    );
}

#[test]
fn hex_string_of_every_byte_matches_formatting() {
    for byte in 0..=255u8 {
        assert_eq!(to_hex_string(&[byte]), format!("{:02x} ", byte));
    }
}
