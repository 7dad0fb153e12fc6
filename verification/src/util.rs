//! Bit and byte helpers shared by the packet codecs and the decoder.

use vstd::prelude::*;

verus! {

/// Hands out the counter's current value and advances the counter by one,
/// starting over from zero after the largest value.
pub fn generate_id(counter: &mut usize) -> (id: usize)
    ensures
        id == *old(counter),
        *final(counter) == (if *old(counter) == usize::MAX {
            0
        } else {
            *old(counter) + 1
        }),
{
    let id: usize = *counter;
    *counter = id.wrapping_add(1);
    id
}

/// Bit `i` of `byte` as 0 or 1, bit 0 being the least significant.
pub open spec fn bit_at(byte: u8, i: u8) -> u8 {
    (byte >> i) & 1
}

/// The bits of `bytes` laid out flat: byte by byte, and within each byte from
/// bit 0 up to bit 7.
pub open spec fn bits_of(bytes: Seq<u8>) -> Seq<u8> {
    Seq::new(8 * bytes.len(), |k: int| bit_at(bytes[k / 8], (k % 8) as u8))
}

/// How many entries of `bits` are 1.
pub open spec fn ones(bits: Seq<u8>) -> nat
    decreases bits.len(),
{
    if bits.len() == 0 {
        0
    } else {
        ones(bits.drop_last()) + (if bits.last() == 1 { 1nat } else { 0nat })
    }
}

/// The number of set bits in `byte`.
pub open spec fn popcount(byte: u8) -> nat
    decreases byte,
{
    if byte == 0 {
        0
    } else {
        (byte % 2) as nat + popcount(byte / 2)
    }
}

/// The number of set bits in all of `bytes`.
pub open spec fn popcount_bytes(bytes: Seq<u8>) -> nat
    decreases bytes.len(),
{
    if bytes.len() == 0 {
        0
    } else {
        popcount_bytes(bytes.drop_last()) + popcount(bytes.last())
    }
}

/// Expands the first `bytes` bytes of `value` into one entry per bit.
pub fn extract_bits(value: &[u8], bytes: usize) -> (bits: Vec<u8>)
    requires
        bytes <= value@.len(),
    ensures
        bits@ == bits_of(value@.take(bytes as int)),
        bits@.len() == 8 * bytes,
{
    let mut bits: Vec<u8> = Vec::new();
    let mut j: usize = 0;
    while j < bytes
        invariant
            j <= bytes <= value@.len(),
            bits@.len() == 8 * j,
            forall|k: int| 0 <= k < 8 * j ==> bits@[k] == bit_at(value@[k / 8], (k % 8) as u8),
        decreases bytes - j,
    {
        let byte: u8 = value[j];
        let mut i: u8 = 0;
        while i < 8
            invariant
                i <= 8,
                j < bytes <= value@.len(),
                byte == value@[j as int],
                bits@.len() == 8 * j + i,
                forall|k: int|
                    0 <= k < 8 * j + i ==> bits@[k] == bit_at(value@[k / 8], (k % 8) as u8),
            decreases 8 - i,
        {
            let mask: u8 = 1u8 << i;
            let bit: u8 = if (byte & mask) != 0 {
                1
            } else {
                0
            };
            assert(bit == (byte >> i) & 1) by (bit_vector)
                requires
                    i < 8,
                    mask == 1u8 << i,
                    bit == (if (byte & mask) != 0 {
                        1u8
                    } else {
                        0u8
                    }),
            ;
            bits.push(bit);
            i += 1;
        }
        j += 1;
    }
    bits
}

/// The ones of a concatenation are the ones of both parts.
proof fn lemma_ones_concat(a: Seq<u8>, b: Seq<u8>)
    ensures
        ones(a + b) == ones(a) + ones(b),
    decreases b.len(),
{
    if b.len() > 0 {
        assert((a + b).drop_last() =~= a + b.drop_last());
        lemma_ones_concat(a, b.drop_last());
    }
}

/// The bits of a byte in arithmetic: bit `i` is the byte divided by two to
/// the power `i`, modulo 2.
pub proof fn lemma_bit_values(byte: u8)
    ensures
        bit_at(byte, 0) == byte % 2,
        bit_at(byte, 1) == (byte / 2) % 2,
        bit_at(byte, 2) == (byte / 4) % 2,
        bit_at(byte, 3) == (byte / 8) % 2,
        bit_at(byte, 4) == (byte / 16) % 2,
        bit_at(byte, 5) == (byte / 32) % 2,
        bit_at(byte, 6) == (byte / 64) % 2,
        bit_at(byte, 7) == (byte / 128) % 2,
{
    assert((byte >> 0u8) & 1 == byte % 2 && (byte >> 1u8) & 1 == (byte / 2) % 2 && (byte >> 2u8) & 1
        == (byte / 4) % 2 && (byte >> 3u8) & 1 == (byte / 8) % 2 && (byte >> 4u8) & 1 == (byte / 16)
        % 2 && (byte >> 5u8) & 1 == (byte / 32) % 2 && (byte >> 6u8) & 1 == (byte / 64) % 2 && (byte
        >> 7u8) & 1 == (byte / 128) % 2) by (bit_vector);
}

/// The eight bits of a byte hold as many ones as the byte has set bits.
proof fn lemma_byte_bits(byte: u8)
    ensures
        ones(bits_of(seq![byte])) == popcount(byte),
{
    let bits = bits_of(seq![byte]);
    let b0 = bit_at(byte, 0);
    let b1 = bit_at(byte, 1);
    let b2 = bit_at(byte, 2);
    let b3 = bit_at(byte, 3);
    let b4 = bit_at(byte, 4);
    let b5 = bit_at(byte, 5);
    let b6 = bit_at(byte, 6);
    let b7 = bit_at(byte, 7);
    lemma_bit_values(byte);
    let low1 = seq![b0];
    let low2 = seq![b0, b1];
    let low3 = seq![b0, b1, b2];
    let low4 = seq![b0, b1, b2, b3];
    let low5 = seq![b0, b1, b2, b3, b4];
    let low6 = seq![b0, b1, b2, b3, b4, b5];
    let low7 = seq![b0, b1, b2, b3, b4, b5, b6];
    assert(low1.drop_last() =~= Seq::<u8>::empty());
    assert(low2.drop_last() =~= low1);
    assert(low3.drop_last() =~= low2);
    assert(low4.drop_last() =~= low3);
    assert(low5.drop_last() =~= low4);
    assert(low6.drop_last() =~= low5);
    assert(low7.drop_last() =~= low6);
    assert(bits.drop_last() =~= low7);
    assert(ones(Seq::<u8>::empty()) == 0);
    assert(ones(low1) == b0);
    assert(ones(low2) == b0 + b1);
    assert(ones(low3) == b0 + b1 + b2);
    assert(ones(low4) == b0 + b1 + b2 + b3);
    assert(ones(low5) == b0 + b1 + b2 + b3 + b4);
    assert(ones(low6) == b0 + b1 + b2 + b3 + b4 + b5);
    assert(ones(low7) == b0 + b1 + b2 + b3 + b4 + b5 + b6);
    lemma_popcount_by_halving(byte);
}

/// The set bits of a byte, counted bit by bit.
proof fn lemma_popcount_by_halving(byte: u8)
    ensures
        popcount(byte) == byte % 2 + (byte / 2) % 2 + (byte / 4) % 2 + (byte / 8) % 2 + (byte / 16)
            % 2 + (byte / 32) % 2 + (byte / 64) % 2 + (byte / 128) % 2,
{
    let h1: u8 = byte / 2;
    let h2: u8 = h1 / 2;
    let h3: u8 = h2 / 2;
    let h4: u8 = h3 / 2;
    let h5: u8 = h4 / 2;
    let h6: u8 = h5 / 2;
    let h7: u8 = h6 / 2;
    let h8: u8 = h7 / 2;
    assert(h2 == byte / 4 && h3 == byte / 8 && h4 == byte / 16 && h5 == byte / 32 && h6 == byte
        / 64 && h7 == byte / 128 && h8 == 0);
    lemma_popcount_step(byte);
    lemma_popcount_step(h1);
    lemma_popcount_step(h2);
    lemma_popcount_step(h3);
    lemma_popcount_step(h4);
    lemma_popcount_step(h5);
    lemma_popcount_step(h6);
    lemma_popcount_step(h7);
}

/// The set bits of a byte are its lowest bit and the set bits of its half.
proof fn lemma_popcount_step(byte: u8)
    ensures
        popcount(byte) == byte % 2 + popcount(byte / 2),
{
}

/// The flat bit vector of a byte string has eight entries per byte, each 0 or
/// 1, and holds as many ones as the bytes have set bits.
pub proof fn lemma_bits_of_popcount(bytes: Seq<u8>)
    ensures
        bits_of(bytes).len() == 8 * bytes.len(),
        forall|k: int| 0 <= k < 8 * bytes.len() ==> #[trigger] bits_of(bytes)[k] <= 1,
        ones(bits_of(bytes)) == popcount_bytes(bytes),
    decreases bytes.len(),
{
    assert forall|k: int| 0 <= k < 8 * bytes.len() implies #[trigger] bits_of(bytes)[k] <= 1 by {
        let byte = bytes[k / 8];
        let i = (k % 8) as u8;
        assert((byte >> i) & 1 <= 1) by (bit_vector);
    }
    if bytes.len() > 0 {
        let front = bytes.drop_last();
        let last = bytes.last();
        lemma_bits_of_popcount(front);
        lemma_byte_bits(last);
        assert(bits_of(bytes) =~= bits_of(front) + bits_of(seq![last]));
        lemma_ones_concat(bits_of(front), bits_of(seq![last]));
    }
}

/// The first 12-bit value of a three-byte pack: the low nibble of the middle
/// byte above the first byte.
pub open spec fn unpack_first(b0: u8, b1: u8) -> u16 {
    (((b1 as u16) << 8) & 0x0f00) | (b0 as u16)
}

/// The second 12-bit value of a three-byte pack: the last byte above the high
/// nibble of the middle byte.
pub open spec fn unpack_second(b1: u8, b2: u8) -> u16 {
    ((b2 as u16) << 4) | ((b1 as u16) >> 4)
}

/// The three bytes that carry the low 12 bits of `a` and of `b`.
pub open spec fn packed(a: u16, b: u16) -> Seq<u8> {
    seq![
        (a & 0xff) as u8,
        (((a >> 8) & 0x0f) | ((b & 0x0f) << 4)) as u8,
        ((b >> 4) & 0xff) as u8,
    ]
}

/// Both values of a pack fit in 12 bits: the first is the low nibble of the
/// middle byte times 256 plus the first byte, the second is the last byte
/// times 16 plus the high nibble of the middle byte.
pub proof fn lemma_unpack_values(b0: u8, b1: u8, b2: u8)
    ensures
        unpack_first(b0, b1) == (b1 % 16) * 256 + b0,
        unpack_second(b1, b2) == b2 * 16 + b1 / 16,
        unpack_first(b0, b1) <= 0x0fff,
        unpack_second(b1, b2) <= 0x0fff,
{
    let first: u16 = (((b1 as u16) << 8) & 0x0f00) | (b0 as u16);
    let second: u16 = ((b2 as u16) << 4) | ((b1 as u16) >> 4);
    assert(first == (b1 % 16) * 256 + b0 && second == b2 * 16 + b1 / 16 && first <= 0x0fff
        && second <= 0x0fff) by (bit_vector)
        requires
            first == (((b1 as u16) << 8) & 0x0f00) | (b0 as u16),
            second == ((b2 as u16) << 4) | ((b1 as u16) >> 4),
    ;
}

/// Reads the two 12-bit values packed into the first three bytes of `buf`.
pub fn unpack_shorts(buf: &[u8], v1: &mut u16, v2: &mut u16)
    requires
        buf@.len() >= 3,
    ensures
        *final(v1) == unpack_first(buf@[0], buf@[1]),
        *final(v2) == unpack_second(buf@[1], buf@[2]),
        *final(v1) == (buf@[1] % 16) * 256 + buf@[0],
        *final(v2) == buf@[2] * 16 + buf@[1] / 16,
        *final(v1) <= 0x0fff,
        *final(v2) <= 0x0fff,
{
    let b0: u8 = buf[0];
    let b1: u8 = buf[1];
    let b2: u8 = buf[2];
    proof {
        lemma_unpack_values(b0, b1, b2);
    }
    *v1 = (((b1 as u16) << 8) & 0x0f00) | (b0 as u16);
    *v2 = ((b2 as u16) << 4) | ((b1 as u16) >> 4);
}

/// Packs the low 12 bits of `a` and of `b` into three bytes.
pub fn pack_shorts(a: u16, b: u16) -> (buf: [u8; 3])
    ensures
        buf@ == packed(a, b),
{
    let b0: u8 = (a & 0xff) as u8;
    let b1: u8 = (((a >> 8) & 0x0f) | ((b & 0x0f) << 4)) as u8;
    let b2: u8 = ((b >> 4) & 0xff) as u8;
    let buf: [u8; 3] = [b0, b1, b2];
    buf
}

/// Unpacking a pack gives back the low 12 bits of both values.
pub proof fn lemma_unpack_packed(a: u16, b: u16)
    ensures
        unpack_first(packed(a, b)[0], packed(a, b)[1]) == a & 0x0fff,
        unpack_second(packed(a, b)[1], packed(a, b)[2]) == b & 0x0fff,
{
    let b0: u8 = (a & 0xff) as u8;
    let b1: u8 = (((a >> 8) & 0x0f) | ((b & 0x0f) << 4)) as u8;
    let b2: u8 = ((b >> 4) & 0xff) as u8;
    assert((((b1 as u16) << 8) & 0x0f00) | (b0 as u16) == a & 0x0fff) by (bit_vector)
        requires
            b0 == (a & 0xff) as u8,
            b1 == (((a >> 8) & 0x0f) | ((b & 0x0f) << 4)) as u8,
    ;
    assert(((b2 as u16) << 4) | ((b1 as u16) >> 4) == b & 0x0fff) by (bit_vector)
        requires
            b1 == (((a >> 8) & 0x0f) | ((b & 0x0f) << 4)) as u8,
            b2 == ((b >> 4) & 0xff) as u8,
    ;
}

/// Whether the sample `(x, y)` lies strictly inside the circle of radius
/// `dead_zone` around the centre.
pub open spec fn in_dead_zone(x: u16, y: u16, x_center: u16, y_center: u16, dead_zone: u16) -> bool {
    (x - x_center) * (x - x_center) + (y - y_center) * (y - y_center) < dead_zone * dead_zone
}

/// Tests whether a stick sample is within the dead zone around its centre.
pub fn is_dead_zone(x: u16, y: u16, x_center: u16, y_center: u16, dead_zone: u16) -> (inside: bool)
    ensures
        inside == in_dead_zone(x, y, x_center, y_center, dead_zone),
{
    let dx: u64 = (if x > x_center {
        x - x_center
    } else {
        x_center - x
    }) as u64;
    let dy: u64 = (if y > y_center {
        y - y_center
    } else {
        y_center - y
    }) as u64;
    let dz: u64 = dead_zone as u64;
    assert(dx * dx <= 0xffff * 0xffff && dx * dx == (x - x_center) * (x - x_center))
        by (nonlinear_arith)
        requires
            dx <= 0xffff,
            dx == x - x_center || dx == x_center - x,
    ;
    assert(dy * dy <= 0xffff * 0xffff && dy * dy == (y - y_center) * (y - y_center))
        by (nonlinear_arith)
        requires
            dy <= 0xffff,
            dy == y - y_center || dy == y_center - y,
    ;
    assert(dz * dz <= 0xffff * 0xffff) by (nonlinear_arith)
        requires
            dz <= 0xffff,
    ;
    dx * dx + dy * dy < dz * dz
}

/// A stick deflection along one axis as an exact fraction `num / den` of full
/// travel, between -1 and +1.
#[derive(Clone, Copy, Debug, PartialEq, Eq, Structural)]
pub struct AxisValue {
    pub num: i32,
    pub den: i32,
}

impl AxisValue {
    /// The denominator is positive and the fraction lies in [-1, +1].
    pub open spec fn wf(self) -> bool {
        self.den > 0 && -self.den <= self.num <= self.den
    }

    /// The fraction is exactly -1.
    pub open spec fn is_low(self) -> bool {
        self.num == -self.den
    }

    /// The fraction is exactly +1.
    pub open spec fn is_high(self) -> bool {
        self.num == self.den
    }

    /// The fraction is exactly 0.
    pub open spec fn is_rest(self) -> bool {
        self.num == 0
    }

    /// The deflection of a stick at rest.
    pub fn rest() -> (axis: AxisValue)
        ensures
            axis == (AxisValue { num: 0, den: 1 }),
    {
        AxisValue { num: 0, den: 1 }
    }
}

/// Where `value` stands between `min` and `max`: -1 at or below `min`, +1 at
/// or above `max`, and `2 * (value - min) / (max - min) - 1` in between.
pub open spec fn axis_position(value: u16, min: u16, max: u16) -> AxisValue {
    if value <= min {
        AxisValue { num: -1i32, den: 1i32 }
    } else if value >= max {
        AxisValue { num: 1i32, den: 1i32 }
    } else {
        AxisValue { num: (2 * (value - min) - (max - min)) as i32, den: (max - min) as i32 }
    }
}

/// Normalises a raw stick sample against the calibrated bounds of its axis.
pub fn clamp_axis(value: u16, min: u16, max: u16) -> (axis: AxisValue)
    ensures
        axis == axis_position(value, min, max),
        axis.wf(),
{
    if value <= min {
        AxisValue { num: -1, den: 1 }
    } else if value >= max {
        AxisValue { num: 1, den: 1 }
    } else {
        let span: i32 = (max - min) as i32;
        let travel: i32 = (value - min) as i32;
        AxisValue { num: 2 * travel - span, den: span }
    }
}

/// A normalised axis lies in [-1, +1]. With a lower bound below the upper
/// bound it is exactly -1 at the lower bound and exactly +1 at the upper
/// bound, and at the midpoint `(min + max) / 2` it is exactly 0 if and only
/// if the span `max - min` is even.
pub proof fn lemma_clamp_axis_range(value: u16, min: u16, max: u16)
    requires
        min < max,
    ensures
        axis_position(value, min, max).wf(),
        value == min ==> axis_position(value, min, max).is_low(),
        value == max ==> axis_position(value, min, max).is_high(),
        value == (min + max) / 2 ==> (axis_position(value, min, max).is_rest() <==> (max - min) % 2
            == 0),
{
}

/// The lower-case hexadecimal digit for a value below 16.
pub open spec fn hex_digit(nibble: u8) -> char {
    if nibble == 0 {
        '0'
    } else if nibble == 1 {
        '1'
    } else if nibble == 2 {
        '2'
    } else if nibble == 3 {
        '3'
    } else if nibble == 4 {
        '4'
    } else if nibble == 5 {
        '5'
    } else if nibble == 6 {
        '6'
    } else if nibble == 7 {
        '7'
    } else if nibble == 8 {
        '8'
    } else if nibble == 9 {
        '9'
    } else if nibble == 10 {
        'a'
    } else if nibble == 11 {
        'b'
    } else if nibble == 12 {
        'c'
    } else if nibble == 13 {
        'd'
    } else if nibble == 14 {
        'e'
    } else {
        'f'
    }
}

/// The text of a byte string in hexadecimal: for each byte its two digits,
/// high nibble first, and a space.
pub open spec fn hex_text(data: Seq<u8>) -> Seq<char> {
    Seq::new(
        3 * data.len(),
        |k: int|
            if k % 3 == 0 {
                hex_digit(data[k / 3] / 16)
            } else if k % 3 == 1 {
                hex_digit(data[k / 3] % 16)
            } else {
                ' '
            },
    )
}

/// The lower-case hexadecimal digit for a value below 16, as text.
fn hex_digit_str(nibble: u8) -> (digit: &'static str)
    requires
        nibble < 16,
    ensures
        digit@ == seq![hex_digit(nibble)],
{
    proof {
        reveal_strlit("0");
        reveal_strlit("1");
        reveal_strlit("2");
        reveal_strlit("3");
        reveal_strlit("4");
        reveal_strlit("5");
        reveal_strlit("6");
        reveal_strlit("7");
        reveal_strlit("8");
        reveal_strlit("9");
        reveal_strlit("a");
        reveal_strlit("b");
        reveal_strlit("c");
        reveal_strlit("d");
        reveal_strlit("e");
        reveal_strlit("f");
    }
    let digit: &'static str = match nibble {
        0 => "0",
        1 => "1",
        2 => "2",
        3 => "3",
        4 => "4",
        5 => "5",
        6 => "6",
        7 => "7",
        8 => "8",
        9 => "9",
        10 => "a",
        11 => "b",
        12 => "c",
        13 => "d",
        14 => "e",
        _ => "f",
    };
    digit
}

/// Renders bytes as lower-case hexadecimal, two digits and a space per byte.
pub fn to_hex_string(data: &[u8]) -> (text: String)
    ensures
        text@ == hex_text(data@),
{
    let mut text = String::new();
    let mut i: usize = 0;
    while i < data.len()
        invariant
            i <= data@.len(),
            text@ == hex_text(data@.take(i as int)),
        decreases data@.len() - i,
    {
        let byte: u8 = data[i];
        text.append(hex_digit_str(byte / 16));
        text.append(hex_digit_str(byte % 16));
        proof {
            reveal_strlit(" ");
        }
        text.append(" ");
        assert(text@ =~= hex_text(data@.take(i + 1)));
        i += 1;
    }
    text
}

} // verus!
