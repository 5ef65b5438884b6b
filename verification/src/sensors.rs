//! Sensirion SCD30 and Plantower PMS5003 frame handling, and the air quality
//! levels shown on the screen and in the web UI.

use vstd::prelude::*;

use crate::text::str_eq;

verus! {

/// One step of the Sensirion CRC-8 register (polynomial 0x31, MSB first).
pub open spec fn crc_shift(c: u8) -> u8 {
    if c & 0x80u8 != 0 {
        ((c << 1u8) ^ 0x31u8) as u8
    } else {
        (c << 1u8) as u8
    }
}

/// The register after `n` shift steps.
pub open spec fn crc_shifts(c: u8, n: nat) -> u8
    decreases n,
{
    if n == 0 {
        c
    } else {
        crc_shift(crc_shifts(c, (n - 1) as nat))
    }
}

/// The register after feeding one byte.
pub open spec fn crc_feed(c: u8, b: u8) -> u8 {
    crc_shifts(c ^ b, 8)
}

/// Sensirion CRC-8 of a byte sequence: initial value 0xFF, no final xor.
pub open spec fn crc8_spec(data: Seq<u8>) -> u8
    decreases data.len(),
{
    if data.len() == 0 {
        0xFFu8
    } else {
        crc_feed(crc8_spec(data.drop_last()), data.last())
    }
}

/// Sensirion CRC-8 (polynomial 0x31, initial value 0xFF) of `data`.
pub fn crc8(data: &[u8]) -> (crc: u8)
    ensures
        crc == crc8_spec(data@),
{
    let mut crc: u8 = 0xFF;
    let mut i: usize = 0;
    while i < data.len()
        invariant
            i <= data.len(),
            crc == crc8_spec(data@.subrange(0, i as int)),
        decreases data.len() - i,
    {
        let b = data[i];
        let start: u8 = crc ^ b;
        crc = start;
        let mut k: u32 = 0;
        while k < 8
            invariant
                k <= 8,
                crc == crc_shifts(start, k as nat),
            decreases 8 - k,
        {
            if crc & 0x80 != 0 {
                crc = (crc << 1) ^ 0x31;
            } else {
                crc = crc << 1;
            }
            k = k + 1;
        }
        assert(data@.subrange(0, i + 1).drop_last() =~= data@.subrange(0, i as int));
        i = i + 1;
    }
    assert(data@.subrange(0, data.len() as int) =~= data@);
    crc
}

proof fn lemma_crc_shifts_zero(n: nat)
    ensures
        crc_shifts(0u8, n) == 0u8,
    decreases n,
{
    if n > 0 {
        lemma_crc_shifts_zero((n - 1) as nat);
        assert(crc_shift(0u8) == 0u8) by (bit_vector);
    }
}

/// Appending a sequence's own CRC gives a sequence whose CRC is zero: this is
/// the check that a receiver of a Sensirion word can make.
pub proof fn lemma_crc8_append_own(data: Seq<u8>)
    ensures
        crc8_spec(data.push(crc8_spec(data))) == 0u8,
{
    let c = crc8_spec(data);
    assert(data.push(c).drop_last() =~= data);
    assert(c ^ c == 0u8) by (bit_vector);
    lemma_crc_shifts_zero(8);
}

/// Level name of a particulate reading in µg/m³.
pub open spec fn pm_level_spec(v: int) -> Seq<char> {
    if v <= 12 {
        "Good"@
    } else if v <= 35 {
        "Fair"@
    } else if v <= 55 {
        "Poor"@
    } else {
        "Bad"@
    }
}

/// The air quality level of a particulate reading: "Good" up to 12, "Fair" up
/// to 35, "Poor" up to 55, "Bad" above.
pub fn pm_level(v: u16) -> (lvl: &'static str)
    ensures
        lvl@ == pm_level_spec(v as int),
{
    if v <= 12 {
        "Good"
    } else if v <= 35 {
        "Fair"
    } else if v <= 55 {
        "Poor"
    } else {
        "Bad"
    }
}

/// Colour name the web UI uses for a level name.
pub open spec fn level_color_spec(lvl: Seq<char>) -> Seq<char> {
    if lvl == "Good"@ {
        "green"@
    } else if lvl == "Fair"@ {
        "orange"@
    } else if lvl == "Poor"@ || lvl == "Bad"@ {
        "red"@
    } else {
        "darkred"@
    }
}

/// The colour name of a level: green, orange, red, or darkred for anything
/// that is not a level name.
pub fn level_color(lvl: &str) -> (color: &'static str)
    ensures
        color@ == level_color_spec(lvl@),
{
    if str_eq(lvl, "Good") {
        "green"
    } else if str_eq(lvl, "Fair") {
        "orange"
    } else if str_eq(lvl, "Poor") || str_eq(lvl, "Bad") {
        "red"
    } else {
        "darkred"
    }
}

/// Big-endian 16-bit value of two bytes.
pub open spec fn be16(hi: u8, lo: u8) -> int {
    hi as int * 256 + lo as int
}

fn be16_exec(hi: u8, lo: u8) -> (v: u16)
    ensures
        v as int == be16(hi, lo),
{
    let v: u16 = (hi as u16) << 8 | (lo as u16);
    assert(((hi as u16) << 8u16 | (lo as u16)) as int == hi as int * 256 + lo as int) by (bit_vector);
    v
}

/// I2C address of the SCD30.
pub const SCD30_ADDR: u8 = 0x61;

/// A Sensirion command word followed by one argument word and its CRC.
pub open spec fn command_with_arg_spec(cmd: u16, arg: u16) -> Seq<u8> {
    let a = seq![(arg / 256) as u8, (arg % 256) as u8];
    seq![(cmd / 256) as u8, (cmd % 256) as u8, a[0], a[1], crc8_spec(a)]
}

/// The five bytes that send `cmd` with argument `arg` to a Sensirion sensor:
/// command word, argument word, CRC of the argument word.
pub fn command_with_arg(cmd: u16, arg: u16) -> (bytes: Vec<u8>)
    ensures
        bytes@ == command_with_arg_spec(cmd, arg),
{
    let a = [(arg / 256) as u8, (arg % 256) as u8];
    let c = crc8(&a);
    assert(a@ =~= seq![(arg / 256) as u8, (arg % 256) as u8]);
    let v = vec![(cmd / 256) as u8, (cmd % 256) as u8, a[0], a[1], c];
    v
}

/// The argument word of a command arrives intact: read back as a Sensirion
/// word, it gives the argument with a matching CRC.
pub proof fn lemma_command_arg_checks(cmd: u16, arg: u16)
    ensures
        decode_word_spec(command_with_arg_spec(cmd, arg).subrange(2, 5)) == (arg, true),
{
    let b = command_with_arg_spec(cmd, arg).subrange(2, 5);
    assert(b.subrange(0, 2) =~= seq![(arg / 256) as u8, (arg % 256) as u8]);
    assert(be16(b[0], b[1]) == arg);
}

/// The SCD30 "set measurement interval" command for an interval in seconds.
pub fn scd30_interval_command(seconds: u16) -> (bytes: Vec<u8>)
    ensures
        bytes@ == command_with_arg_spec(0x4600, seconds),
{
    command_with_arg(0x4600, seconds)
}

/// The SCD30 "start periodic measurement" command word.
pub fn scd30_start_command() -> (bytes: Vec<u8>)
    ensures
        bytes@ == seq![0x00u8, 0x10u8],
{
    vec![0x00, 0x10]
}

/// A Sensirion word as read from the bus: value and whether its CRC matches.
pub open spec fn decode_word_spec(b: Seq<u8>) -> (u16, bool) {
    (be16(b[0], b[1]) as u16, crc8_spec(b.subrange(0, 2)) == b[2])
}

/// Decodes the first three bytes of `buf` as a Sensirion word: the big-endian
/// value and whether the third byte is the CRC of the first two.
pub fn decode_word(buf: &[u8]) -> (r: (u16, bool))
    requires
        buf@.len() >= 3,
    ensures
        r == decode_word_spec(buf@),
        r.0 as int == be16(buf@[0], buf@[1]),
{
    let v = be16_exec(buf[0], buf[1]);
    let pair = [buf[0], buf[1]];
    assert(pair@ =~= buf@.subrange(0, 2));
    let c = crc8(&pair);
    (v, c == buf[2])
}

/// The SCD30 data-ready status: the big-endian value of the first two bytes
/// of the reply (its CRC is not checked).
pub fn data_ready_value(buf: &[u8]) -> (v: u16)
    requires
        buf@.len() >= 2,
    ensures
        v as int == be16(buf@[0], buf@[1]),
{
    be16_exec(buf[0], buf[1])
}

/// Whether a data-ready status read says that a measurement is waiting.
pub fn is_data_ready(status: Option<u16>) -> (ready: bool)
    ensures
        ready == (status == Some(1u16)),
{
    match status {
        Some(v) => v == 1,
        None => false,
    }
}

/// The 32-bit pattern carried by the two words starting at byte `off` of a
/// measurement frame (CRC bytes skipped).
pub open spec fn float_bits_spec(b: Seq<u8>, off: int) -> u32 {
    (be16(b[off], b[off + 1]) * 65536 + be16(b[off + 3], b[off + 4])) as u32
}

fn float_bits(b: &[u8], off: usize) -> (v: u32)
    requires
        off + 5 <= b@.len(),
    ensures
        v == float_bits_spec(b@, off as int),
{
    let hi = be16_exec(b[off], b[off + 1]) as u32;
    let lo = be16_exec(b[off + 3], b[off + 4]) as u32;
    hi * 65536 + lo
}

/// Splits an 18-byte SCD30 measurement frame into the IEEE-754 bit patterns
/// of CO₂ (ppm), temperature (°C) and relative humidity (%).
pub fn measurement_bits(buf: &[u8]) -> (r: (u32, u32, u32))
    requires
        buf@.len() >= 18,
    ensures
        r == (float_bits_spec(buf@, 0), float_bits_spec(buf@, 6), float_bits_spec(buf@, 12)),
{
    (float_bits(buf, 0), float_bits(buf, 6), float_bits(buf, 12))
}

/// Whether a PMS5003 frame header (0x42 0x4D) starts at `i`.
pub open spec fn pms_header_at(d: Seq<u8>, i: int) -> bool {
    d[i] == 0x42u8 && d[i + 1] == 0x4Du8
}

/// Whether a complete PMS5003 frame can start at `i` among the first `n` bytes.
pub open spec fn pms_frame_at(d: Seq<u8>, n: int, i: int) -> bool {
    0 <= i && i + 31 < n && pms_header_at(d, i)
}

/// The standard-particle PM1.0, PM2.5 and PM10 values of the frame at `i`.
pub open spec fn pms_values_at(d: Seq<u8>, i: int) -> (u16, u16, u16) {
    (
        be16(d[i + 10], d[i + 11]) as u16,
        be16(d[i + 12], d[i + 13]) as u16,
        be16(d[i + 14], d[i + 15]) as u16,
    )
}

/// Finds the first complete PMS5003 frame among the first `n` bytes of `data`
/// and returns its PM1.0, PM2.5 and PM10 values; `None` where there is none.
pub fn parse_pms_frame(data: &[u8], n: usize) -> (r: Option<(u16, u16, u16)>)
    requires
        n <= data@.len(),
    ensures
        r is None <==> !(exists|i: int| pms_frame_at(data@, n as int, i)),
        r matches Some(v) ==> exists|i: int|
            pms_frame_at(data@, n as int, i)
            && v == pms_values_at(data@, i)
            && forall|j: int| 0 <= j < i ==> !pms_frame_at(data@, n as int, j),
{
    let mut i: usize = 0;
    while i < n && n - i > 31
        invariant
            n <= data@.len(),
            i <= n,
            forall|j: int| 0 <= j < i ==> !pms_frame_at(data@, n as int, j),
        decreases n - i,
    {
        if data[i] == 0x42 && data[i + 1] == 0x4D {
            let pm1 = be16_exec(data[i + 10], data[i + 11]);
            let pm25 = be16_exec(data[i + 12], data[i + 13]);
            let pm10 = be16_exec(data[i + 14], data[i + 15]);
            assert(pms_frame_at(data@, n as int, i as int));
            assert((pm1, pm25, pm10) == pms_values_at(data@, i as int));
            return Some((pm1, pm25, pm10));
        }
        i = i + 1;
    }
    assert forall|j: int| !pms_frame_at(data@, n as int, j) by {
        if j >= i {
            assert(!(j + 31 < n));
        }
    }
    None
}

/// A new particulate reading from the bytes the UART returned: the first
/// complete frame's values, taken only when its PM2.5 value is not zero
/// (a zero PM2.5 leaves the previous reading in place).
pub fn fresh_pm_reading(data: &[u8], n: usize) -> (r: Option<(u16, u16, u16)>)
    requires
        n <= data@.len(),
    ensures
        r is Some ==> exists|i: int|
            pms_frame_at(data@, n as int, i)
            && r == Some(pms_values_at(data@, i))
            && forall|j: int| 0 <= j < i ==> !pms_frame_at(data@, n as int, j),
        r matches Some(v) ==> v.1 > 0,
        r is None ==> forall|i: int|
            pms_frame_at(data@, n as int, i) && (forall|j: int| 0 <= j < i ==> !pms_frame_at(data@, n as int, j))
            ==> pms_values_at(data@, i).1 == 0,
{
    match parse_pms_frame(data, n) {
        Some(v) => {
            if v.1 > 0 {
                Some(v)
            } else {
                proof {
                    assert forall|i: int|
                        pms_frame_at(data@, n as int, i) && (forall|j: int| 0 <= j < i ==> !pms_frame_at(data@, n as int, j))
                        implies pms_values_at(data@, i).1 == 0 by {
                        let w = choose|w: int|
                            pms_frame_at(data@, n as int, w)
                            && v == pms_values_at(data@, w)
                            && forall|j: int| 0 <= j < w ==> !pms_frame_at(data@, n as int, j);
                        if w < i {
                            assert(!pms_frame_at(data@, n as int, w));
                        } else if i < w {
                            assert(!pms_frame_at(data@, n as int, i));
                        }
                    }
                }
                None
            }
        },
        None => None,
    }
}

} // verus!
