//! Value types of the protocol and the fixed-layout binary decoders.

use vstd::prelude::*;

verus! {

/// A 6-byte hardware address, held as plain bytes so that contracts can
/// speak about every octet. The all-zero address is the nil ("no device")
/// sentinel.
#[derive(Debug, Clone, Copy, Hash, PartialEq, Eq, Structural)]
pub struct MacAddr6 {
    pub b0: u8,
    pub b1: u8,
    pub b2: u8,
    pub b3: u8,
    pub b4: u8,
    pub b5: u8,
}

impl View for MacAddr6 {
    type V = Seq<u8>;

    open spec fn view(&self) -> Seq<u8> {
        seq![self.b0, self.b1, self.b2, self.b3, self.b4, self.b5]
    }
}

impl MacAddr6 {
    pub open spec fn spec_new(b0: u8, b1: u8, b2: u8, b3: u8, b4: u8, b5: u8) -> MacAddr6 {
        MacAddr6 { b0, b1, b2, b3, b4, b5 }
    }

    pub fn new(b0: u8, b1: u8, b2: u8, b3: u8, b4: u8, b5: u8) -> (r: MacAddr6)
        ensures
            r == MacAddr6::spec_new(b0, b1, b2, b3, b4, b5),
    {
        MacAddr6 { b0, b1, b2, b3, b4, b5 }
    }

    pub open spec fn spec_nil() -> MacAddr6 {
        MacAddr6 { b0: 0, b1: 0, b2: 0, b3: 0, b4: 0, b5: 0 }
    }

    /// The nil address: all octets zero.
    pub fn nil() -> (r: MacAddr6)
        ensures
            r == MacAddr6::spec_nil(),
    {
        MacAddr6 { b0: 0, b1: 0, b2: 0, b3: 0, b4: 0, b5: 0 }
    }

    pub open spec fn spec_is_nil(&self) -> bool {
        *self == MacAddr6::spec_nil()
    }

    pub fn is_nil(&self) -> (r: bool)
        ensures
            r == self.spec_is_nil(),
    {
        self.b0 == 0 && self.b1 == 0 && self.b2 == 0 && self.b3 == 0 && self.b4 == 0
            && self.b5 == 0
    }
}

/// One quaternion sample. On the wire the four signed 16-bit components
/// arrive little-endian in the order W, Y, Z, X, and the decoded z
/// component has its sign inverted.
#[derive(Debug, Clone, Copy, Hash, Eq, PartialEq, Structural)]
pub struct Quaternion {
    pub x: i16,
    pub y: i16,
    pub z: i16,
    pub w: i16,
}

/// The little-endian 16-bit word formed by two bytes.
pub open spec fn spec_le16(lo: u8, hi: u8) -> u16 {
    (lo + 256 * hi) as u16
}

/// The signed reinterpretation of a 16-bit word (two's complement).
pub open spec fn spec_as_i16(w: u16) -> i16 {
    if w < 0x8000 {
        w as i16
    } else {
        (w - 0x10000) as i16
    }
}

/// Negation on i16 that leaves i16::MIN fixed, since its negation is not
/// representable.
pub open spec fn spec_neg_i16(x: i16) -> i16 {
    if x == i16::MIN {
        i16::MIN
    } else {
        (0 - x) as i16
    }
}

/// What `decode_quaternion` yields on 8 bytes: fields read little-endian at
/// offsets 0 (W), 2 (Y), 4 (Z), 6 (X); z negated.
pub open spec fn spec_decode_quaternion(b: Seq<u8>) -> Quaternion
    recommends
        b.len() == 8,
{
    Quaternion {
        x: spec_as_i16(spec_le16(b[6], b[7])),
        y: spec_as_i16(spec_le16(b[2], b[3])),
        z: spec_neg_i16(spec_as_i16(spec_le16(b[4], b[5]))),
        w: spec_as_i16(spec_le16(b[0], b[1])),
    }
}

fn le16(lo: u8, hi: u8) -> (r: u16)
    ensures
        r == spec_le16(lo, hi),
{
    lo as u16 + 256 * (hi as u16)
}

fn to_signed16(w: u16) -> (r: i16)
    ensures
        r == spec_as_i16(w),
{
    if w < 0x8000 {
        w as i16
    } else {
        ((w as i32) - 0x10000) as i16
    }
}

fn neg16(x: i16) -> (r: i16)
    ensures
        r == spec_neg_i16(x),
{
    if x == i16::MIN {
        x
    } else {
        0 - x
    }
}

/// Decode one quaternion sample from exactly 8 raw bytes.
///
/// Total and deterministic: every 8-byte input yields a value, and the z
/// component is always the (representable) negation of the raw signed
/// word at offset 4.
pub fn decode_quaternion(bytes: &[u8; 8]) -> (q: Quaternion)
    ensures
        q == spec_decode_quaternion(bytes@),
{
    let w = to_signed16(le16(bytes[0], bytes[1]));
    let y = to_signed16(le16(bytes[2], bytes[3]));
    let z = to_signed16(le16(bytes[4], bytes[5]));
    let x = to_signed16(le16(bytes[6], bytes[7]));
    Quaternion { x, y, z: neg16(z), w }
}

/// Decoding a quaternion is total and deterministic over every 8-byte
/// input: x, y and w are the signed little-endian words at offsets 6, 2
/// and 0 taken verbatim, and z is always the wrapping negation of the
/// raw signed word at offset 4 (i16::MIN, whose negation is not
/// representable, stays fixed).
pub proof fn lemma_quaternion_z_inverted(b: Seq<u8>)
    requires
        b.len() == 8,
    ensures
        spec_decode_quaternion(b).z == spec_neg_i16(spec_as_i16(spec_le16(b[4], b[5]))),
        spec_decode_quaternion(b).x == spec_as_i16(spec_le16(b[6], b[7])),
        spec_decode_quaternion(b).y == spec_as_i16(spec_le16(b[2], b[3])),
        spec_decode_quaternion(b).w == spec_as_i16(spec_le16(b[0], b[1])),
{
}

/// Fixed per-sensor configuration snapshot, as carried by an `_si` reply.
#[derive(Debug, Clone, Copy, Hash, Eq, PartialEq, Structural)]
pub struct SensorInfo {
    pub sensor_version: u8,
    pub mystery_value: u8,
    /// The address of the station the sensor is paired with.
    pub mac_address: MacAddr6,
    pub channel: u8,
    pub tx_power: u8,
    pub datamode: u8,
    pub six_axis: bool,
    pub imu_flip: bool,
    /// 255 when the wire form carried no magnetic thresholds.
    pub min_mag_th: u8,
    pub max_mag_th: u8,
}

/// What `decode_sensor_info` yields on 19 or 23 bytes. The magnetic
/// thresholds exist on the wire only in the 23-byte form; the 19-byte form
/// defaults them to the sentinel 255.
pub open spec fn spec_decode_sensor_info(b: Seq<u8>) -> SensorInfo
    recommends
        b.len() == 19 || b.len() == 23,
{
    SensorInfo {
        sensor_version: b[0],
        mystery_value: b[1],
        mac_address: MacAddr6 { b0: b[2], b1: b[3], b2: b[4], b3: b[5], b4: b[6], b5: b[7] },
        channel: b[8],
        tx_power: b[9],
        datamode: b[11],
        six_axis: b[17] & 0x01 != 0,
        imu_flip: b[18] & 0x01 != 0,
        min_mag_th: if b.len() == 23 {
            b[21]
        } else {
            255
        },
        max_mag_th: if b.len() == 23 {
            b[22]
        } else {
            255
        },
    }
}

/// Decode a per-sensor configuration snapshot from its 19- or 23-byte wire
/// form.
pub fn decode_sensor_info(bytes: &[u8]) -> (r: SensorInfo)
    requires
        bytes@.len() == 19 || bytes@.len() == 23,
    ensures
        r == spec_decode_sensor_info(bytes@),
{
    let with_th = bytes.len() == 23;
    SensorInfo {
        sensor_version: bytes[0],
        mystery_value: bytes[1],
        mac_address: MacAddr6::new(bytes[2], bytes[3], bytes[4], bytes[5], bytes[6], bytes[7]),
        channel: bytes[8],
        tx_power: bytes[9],
        datamode: bytes[11],
        six_axis: bytes[17] & 0x01 != 0,
        imu_flip: bytes[18] & 0x01 != 0,
        min_mag_th: if with_th {
            bytes[21]
        } else {
            255
        },
        max_mag_th: if with_th {
            bytes[22]
        } else {
            255
        },
    }
}

/// The thresholds come verbatim from bytes 21 and 22 in the 23-byte form,
/// and are the sentinel 255 in the 19-byte form.
pub proof fn lemma_sensor_info_thresholds(b: Seq<u8>)
    requires
        b.len() == 19 || b.len() == 23,
    ensures
        b.len() == 19 ==> spec_decode_sensor_info(b).min_mag_th == 255
            && spec_decode_sensor_info(b).max_mag_th == 255,
        b.len() == 23 ==> spec_decode_sensor_info(b).min_mag_th == b[21]
            && spec_decode_sensor_info(b).max_mag_th == b[22],
{
}

/// Which commands a device acknowledges, distinguished by the literal text
/// after the `_ok` prefix (empty text means `Alive`).
#[derive(Debug, Clone, Copy, Hash, Eq, PartialEq, Structural)]
pub enum AcknowledgeType {
    Alive,
    RestartAP,
    StartWifi,
    QuitConfig,
}

/// One telemetry frame: up to 4 quaternion slots; slots beyond the number
/// of axes transmitted are absent.
#[derive(Debug, Clone, Hash, Eq, PartialEq)]
pub struct Datagram {
    pub id: u8,
    pub battery_voltage: u8,
    pub quaternions: [Option<Quaternion>; 4],
    pub ahrs_enable: u8,
    pub magnetic_power: u8,
}

/// Why a telemetry frame could not be decoded. Five of the six recognized
/// frame shapes are reserved for future decoding and signal
/// `NotImplemented` rather than guessing a byte layout.
#[derive(Debug, Clone, Copy, Hash, Eq, PartialEq, Structural)]
pub enum DecodeError {
    NotImplemented,
    UnrecognizedLength,
}

/// What `decode_datagram` yields: dispatch on the decoded byte count;
/// only the 20-byte form (two quaternions) is implemented.
pub open spec fn spec_decode_datagram(b: Seq<u8>) -> Result<Datagram, DecodeError> {
    if b.len() == 20 {
        Ok(
            Datagram {
                id: b[0],
                battery_voltage: b[1],
                quaternions: [
                    Some(spec_decode_quaternion(b.subrange(2, 10))),
                    Some(spec_decode_quaternion(b.subrange(10, 18))),
                    None,
                    None,
                ],
                ahrs_enable: b[18],
                magnetic_power: b[19],
            },
        )
    } else if b.len() == 10 || b.len() == 12 || b.len() == 18 || b.len() == 34 || b.len() == 36 {
        Err(DecodeError::NotImplemented)
    } else {
        Err(DecodeError::UnrecognizedLength)
    }
}

fn quaternion_at(bytes: &[u8], off: usize) -> (q: Quaternion)
    requires
        off + 8 <= bytes@.len(),
    ensures
        q == spec_decode_quaternion(bytes@.subrange(off as int, off + 8)),
{
    let raw: [u8; 8] = [
        bytes[off],
        bytes[off + 1],
        bytes[off + 2],
        bytes[off + 3],
        bytes[off + 4],
        bytes[off + 5],
        bytes[off + 6],
        bytes[off + 7],
    ];
    proof {
        assert(raw@ =~= bytes@.subrange(off as int, off + 8));
    }
    decode_quaternion(&raw)
}

/// Decode one telemetry frame from raw bytes. The recognized byte counts
/// are 10, 12, 18, 20, 34 and 36; only the 20-byte form (id, battery, two
/// quaternions, AHRS byte, magnetic byte) is implemented.
pub fn decode_datagram(bytes: &[u8]) -> (r: Result<Datagram, DecodeError>)
    ensures
        r == spec_decode_datagram(bytes@),
{
    if bytes.len() == 20 {
        let q1 = quaternion_at(bytes, 2);
        let q2 = quaternion_at(bytes, 10);
        Ok(
            Datagram {
                id: bytes[0],
                battery_voltage: bytes[1],
                quaternions: [Some(q1), Some(q2), None, None],
                ahrs_enable: bytes[18],
                magnetic_power: bytes[19],
            },
        )
    } else if bytes.len() == 10 || bytes.len() == 12 || bytes.len() == 18 || bytes.len() == 34
        || bytes.len() == 36 {
        Err(DecodeError::NotImplemented)
    } else {
        Err(DecodeError::UnrecognizedLength)
    }
}

impl Datagram {
    /// Decode one telemetry frame; kept as a constructor on the type for
    /// callers that start from the frame bytes.
    pub fn parse_data(bytes: &[u8]) -> (r: Result<Datagram, DecodeError>)
        ensures
            r == spec_decode_datagram(bytes@),
    {
        decode_datagram(bytes)
    }
}

/// A registered sensor: an id below the table capacity, a hardware
/// address, and the last-known configuration snapshot if any. An entry is
/// present exactly when its address is not nil; the empty entry carries
/// the reserved id 255.
#[derive(Debug, Clone, Copy, Hash, Eq, PartialEq, Structural)]
pub struct UniSensorDevice {
    pub id: u8,
    pub mac_addr: MacAddr6,
    pub sensor_info: Option<SensorInfo>,
}

impl UniSensorDevice {
    pub open spec fn spec_empty() -> UniSensorDevice {
        UniSensorDevice { id: 255, mac_addr: MacAddr6::spec_nil(), sensor_info: None }
    }

    /// The unoccupied table entry: reserved id 255 and the nil address.
    pub fn empty() -> (r: UniSensorDevice)
        ensures
            r == UniSensorDevice::spec_empty(),
    {
        UniSensorDevice { id: 255, mac_addr: MacAddr6::nil(), sensor_info: None }
    }
}

/// Every decoded line becomes exactly one of these; classification never
/// fails past `Error`.
#[derive(Debug, PartialEq)]
pub enum Response {
    SensorInfo(u8, SensorInfo),
    Device(u8, MacAddr6),
    Channel(u8),
    AutoOff(u8, u64),
    Acknowledge(AcknowledgeType),
    Datamode(u8),
    Data(Datagram),
    Error,
}

} // verus!
