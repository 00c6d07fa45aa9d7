//! The session layer: outbound command encoding, the per-kind reply
//! queues, the fixed-capacity device table, and the initialization
//! handshake, written as a step machine so that the decisions are
//! verified while the transport writes stay with the caller.

use vstd::prelude::*;
use vstd::string::StringExecFns;

use std::time::Duration;

use crate::device::{AcknowledgeType, Datagram, MacAddr6, SensorInfo, Response, UniSensorDevice};
use crate::result::{PlaceholderError, UnimotionError};

verus! {

/// Capacity of the device table; ids at or above it never occupy a slot.
pub const MAX_UNISENSOR_COUNT: usize = 24;

// ---------------------------------------------------------------------------
// Outbound commands
// ---------------------------------------------------------------------------
/// Every request the station understands. Encoding to the canonical ASCII
/// line is pure and total; a fresh value is built per send.
///
/// Commands do not round-trip through the line parser: `parse` classifies
/// device-originated replies (`_si`, `_dev`, `_ch`, `_auto_off`, `_ok`,
/// `_datamode` and bare telemetry), never command texts, so feeding a
/// command's own text back yields `Error`. Only device replies round-trip
/// (see the reply round-trip lemmas in the parsing module).
#[derive(Debug, Clone, Copy, Hash, PartialEq, Eq)]
pub enum Command {
    RestartAP,
    Alive,
    ListSensor,
    StartWifi,
    QuitConfig,
    RequestSensorInfo(u8),
    AliveNoResponse,
    EnableAhrs(u8),
    DisableAhrs(u8),
    Set60FPS(u8),
    Set60FPSLowPower(u8),
    Set70FPS(u8),
    Set144FPS(u8),
    PowerOffSensor(u8),
    RestartSensor(u8),
    StartMagneticCalibration(u8),
    StopMagneticCalibration(u8),
    SetMagneticThreshold(u8, u8, u8),
    SensorConfig(u8),
    Config(u8),
    InitializeCalibration(u8),
    Restart(u8),
    SavePairing,
}

pub open spec fn digit_char(d: u8) -> char {
    if d == 0 {
        '0'
    } else if d == 1 {
        '1'
    } else if d == 2 {
        '2'
    } else if d == 3 {
        '3'
    } else if d == 4 {
        '4'
    } else if d == 5 {
        '5'
    } else if d == 6 {
        '6'
    } else if d == 7 {
        '7'
    } else if d == 8 {
        '8'
    } else {
        '9'
    }
}

/// The shortest decimal text of a byte, as command lines carry it.
pub open spec fn dec_chars(n: u8) -> Seq<char> {
    if n < 10 {
        seq![digit_char(n)]
    } else if n < 100 {
        seq![digit_char(n / 10), digit_char(n % 10)]
    } else {
        seq![digit_char(n / 100), digit_char((n / 10) % 10), digit_char(n % 10)]
    }
}

/// The canonical ASCII text of each command (without the line
/// terminator, which the sender appends).
pub open spec fn spec_as_str(c: Command) -> Seq<char> {
    match c {
        Command::RestartAP => "_aprestart"@,
        Command::Alive => "_alive"@,
        Command::ListSensor => "_sensorlist"@,
        Command::StartWifi => "_wifistart"@,
        Command::QuitConfig => "_quitconfig"@,
        Command::RequestSensorInfo(id) => "__sensinfo id:"@ + dec_chars(id) + ":b"@,
        Command::AliveNoResponse => "_alive_nores"@,
        Command::EnableAhrs(id) => "_setahrsmode id:"@ + dec_chars(id) + ":b 0"@,
        Command::DisableAhrs(id) => "_setahrsmode id:"@ + dec_chars(id) + ":b 1"@,
        Command::Set60FPS(id) => "_setmode id:"@ + dec_chars(id) + ":b 3 2 0 4"@,
        Command::Set60FPSLowPower(id) => "_setmode id:"@ + dec_chars(id) + ":b 4 2 11 4"@,
        Command::Set70FPS(id) => "_setmode id:"@ + dec_chars(id) + ":b 0 9 19 0"@,
        Command::Set144FPS(id) => "_setmode id:"@ + dec_chars(id) + ":b 2 4 30 4"@,
        Command::PowerOffSensor(id) => "_sensoff id:"@ + dec_chars(id) + ":b"@,
        Command::RestartSensor(id) => "_restart id:"@ + dec_chars(id) + ":b"@,
        Command::StartMagneticCalibration(id) => "_start_mag_calib id:"@ + dec_chars(id) + ":b"@,
        Command::StopMagneticCalibration(id) => "_stop_mag_calib id:"@ + dec_chars(id) + ":b"@,
        Command::SetMagneticThreshold(id, min, max) => "_set_mag_th id:"@ + dec_chars(id) + ":b "@
            + dec_chars(min) + " "@ + dec_chars(max),
        Command::SensorConfig(id) => "_sensconf id:"@ + dec_chars(id) + ":b"@,
        Command::Config(_) => "_config"@,
        Command::InitializeCalibration(id) => "_initcalibration id:"@ + dec_chars(id),
        Command::Restart(id) => "_restart id:"@ + dec_chars(id),
        Command::SavePairing => "_savepairing"@,
    }
}

fn push_digit(s: &mut String, d: u8)
    requires
        d < 10,
    ensures
        final(s)@ == old(s)@ + seq![digit_char(d)],
{
    proof {
        reveal_strlit("0");
        reveal_strlit("1");
        reveal_strlit("2");
        reveal_strlit("3");
        reveal_strlit("4");
        reveal_strlit("5");
        reveal_strlit("6");
        reveal_strlit("7");
        reveal_strlit("8");
        reveal_strlit("9");
    }
    if d == 0 {
        s.append("0");
        proof {
            assert("0"@ =~= seq![digit_char(0)]);
        }
    } else if d == 1 {
        s.append("1");
        proof {
            assert("1"@ =~= seq![digit_char(1)]);
        }
    } else if d == 2 {
        s.append("2");
        proof {
            assert("2"@ =~= seq![digit_char(2)]);
        }
    } else if d == 3 {
        s.append("3");
        proof {
            assert("3"@ =~= seq![digit_char(3)]);
        }
    } else if d == 4 {
        s.append("4");
        proof {
            assert("4"@ =~= seq![digit_char(4)]);
        }
    } else if d == 5 {
        s.append("5");
        proof {
            assert("5"@ =~= seq![digit_char(5)]);
        }
    } else if d == 6 {
        s.append("6");
        proof {
            assert("6"@ =~= seq![digit_char(6)]);
        }
    } else if d == 7 {
        s.append("7");
        proof {
            assert("7"@ =~= seq![digit_char(7)]);
        }
    } else if d == 8 {
        s.append("8");
        proof {
            assert("8"@ =~= seq![digit_char(8)]);
        }
    } else {
        s.append("9");
        proof {
            assert("9"@ =~= seq![digit_char(9)]);
        }
    }
}

fn push_dec_u8(s: &mut String, n: u8)
    ensures
        final(s)@ == old(s)@ + dec_chars(n),
{
    if n >= 100 {
        push_digit(s, n / 100);
        push_digit(s, (n / 10) % 10);
        push_digit(s, n % 10);
        proof {
            assert(s@ =~= old(s)@ + dec_chars(n));
        }
    } else if n >= 10 {
        push_digit(s, n / 10);
        push_digit(s, n % 10);
        proof {
            assert(s@ =~= old(s)@ + dec_chars(n));
        }
    } else {
        push_digit(s, n);
        proof {
            assert(s@ =~= old(s)@ + dec_chars(n));
        }
    }
}

fn id_command(prefix: &str, id: u8, suffix: &str) -> (r: String)
    ensures
        r@ == prefix@ + dec_chars(id) + suffix@,
{
    let mut s = String::from_str(prefix);
    push_dec_u8(&mut s, id);
    s.append(suffix);
    s
}

impl Command {
    /// The canonical ASCII line for this command, per the wire-format
    /// table of the protocol. Pure and total.
    pub fn as_str(&self) -> (r: String)
        ensures
            r@ == spec_as_str(*self),
    {
        match self {
            Command::RestartAP => String::from_str("_aprestart"),
            Command::Alive => String::from_str("_alive"),
            Command::ListSensor => String::from_str("_sensorlist"),
            Command::StartWifi => String::from_str("_wifistart"),
            Command::QuitConfig => String::from_str("_quitconfig"),
            Command::RequestSensorInfo(id) => id_command("__sensinfo id:", *id, ":b"),
            Command::AliveNoResponse => String::from_str("_alive_nores"),
            Command::EnableAhrs(id) => id_command("_setahrsmode id:", *id, ":b 0"),
            Command::DisableAhrs(id) => id_command("_setahrsmode id:", *id, ":b 1"),
            Command::Set60FPS(id) => id_command("_setmode id:", *id, ":b 3 2 0 4"),
            Command::Set60FPSLowPower(id) => id_command("_setmode id:", *id, ":b 4 2 11 4"),
            Command::Set70FPS(id) => id_command("_setmode id:", *id, ":b 0 9 19 0"),
            Command::Set144FPS(id) => id_command("_setmode id:", *id, ":b 2 4 30 4"),
            Command::PowerOffSensor(id) => id_command("_sensoff id:", *id, ":b"),
            Command::RestartSensor(id) => id_command("_restart id:", *id, ":b"),
            Command::StartMagneticCalibration(id) => id_command("_start_mag_calib id:", *id, ":b"),
            Command::StopMagneticCalibration(id) => id_command("_stop_mag_calib id:", *id, ":b"),
            Command::SetMagneticThreshold(id, min, max) => {
                let mut s = String::from_str("_set_mag_th id:");
                push_dec_u8(&mut s, *id);
                s.append(":b ");
                push_dec_u8(&mut s, *min);
                s.append(" ");
                push_dec_u8(&mut s, *max);
                s
            },
            Command::SensorConfig(id) => id_command("_sensconf id:", *id, ":b"),
            Command::Config(_) => String::from_str("_config"),
            Command::InitializeCalibration(id) => {
                let mut s = String::from_str("_initcalibration id:");
                push_dec_u8(&mut s, *id);
                s
            },
            Command::Restart(id) => {
                let mut s = String::from_str("_restart id:");
                push_dec_u8(&mut s, *id);
                s
            },
            Command::SavePairing => String::from_str("_savepairing"),
        }
    }
}

/// The USB serial number a station presents, used by callers to pick a
/// port.
#[derive(Debug, PartialEq, Eq, Hash, Clone)]
pub struct UnimotionSerialNumber(pub String);

// ---------------------------------------------------------------------------
// The per-kind reply queues
// ---------------------------------------------------------------------------
/// The consuming half of a reply queue, carried through opaquely.
#[verifier::external_type_specification]
#[verifier::external_body]
#[verifier::reject_recursive_types(T)]
pub struct ExReceiver<T>(crossbeam_channel::Receiver<T>);

/// The producing half of a reply queue, carried through opaquely.
#[verifier::external_type_specification]
#[verifier::external_body]
#[verifier::reject_recursive_types(T)]
pub struct ExSender<T>(crossbeam_channel::Sender<T>);

/// Why a queue receive yielded no value: the wait ran out, or every
/// sender is gone and no value can ever arrive again.
#[derive(Debug, Clone, Copy, Hash, PartialEq, Eq, Structural)]
pub enum ChannelError {
    Timeout,
    Disconnected,
}

/// Relies on `crossbeam_channel::Receiver::recv`: blocks until a value
/// arrives or every sender is gone. Which value arrives depends on the
/// producing thread, so nothing is promised of it.
#[verifier::external_body]
fn recv_from<T>(rx: &crossbeam_channel::Receiver<T>) -> Result<T, ChannelError> {
    match rx.recv() {
        Ok(v) => Ok(v),
        Err(_) => Err(ChannelError::Disconnected),
    }
}

/// Relies on `crossbeam_channel::Receiver::recv_timeout`: like `recv`,
/// bounded by the given wait; the two failure kinds stay distinct.
#[verifier::external_body]
fn recv_timeout_from<T>(rx: &crossbeam_channel::Receiver<T>, timeout: Duration) -> Result<
    T,
    ChannelError,
> {
    match rx.recv_timeout(timeout) {
        Ok(v) => Ok(v),
        Err(crossbeam_channel::RecvTimeoutError::Timeout) => Err(ChannelError::Timeout),
        Err(crossbeam_channel::RecvTimeoutError::Disconnected) => Err(ChannelError::Disconnected),
    }
}

/// Relies on `crossbeam_channel::Receiver::try_recv`: a non-blocking
/// receive; `None` both for a momentarily empty queue and a closed one.
#[verifier::external_body]
fn try_recv_from<T>(rx: &crossbeam_channel::Receiver<T>) -> Option<T> {
    match rx.try_recv() {
        Ok(v) => Some(v),
        Err(crossbeam_channel::TryRecvError::Empty) => None,
        Err(crossbeam_channel::TryRecvError::Disconnected) => None,
    }
}

/// Relies on `crossbeam_channel::Receiver::len`: how many values sit in
/// the queue at this instant (a snapshot; concurrent senders may add
/// more).
#[verifier::external_body]
fn queue_len<T>(rx: &crossbeam_channel::Receiver<T>) -> usize {
    rx.len()
}

/// Discard the values that were pending on a queue when the drain began.
fn drain<T>(rx: &crossbeam_channel::Receiver<T>) {
    let n = queue_len(rx);
    let mut i: usize = 0;
    while i < n
        decreases n - i,
    {
        let _ = try_recv_from(rx);
        i += 1;
    }
}

/// Relies on `crossbeam_channel::Sender::send`: delivery into an
/// unbounded queue fails exactly when every receiver is gone.
#[verifier::external_body]
fn send_to<T>(tx: &crossbeam_channel::Sender<T>, value: T) -> bool {
    match tx.send(value) {
        Ok(()) => true,
        Err(_) => false,
    }
}

/// The consuming ends of the eight per-kind reply queues. Callers waiting
/// for different kinds never interfere; within one queue delivery is FIFO
/// and each value goes to exactly one receiver.
pub struct Channels {
    pub sensor_info_rx: crossbeam_channel::Receiver<(u8, SensorInfo)>,
    pub device_rx: crossbeam_channel::Receiver<(u8, MacAddr6)>,
    pub channel_rx: crossbeam_channel::Receiver<u8>,
    pub auto_off_rx: crossbeam_channel::Receiver<(u8, u64)>,
    pub acknowledge_rx: crossbeam_channel::Receiver<AcknowledgeType>,
    pub datamode_rx: crossbeam_channel::Receiver<u8>,
    pub data_rx: crossbeam_channel::Receiver<Datagram>,
    pub error_rx: crossbeam_channel::Receiver<()>,
}

/// The producing ends of the eight per-kind reply queues, owned by the
/// frame reader.
pub struct Senders {
    pub sensor_info_tx: crossbeam_channel::Sender<(u8, SensorInfo)>,
    pub device_tx: crossbeam_channel::Sender<(u8, MacAddr6)>,
    pub channel_tx: crossbeam_channel::Sender<u8>,
    pub auto_off_tx: crossbeam_channel::Sender<(u8, u64)>,
    pub acknowledge_tx: crossbeam_channel::Sender<AcknowledgeType>,
    pub datamode_tx: crossbeam_channel::Sender<u8>,
    pub data_tx: crossbeam_channel::Sender<Datagram>,
    pub error_tx: crossbeam_channel::Sender<()>,
}

impl Senders {
    /// Deliver one decoded response to the queue of its kind, and to no
    /// other. Returns false when that queue's receivers are all gone,
    /// which the frame reader treats as "downstream gone: stop".
    /// The error queue carries a unit signal, not the failing line.
    pub fn route(&self, r: Response) -> bool {
        match r {
            Response::SensorInfo(id, info) => send_to(&self.sensor_info_tx, (id, info)),
            Response::Device(id, addr) => send_to(&self.device_tx, (id, addr)),
            Response::Channel(channel) => send_to(&self.channel_tx, channel),
            Response::AutoOff(enable, duration) => send_to(&self.auto_off_tx, (enable, duration)),
            Response::Acknowledge(ack) => send_to(&self.acknowledge_tx, ack),
            Response::Datamode(dm) => send_to(&self.datamode_tx, dm),
            Response::Data(data) => send_to(&self.data_tx, data),
            Response::Error => send_to(&self.error_tx, ()),
        }
    }
}

/// Place one received `_dev` pair into the slot of its id: the slot is
/// overwritten with exactly the pair, and an id at or above the capacity
/// changes nothing.
fn place_device(
    res: &mut [(u8, MacAddr6); MAX_UNISENSOR_COUNT],
    id: u8,
    addr: MacAddr6,
)
    ensures
        (id as int) < MAX_UNISENSOR_COUNT ==> final(res)@ == old(res)@.update(
            id as int,
            (id, addr),
        ),
        (id as int) >= MAX_UNISENSOR_COUNT ==> final(res)@ == old(res)@,
{
    if (id as usize) < MAX_UNISENSOR_COUNT {
        res[id as usize] = (id, addr);
        proof {
            assert(res@ =~= old(res)@.update(id as int, (id, addr)));
        }
    }
}

impl Channels {
    /// Pop the next channel-number reply, blocking.
    pub fn get_channel(&self) -> Result<u8, ChannelError> {
        recv_from(&self.channel_rx)
    }

    /// Pop the next channel-number reply, waiting at most `timeout`.
    pub fn get_channel_timeout(&self, timeout: Duration) -> Result<u8, ChannelError> {
        recv_timeout_from(&self.channel_rx, timeout)
    }

    /// Pop the next auto-off reply (enable flag, duration in ms), blocking.
    pub fn get_auto_off(&self) -> Result<(u8, u64), ChannelError> {
        recv_from(&self.auto_off_rx)
    }

    /// Pop the next auto-off reply, waiting at most `timeout`.
    pub fn get_auto_off_timeout(&self, timeout: Duration) -> Result<(u8, u64), ChannelError> {
        recv_timeout_from(&self.auto_off_rx, timeout)
    }

    /// Pop the next acknowledge, blocking.
    pub fn get_acknowledge(&self) -> Result<AcknowledgeType, ChannelError> {
        recv_from(&self.acknowledge_rx)
    }

    /// Pop the next acknowledge, waiting at most `timeout`.
    pub fn get_acknowledge_timeout(&self, timeout: Duration) -> Result<
        AcknowledgeType,
        ChannelError,
    > {
        recv_timeout_from(&self.acknowledge_rx, timeout)
    }

    /// Pop the next data-mode reply, blocking.
    pub fn get_datamode(&self) -> Result<u8, ChannelError> {
        recv_from(&self.datamode_rx)
    }

    /// Pop the next data-mode reply, waiting at most `timeout`.
    pub fn get_datamode_timeout(&self, timeout: Duration) -> Result<u8, ChannelError> {
        recv_timeout_from(&self.datamode_rx, timeout)
    }

    /// Pop the next telemetry frame, blocking.
    pub fn get_data(&self) -> Result<Datagram, ChannelError> {
        recv_from(&self.data_rx)
    }

    /// Pop the next telemetry frame, waiting at most `timeout`.
    pub fn get_data_timeout(&self, timeout: Duration) -> Result<Datagram, ChannelError> {
        recv_timeout_from(&self.data_rx, timeout)
    }

    /// Pop the next sensor-configuration reply, blocking.
    pub fn get_sensor_info(&self) -> Result<(u8, SensorInfo), ChannelError> {
        recv_from(&self.sensor_info_rx)
    }

    /// Pop the next sensor-configuration reply, waiting at most `timeout`.
    pub fn get_sensor_info_timeout(&self, timeout: Duration) -> Result<
        (u8, SensorInfo),
        ChannelError,
    > {
        recv_timeout_from(&self.sensor_info_rx, timeout)
    }

    /// Collect the full device enumeration: 24 `_dev` replies, blocking.
    /// Each received pair lands in the slot of its id (ids at or above the
    /// table capacity are ignored rather than corrupting a slot); slots no
    /// reply named keep the sentinel pair (255, nil). The placement of
    /// each received pair is [`place_device`]'s contract.
    pub fn get_devices(&self) -> (r: Result<
        [(u8, MacAddr6); MAX_UNISENSOR_COUNT],
        ChannelError,
    >)
        ensures
            r matches Ok(t) ==> forall|k: int|
                0 <= k < MAX_UNISENSOR_COUNT ==> ((#[trigger] t@[k]).0 == k as u8 || t@[k] == (
                    255u8,
                    MacAddr6::spec_nil(),
                )),
    {
        let nil_entry: (u8, MacAddr6) = (255, MacAddr6::nil());
        let mut res: [(u8, MacAddr6); MAX_UNISENSOR_COUNT] = vstd::array::array_fill_for_copy_types(
            nil_entry,
        );
        proof {
            vstd::array::axiom_spec_array_fill_for_copy_type::<
                (u8, MacAddr6),
                MAX_UNISENSOR_COUNT,
            >(nil_entry);
        }
        let mut counter: usize = 0;
        while counter < MAX_UNISENSOR_COUNT
            invariant
                counter <= MAX_UNISENSOR_COUNT,
                forall|k: int|
                    0 <= k < MAX_UNISENSOR_COUNT ==> ((#[trigger] res@[k]).0 == k as u8 || res@[k]
                        == (255u8, MacAddr6::spec_nil())),
            decreases MAX_UNISENSOR_COUNT - counter,
        {
            match recv_from(&self.device_rx) {
                Ok((id, addr)) => place_device(&mut res, id, addr),
                Err(e) => {
                    return Err(e);
                },
            }
            counter += 1;
        }
        Ok(res)
    }

    /// Collect the full device enumeration, waiting at most `timeout` per
    /// reply; the first timeout fails the whole collection.
    pub fn get_devices_timeout(&self, timeout: Duration) -> (r: Result<
        [(u8, MacAddr6); MAX_UNISENSOR_COUNT],
        ChannelError,
    >)
        ensures
            r matches Ok(t) ==> forall|k: int|
                0 <= k < MAX_UNISENSOR_COUNT ==> ((#[trigger] t@[k]).0 == k as u8 || t@[k] == (
                    255u8,
                    MacAddr6::spec_nil(),
                )),
    {
        let nil_entry: (u8, MacAddr6) = (255, MacAddr6::nil());
        let mut res: [(u8, MacAddr6); MAX_UNISENSOR_COUNT] = vstd::array::array_fill_for_copy_types(
            nil_entry,
        );
        proof {
            vstd::array::axiom_spec_array_fill_for_copy_type::<
                (u8, MacAddr6),
                MAX_UNISENSOR_COUNT,
            >(nil_entry);
        }
        let mut counter: usize = 0;
        while counter < MAX_UNISENSOR_COUNT
            invariant
                counter <= MAX_UNISENSOR_COUNT,
                forall|k: int|
                    0 <= k < MAX_UNISENSOR_COUNT ==> ((#[trigger] res@[k]).0 == k as u8 || res@[k]
                        == (255u8, MacAddr6::spec_nil())),
            decreases MAX_UNISENSOR_COUNT - counter,
        {
            match recv_timeout_from(&self.device_rx, timeout) {
                Ok((id, addr)) => place_device(&mut res, id, addr),
                Err(e) => {
                    return Err(e);
                },
            }
            counter += 1;
        }
        Ok(res)
    }

    /// Drain and discard the replies pending on all eight queues when the
    /// call is made, so that a stale reply is never mistaken for a fresh
    /// one.
    pub fn flush(&self) {
        drain(&self.sensor_info_rx);
        drain(&self.device_rx);
        drain(&self.channel_rx);
        drain(&self.auto_off_rx);
        drain(&self.acknowledge_rx);
        drain(&self.datamode_rx);
        drain(&self.data_rx);
        drain(&self.error_rx);
    }
}

// ---------------------------------------------------------------------------
// The device table
// ---------------------------------------------------------------------------
/// Which entries count as present: those whose address is not nil.
pub open spec fn present_entries(s: Seq<UniSensorDevice>) -> Seq<UniSensorDevice> {
    s.filter(|d: UniSensorDevice| !d.mac_addr.spec_is_nil())
}

/// The fixed-capacity sensor table, indexed strictly by id, never
/// reordered. A slot is occupied exactly when its address is not nil.
pub struct SensorTable {
    devices: [UniSensorDevice; MAX_UNISENSOR_COUNT],
}

impl View for SensorTable {
    type V = Seq<UniSensorDevice>;

    closed spec fn view(&self) -> Seq<UniSensorDevice> {
        self.devices@
    }
}

impl SensorTable {
    /// Every slot either holds the device of its own id or the empty
    /// entry.
    pub open spec fn wf(&self) -> bool {
        &&& self@.len() == MAX_UNISENSOR_COUNT
        &&& forall|k: int|
            0 <= k < MAX_UNISENSOR_COUNT ==> ((#[trigger] self@[k]).id == k as u8 || self@[k]
                == UniSensorDevice::spec_empty())
    }

    /// A table of 24 empty slots.
    pub fn new() -> (r: SensorTable)
        ensures
            r.wf(),
            forall|k: int|
                0 <= k < MAX_UNISENSOR_COUNT ==> #[trigger] r@[k] == UniSensorDevice::spec_empty(),
    {
        let empty = UniSensorDevice::empty();
        let devices: [UniSensorDevice; MAX_UNISENSOR_COUNT] = vstd::array::array_fill_for_copy_types(
            empty,
        );
        proof {
            vstd::array::axiom_spec_array_fill_for_copy_type::<
                UniSensorDevice,
                MAX_UNISENSOR_COUNT,
            >(empty);
        }
        SensorTable { devices }
    }

    /// Record one enumerated device in the slot of its id. A nil address
    /// or an id beyond the capacity changes nothing.
    pub fn record(&mut self, id: u8, addr: MacAddr6)
        requires
            old(self).wf(),
        ensures
            final(self).wf(),
            addr.spec_is_nil() || id as int >= MAX_UNISENSOR_COUNT ==> final(self)@ == old(self)@,
            !addr.spec_is_nil() && (id as int) < MAX_UNISENSOR_COUNT ==> final(self)@ == old(
                self,
            )@.update(
                id as int,
                UniSensorDevice { id, mac_addr: addr, sensor_info: None },
            ),
    {
        if !addr.is_nil() && (id as usize) < MAX_UNISENSOR_COUNT {
            self.devices[id as usize] = UniSensorDevice { id, mac_addr: addr, sensor_info: None };
            proof {
                assert(self@ =~= old(self)@.update(
                    id as int,
                    UniSensorDevice { id, mac_addr: addr, sensor_info: None },
                ));
            }
        }
    }

    /// Absorb a full device enumeration: each slot named by a non-nil
    /// entry is overwritten with that device, every other slot is kept.
    pub fn apply_devices(&mut self, list: &[(u8, MacAddr6); MAX_UNISENSOR_COUNT])
        requires
            old(self).wf(),
            forall|k: int|
                0 <= k < MAX_UNISENSOR_COUNT ==> ((#[trigger] list@[k]).0 == k as u8 || list@[k]
                    == (255u8, MacAddr6::spec_nil())),
        ensures
            final(self).wf(),
            forall|k: int|
                0 <= k < MAX_UNISENSOR_COUNT ==> #[trigger] final(self)@[k] == (
                if !list@[k].1.spec_is_nil() {
                    UniSensorDevice { id: list@[k].0, mac_addr: list@[k].1, sensor_info: None }
                } else {
                    old(self)@[k]
                }),
    {
        let mut k: usize = 0;
        while k < MAX_UNISENSOR_COUNT
            invariant
                k <= MAX_UNISENSOR_COUNT,
                self.wf(),
                forall|j: int|
                    0 <= j < MAX_UNISENSOR_COUNT ==> ((#[trigger] list@[j]).0 == j as u8 || list@[j]
                        == (255u8, MacAddr6::spec_nil())),
                forall|j: int|
                    0 <= j < k ==> #[trigger] self@[j] == (
                    if !list@[j].1.spec_is_nil() {
                        UniSensorDevice { id: list@[j].0, mac_addr: list@[j].1, sensor_info: None }
                    } else {
                        old(self)@[j]
                    }),
                forall|j: int| k <= j < MAX_UNISENSOR_COUNT ==> #[trigger] self@[j] == old(self)@[j],
            decreases MAX_UNISENSOR_COUNT - k,
        {
            let (id, addr) = list[k];
            self.record(id, addr);
            k += 1;
        }
    }

    /// A point-in-time snapshot of the present devices, in slot order.
    pub fn sensors(&self) -> (r: Vec<UniSensorDevice>)
        ensures
            r@ == present_entries(self@),
    {
        let mut v: Vec<UniSensorDevice> = Vec::new();
        let mut k: usize = 0;
        proof {
            assert(self@.take(0) =~= Seq::<UniSensorDevice>::empty());
            assert(present_entries(self@.take(0)) =~= Seq::<UniSensorDevice>::empty()) by {
                reveal(Seq::filter);
            }
        }
        while k < MAX_UNISENSOR_COUNT
            invariant
                k <= MAX_UNISENSOR_COUNT,
                v@ == present_entries(self@.take(k as int)),
            decreases MAX_UNISENSOR_COUNT - k,
        {
            let d = self.devices[k];
            proof {
                let t = self@.take(k as int + 1);
                assert(t.drop_last() =~= self@.take(k as int));
                assert(t.last() == self@[k as int]);
                reveal(Seq::filter);
            }
            if !d.mac_addr.is_nil() {
                v.push(d);
            }
            k += 1;
        }
        proof {
            assert(self@.take(MAX_UNISENSOR_COUNT as int) =~= self@);
        }
        v
    }

    /// The slot of an id, if the id is within the table's capacity.
    pub fn device_for(&self, id: u8) -> (r: Option<UniSensorDevice>)
        ensures
            (id as int) < MAX_UNISENSOR_COUNT ==> r == Some(self@[id as int]),
            (id as int) >= MAX_UNISENSOR_COUNT ==> r is None,
    {
        if (id as usize) < MAX_UNISENSOR_COUNT {
            Some(self.devices[id as usize])
        } else {
            None
        }
    }
}

// ---------------------------------------------------------------------------
// The initialization handshake
// ---------------------------------------------------------------------------
/// The fixed linear sequence run once at session creation. Each step
/// waits on one queue (after its command, if any, has been written) and
/// the first failure aborts the whole sequence.
#[derive(Debug, Clone, Copy, Hash, PartialEq, Eq, Structural)]
pub enum HandshakeStep {
    RestartAck,
    AwaitChannel,
    AwaitDatamode,
    AwaitAutoOff,
    CollectDevices,
    AliveAck,
    WifiAck,
    QuitAck,
    Complete,
}

/// The successor of each step when it succeeds.
pub open spec fn spec_handshake_next(step: HandshakeStep) -> HandshakeStep {
    match step {
        HandshakeStep::RestartAck => HandshakeStep::AwaitChannel,
        HandshakeStep::AwaitChannel => HandshakeStep::AwaitDatamode,
        HandshakeStep::AwaitDatamode => HandshakeStep::AwaitAutoOff,
        HandshakeStep::AwaitAutoOff => HandshakeStep::CollectDevices,
        HandshakeStep::CollectDevices => HandshakeStep::AliveAck,
        HandshakeStep::AliveAck => HandshakeStep::WifiAck,
        HandshakeStep::WifiAck => HandshakeStep::QuitAck,
        HandshakeStep::QuitAck => HandshakeStep::Complete,
        HandshakeStep::Complete => HandshakeStep::Complete,
    }
}

/// The command to write before waiting on a step, if the step sends one.
pub open spec fn spec_handshake_command(step: HandshakeStep) -> Option<Command> {
    match step {
        HandshakeStep::RestartAck => Some(Command::RestartAP),
        HandshakeStep::AliveAck => Some(Command::Alive),
        HandshakeStep::WifiAck => Some(Command::StartWifi),
        HandshakeStep::QuitAck => Some(Command::QuitConfig),
        _ => None,
    }
}

/// The acknowledge kind a step owes, if it waits for one.
pub open spec fn spec_expected_ack(step: HandshakeStep) -> Option<AcknowledgeType> {
    match step {
        HandshakeStep::RestartAck => Some(AcknowledgeType::RestartAP),
        HandshakeStep::AliveAck => Some(AcknowledgeType::Alive),
        HandshakeStep::WifiAck => Some(AcknowledgeType::StartWifi),
        HandshakeStep::QuitAck => Some(AcknowledgeType::QuitConfig),
        _ => None,
    }
}

/// The command to write before advancing from `step`, if any.
pub fn handshake_command(step: HandshakeStep) -> (r: Option<Command>)
    ensures
        r == spec_handshake_command(step),
{
    match step {
        HandshakeStep::RestartAck => Some(Command::RestartAP),
        HandshakeStep::AliveAck => Some(Command::Alive),
        HandshakeStep::WifiAck => Some(Command::StartWifi),
        HandshakeStep::QuitAck => Some(Command::QuitConfig),
        _ => None,
    }
}

/// The session error for a failed queue receive: a timeout stays
/// distinct from a closed queue, so a caller can tell "timed out waiting"
/// from "reader gone, recreate the session".
pub fn queue_error(e: ChannelError) -> (r: UnimotionError)
    ensures
        e == ChannelError::Timeout ==> r matches UnimotionError::CrossbeamChannelError,
        e == ChannelError::Disconnected ==> r matches UnimotionError::Disconnected,
{
    match e {
        ChannelError::Timeout => UnimotionError::CrossbeamChannelError,
        ChannelError::Disconnected => UnimotionError::Disconnected,
    }
}

/// What an acknowledge-expecting handshake step decides, given what its
/// queue returned: the expected kind passes; any other kind is the
/// mismatch error carrying expected and received, never coerced; a
/// receive that timed out and one whose queue is closed yield distinct
/// errors.
pub fn check_acknowledge(
    expected: AcknowledgeType,
    received: Result<AcknowledgeType, ChannelError>,
) -> (r: Result<(), UnimotionError>)
    ensures
        match received {
            Ok(ack) => if ack == expected {
                r is Ok
            } else {
                r matches Err(
                    UnimotionError::PlaceholderError(
                        PlaceholderError::UnexpectedAckError(e, g),
                    ),
                ) && e == expected && g == ack
            },
            Err(ChannelError::Timeout) => r matches Err(UnimotionError::CrossbeamChannelError),
            Err(ChannelError::Disconnected) => r matches Err(UnimotionError::Disconnected),
        },
{
    match received {
        Ok(ack) => {
            if ack == expected {
                Ok(())
            } else {
                Err(
                    UnimotionError::PlaceholderError(
                        PlaceholderError::UnexpectedAckError(expected, ack),
                    ),
                )
            }
        },
        Err(e) => Err(queue_error(e)),
    }
}

/// Run one handshake step: wait (bounded by `timeout`) on the queue the
/// step owes a reply from, and yield the next step. The caller writes the
/// step's command (see [`handshake_command`]) before calling, and stops
/// at the first error, so a failed step performs no further steps. A
/// timed-out wait and a closed queue stay distinct errors, and a wrong
/// acknowledge carries both the expected and the received kind.
pub fn handshake_advance(
    step: HandshakeStep,
    chls: &Channels,
    table: &mut SensorTable,
    timeout: Duration,
) -> (r: Result<HandshakeStep, UnimotionError>)
    requires
        step != HandshakeStep::Complete,
        old(table).wf(),
    ensures
        final(table).wf(),
        r matches Ok(next) ==> next == spec_handshake_next(step),
        r is Err ==> *final(table) == *old(table),
        step != HandshakeStep::CollectDevices && r is Ok ==> *final(table) == *old(table),
        step == HandshakeStep::CollectDevices && r is Ok ==> forall|k: int|
            0 <= k < MAX_UNISENSOR_COUNT ==> (#[trigger] final(table)@[k] == old(table)@[k] || (
            final(table)@[k].id == k as u8 && !final(table)@[k].mac_addr.spec_is_nil()
                && final(table)@[k].sensor_info is None)),
        r matches Err(
            UnimotionError::PlaceholderError(PlaceholderError::UnexpectedAckError(e, g)),
        ) ==> spec_expected_ack(step) == Some(e) && g != e,
        r is Err ==> (r matches Err(UnimotionError::CrossbeamChannelError) || r matches Err(
            UnimotionError::Disconnected,
        ) || r matches Err(
            UnimotionError::PlaceholderError(PlaceholderError::UnexpectedAckError(..)),
        )),
{
    match step {
        HandshakeStep::RestartAck => {
            match check_acknowledge(
                AcknowledgeType::RestartAP,
                chls.get_acknowledge_timeout(timeout),
            ) {
                Ok(()) => Ok(HandshakeStep::AwaitChannel),
                Err(e) => Err(e),
            }
        },
        HandshakeStep::AwaitChannel => {
            match chls.get_channel_timeout(timeout) {
                Ok(_) => Ok(HandshakeStep::AwaitDatamode),
                Err(e) => Err(queue_error(e)),
            }
        },
        HandshakeStep::AwaitDatamode => {
            match chls.get_datamode_timeout(timeout) {
                Ok(_) => Ok(HandshakeStep::AwaitAutoOff),
                Err(e) => Err(queue_error(e)),
            }
        },
        HandshakeStep::AwaitAutoOff => {
            match chls.get_auto_off_timeout(timeout) {
                Ok(_) => Ok(HandshakeStep::CollectDevices),
                Err(e) => Err(queue_error(e)),
            }
        },
        HandshakeStep::CollectDevices => {
            match chls.get_devices_timeout(timeout) {
                Ok(list) => {
                    table.apply_devices(&list);
                    Ok(HandshakeStep::AliveAck)
                },
                Err(e) => Err(queue_error(e)),
            }
        },
        HandshakeStep::AliveAck => {
            match check_acknowledge(
                AcknowledgeType::Alive,
                chls.get_acknowledge_timeout(timeout),
            ) {
                Ok(()) => Ok(HandshakeStep::WifiAck),
                Err(e) => Err(e),
            }
        },
        HandshakeStep::WifiAck => {
            match check_acknowledge(
                AcknowledgeType::StartWifi,
                chls.get_acknowledge_timeout(timeout),
            ) {
                Ok(()) => Ok(HandshakeStep::QuitAck),
                Err(e) => Err(e),
            }
        },
        HandshakeStep::QuitAck => {
            match check_acknowledge(
                AcknowledgeType::QuitConfig,
                chls.get_acknowledge_timeout(timeout),
            ) {
                Ok(()) => Ok(HandshakeStep::Complete),
                Err(e) => Err(e),
            }
        },
        HandshakeStep::Complete => Ok(HandshakeStep::Complete),
    }
}

} // verus!
