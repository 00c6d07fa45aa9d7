use std::time::Duration;

use unimotion_rs::device::{
    AcknowledgeType, Datagram, MacAddr6, Response, UniSensorDevice,
};
use unimotion_rs::manager::{
    check_acknowledge, handshake_advance, handshake_command, ChannelError, Channels, Command,
    HandshakeStep, SensorTable, Senders, MAX_UNISENSOR_COUNT,
};
use unimotion_rs::result::{PlaceholderError, UnimotionError};

fn make_queues() -> (Senders, Channels) {
    let (sensor_info_tx, sensor_info_rx) = crossbeam_channel::unbounded();
    let (device_tx, device_rx) = crossbeam_channel::unbounded();
    let (channel_tx, channel_rx) = crossbeam_channel::unbounded();
    let (auto_off_tx, auto_off_rx) = crossbeam_channel::unbounded();
    let (acknowledge_tx, acknowledge_rx) = crossbeam_channel::unbounded();
    let (datamode_tx, datamode_rx) = crossbeam_channel::unbounded();
    let (data_tx, data_rx) = crossbeam_channel::unbounded();
    let (error_tx, error_rx) = crossbeam_channel::unbounded();
    (
        Senders {
            sensor_info_tx,
            device_tx,
            channel_tx,
            auto_off_tx,
            acknowledge_tx,
            datamode_tx,
            data_tx,
            error_tx,
        },
        Channels {
            sensor_info_rx,
            device_rx,
            channel_rx,
            auto_off_rx,
            acknowledge_rx,
            datamode_rx,
            data_rx,
            error_rx,
        },
    )
}

const SHORT: Duration = Duration::from_millis(20);

#[test]
fn command_texts_match_the_wire_format_table() {
    assert_eq!(Command::RestartAP.as_str(), "_aprestart");
    assert_eq!(Command::Alive.as_str(), "_alive");
    assert_eq!(Command::ListSensor.as_str(), "_sensorlist");
    assert_eq!(Command::StartWifi.as_str(), "_wifistart");
    assert_eq!(Command::QuitConfig.as_str(), "_quitconfig");
    assert_eq!(Command::RequestSensorInfo(7).as_str(), "__sensinfo id:7:b");
    assert_eq!(Command::RequestSensorInfo(255).as_str(), "__sensinfo id:255:b");
    assert_eq!(Command::AliveNoResponse.as_str(), "_alive_nores");
    assert_eq!(Command::EnableAhrs(1).as_str(), "_setahrsmode id:1:b 0");
    assert_eq!(Command::DisableAhrs(1).as_str(), "_setahrsmode id:1:b 1");
    assert_eq!(Command::Set60FPS(10).as_str(), "_setmode id:10:b 3 2 0 4");
    assert_eq!(Command::Set60FPSLowPower(10).as_str(), "_setmode id:10:b 4 2 11 4");
    assert_eq!(Command::Set70FPS(10).as_str(), "_setmode id:10:b 0 9 19 0");
    assert_eq!(Command::Set144FPS(10).as_str(), "_setmode id:10:b 2 4 30 4");
    assert_eq!(Command::PowerOffSensor(3).as_str(), "_sensoff id:3:b");
    assert_eq!(Command::RestartSensor(3).as_str(), "_restart id:3:b");
    assert_eq!(Command::StartMagneticCalibration(3).as_str(), "_start_mag_calib id:3:b");
    assert_eq!(Command::StopMagneticCalibration(3).as_str(), "_stop_mag_calib id:3:b");
    assert_eq!(Command::SetMagneticThreshold(3, 10, 200).as_str(), "_set_mag_th id:3:b 10 200");
    assert_eq!(Command::SensorConfig(3).as_str(), "_sensconf id:3:b");
    assert_eq!(Command::Config(9).as_str(), "_config");
    assert_eq!(Command::InitializeCalibration(0).as_str(), "_initcalibration id:0");
    assert_eq!(Command::Restart(128).as_str(), "_restart id:128");
    assert_eq!(Command::SavePairing.as_str(), "_savepairing");
}

#[test]
fn route_delivers_each_response_to_its_own_queue() {
    let (senders, channels) = make_queues();
    assert!(senders.route(Response::Channel(5)));
    assert!(senders.route(Response::Datamode(3)));
    assert!(senders.route(Response::AutoOff(1, 300000)));
    assert!(senders.route(Response::Acknowledge(AcknowledgeType::Alive)));
    assert!(senders.route(Response::Error));
    assert_eq!(channels.get_channel(), Ok(5));
    assert_eq!(channels.get_datamode(), Ok(3));
    assert_eq!(channels.get_auto_off(), Ok((1, 300000)));
    assert_eq!(channels.get_acknowledge(), Ok(AcknowledgeType::Alive));
    // nothing leaked onto an unrelated queue
    assert_eq!(channels.get_data_timeout(SHORT), Err(ChannelError::Timeout));
    assert_eq!(
        channels.get_sensor_info_timeout(SHORT),
        Err(ChannelError::Timeout)
    );
}

#[test]
fn route_reports_a_dropped_consumer() {
    let (senders, channels) = make_queues();
    drop(channels);
    assert!(!senders.route(Response::Channel(5)));
}

#[test]
fn queues_are_fifo_and_timeouts_are_distinct_from_disconnect() {
    let (senders, channels) = make_queues();
    assert!(senders.route(Response::Channel(1)));
    assert!(senders.route(Response::Channel(2)));
    assert_eq!(channels.get_channel_timeout(SHORT), Ok(1));
    assert_eq!(channels.get_channel_timeout(SHORT), Ok(2));
    assert_eq!(channels.get_channel_timeout(SHORT), Err(ChannelError::Timeout));
    drop(senders);
    assert_eq!(
        channels.get_channel_timeout(SHORT),
        Err(ChannelError::Disconnected)
    );
    assert_eq!(channels.get_channel(), Err(ChannelError::Disconnected));
}

#[test]
fn flush_discards_everything_pending() {
    let (senders, channels) = make_queues();
    assert!(senders.route(Response::Channel(1)));
    assert!(senders.route(Response::Datamode(2)));
    assert!(senders.route(Response::Device(3, MacAddr6::new(1, 2, 3, 4, 5, 6))));
    assert!(senders.route(Response::Error));
    channels.flush();
    assert_eq!(channels.get_channel_timeout(SHORT), Err(ChannelError::Timeout));
    assert_eq!(channels.get_datamode_timeout(SHORT), Err(ChannelError::Timeout));
}

#[test]
fn get_devices_places_each_device_in_the_slot_of_its_id() {
    let (senders, channels) = make_queues();
    for id in 0..MAX_UNISENSOR_COUNT as u8 {
        let addr = if id == 3 {
            MacAddr6::new(0xE8, 0x68, 0xE7, 0x53, 0x55, 0xDE)
        } else {
            MacAddr6::nil()
        };
        assert!(senders.route(Response::Device(id, addr)));
    }
    let table = channels.get_devices().expect("collection must succeed");
    assert_eq!(table.len(), MAX_UNISENSOR_COUNT);
    assert_eq!(table[3], (3, MacAddr6::new(0xE8, 0x68, 0xE7, 0x53, 0x55, 0xDE)));
    assert_eq!(table[0], (0, MacAddr6::nil()));
    assert_eq!(table[23], (23, MacAddr6::nil()));
}

#[test]
fn get_devices_timeout_fails_when_fewer_than_the_full_enumeration_arrives() {
    let (senders, channels) = make_queues();
    for id in 0..4u8 {
        assert!(senders.route(Response::Device(id, MacAddr6::nil())));
    }
    assert_eq!(
        channels.get_devices_timeout(SHORT),
        Err(ChannelError::Timeout)
    );
}

#[test]
fn sensor_table_tracks_present_devices_by_id() {
    let mut table = SensorTable::new();
    assert!(table.sensors().is_empty());
    let addr = MacAddr6::new(1, 2, 3, 4, 5, 6);
    table.record(5, addr);
    table.record(9, MacAddr6::nil()); // nil: not present, changes nothing
    table.record(255, addr); // beyond capacity: ignored
    let present = table.sensors();
    assert_eq!(present.len(), 1);
    assert_eq!(
        present[0],
        UniSensorDevice { id: 5, mac_addr: addr, sensor_info: None }
    );
    assert_eq!(
        table.device_for(5),
        Some(UniSensorDevice { id: 5, mac_addr: addr, sensor_info: None })
    );
    assert_eq!(table.device_for(4), Some(UniSensorDevice::empty()));
    assert_eq!(table.device_for(200), None);
}

#[test]
fn check_acknowledge_keeps_expected_and_actual_distinct() {
    assert!(check_acknowledge(AcknowledgeType::RestartAP, Ok(AcknowledgeType::RestartAP)).is_ok());
    match check_acknowledge(AcknowledgeType::RestartAP, Ok(AcknowledgeType::Alive)) {
        Err(UnimotionError::PlaceholderError(PlaceholderError::UnexpectedAckError(e, g))) => {
            assert_eq!(e, AcknowledgeType::RestartAP);
            assert_eq!(g, AcknowledgeType::Alive);
        }
        r => panic!("expected the mismatch error, got {:?}", r),
    }
    assert!(matches!(
        check_acknowledge(AcknowledgeType::Alive, Err(ChannelError::Timeout)),
        Err(UnimotionError::CrossbeamChannelError)
    ));
    assert!(matches!(
        check_acknowledge(AcknowledgeType::Alive, Err(ChannelError::Disconnected)),
        Err(UnimotionError::Disconnected)
    ));
}

#[test]
fn handshake_aborts_on_the_first_wrong_acknowledge() {
    let (senders, channels) = make_queues();
    let mut table = SensorTable::new();
    // the first acknowledge received is not RestartAP
    assert!(senders.route(Response::Acknowledge(AcknowledgeType::Alive)));
    let r = handshake_advance(HandshakeStep::RestartAck, &channels, &mut table, SHORT);
    match r {
        Err(UnimotionError::PlaceholderError(PlaceholderError::UnexpectedAckError(e, g))) => {
            assert_eq!(e, AcknowledgeType::RestartAP);
            assert_eq!(g, AcknowledgeType::Alive);
        }
        r => panic!("expected the mismatch error, got {:?}", r),
    }
    // no further step ran: nothing else was consumed, the table is empty
    assert!(table.sensors().is_empty());
}

#[test]
fn handshake_times_out_without_a_device() {
    let (_senders, channels) = make_queues();
    let mut table = SensorTable::new();
    assert!(matches!(
        handshake_advance(HandshakeStep::RestartAck, &channels, &mut table, SHORT),
        Err(UnimotionError::CrossbeamChannelError)
    ));
}

#[test]
fn handshake_reports_disconnect_distinct_from_timeout() {
    // spec 7: "timed out waiting" and "reader gone" are different errors
    let (senders, channels) = make_queues();
    drop(senders);
    let mut table = SensorTable::new();
    assert!(matches!(
        handshake_advance(HandshakeStep::RestartAck, &channels, &mut table, SHORT),
        Err(UnimotionError::Disconnected)
    ));
    assert!(matches!(
        handshake_advance(HandshakeStep::AwaitChannel, &channels, &mut table, SHORT),
        Err(UnimotionError::Disconnected)
    ));
    assert!(matches!(
        handshake_advance(HandshakeStep::CollectDevices, &channels, &mut table, SHORT),
        Err(UnimotionError::Disconnected)
    ));
    assert!(table.sensors().is_empty());
}

#[test]
fn handshake_runs_the_fixed_sequence_to_completion() {
    let (senders, channels) = make_queues();
    let mut table = SensorTable::new();
    let addr = MacAddr6::new(0xE8, 0x68, 0xE7, 0x53, 0x55, 0xDE);

    // preload every reply the sequence owes, in arrival order
    assert!(senders.route(Response::Acknowledge(AcknowledgeType::RestartAP)));
    assert!(senders.route(Response::Channel(1)));
    assert!(senders.route(Response::Datamode(3)));
    assert!(senders.route(Response::AutoOff(1, 300000)));
    for id in 0..MAX_UNISENSOR_COUNT as u8 {
        let a = if id == 7 { addr } else { MacAddr6::nil() };
        assert!(senders.route(Response::Device(id, a)));
    }
    assert!(senders.route(Response::Acknowledge(AcknowledgeType::Alive)));
    assert!(senders.route(Response::Acknowledge(AcknowledgeType::StartWifi)));
    assert!(senders.route(Response::Acknowledge(AcknowledgeType::QuitConfig)));

    let expected_commands = [
        Some(Command::RestartAP),
        None,
        None,
        None,
        None,
        Some(Command::Alive),
        Some(Command::StartWifi),
        Some(Command::QuitConfig),
    ];
    let mut sent = Vec::new();
    let mut step = HandshakeStep::RestartAck;
    let mut steps = 0;
    while step != HandshakeStep::Complete {
        sent.push(handshake_command(step));
        step = handshake_advance(step, &channels, &mut table, SHORT)
            .expect("every preloaded step must pass");
        steps += 1;
        assert!(steps <= 8, "the handshake is a fixed linear sequence");
    }
    assert_eq!(steps, 8);
    assert_eq!(sent, expected_commands);

    let present = table.sensors();
    assert_eq!(present.len(), 1);
    assert_eq!(
        present[0],
        UniSensorDevice { id: 7, mac_addr: addr, sensor_info: None }
    );
}

#[test]
fn update_pairs_telemetry_with_the_registered_device() {
    // the caller-facing composition: a telemetry frame plus the table
    // entry of its sender
    let (senders, channels) = make_queues();
    let mut table = SensorTable::new();
    let addr = MacAddr6::new(1, 2, 3, 4, 5, 6);
    table.record(7, addr);
    let line = "B6cdte627NJ+Gxy1rbZs058bgP8";
    let parsed = Response::from(line.as_bytes().to_vec());
    assert!(senders.route(parsed));
    let data: Datagram = channels.get_data().expect("frame owed");
    assert_eq!(data.id, 7);
    let device = table.device_for(data.id).expect("id in range");
    assert_eq!(device.mac_addr, addr);
}

#[test]
fn malformed_lines_land_on_the_error_queue_as_a_unit_signal() {
    let (senders, channels) = make_queues();
    let parsed = Response::from(b"no such line".to_vec());
    assert!(matches!(parsed, Response::Error));
    assert!(senders.route(parsed));
    assert_eq!(channels.error_rx.try_recv(), Ok(()));
}
