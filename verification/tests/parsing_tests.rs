use unimotion_rs::device::{
    decode_datagram, decode_quaternion, decode_sensor_info, DecodeError, Datagram, MacAddr6,
    Response,
};
use unimotion_rs::manager::Command;
use unimotion_rs::parsing::{parse, parse_ch, parse_datamode};

fn parse_str(s: &str) -> Response {
    Response::from(s.as_bytes().to_vec())
}

#[test]
fn quaternion_layout_and_z_sign() {
    // W = 0x0201, Y = 0x0403, Z = 0x0605, X = 0x0807 (little-endian pairs)
    let q = decode_quaternion(&[0x01, 0x02, 0x03, 0x04, 0x05, 0x06, 0x07, 0x08]);
    assert_eq!(q.w, 0x0201);
    assert_eq!(q.y, 0x0403);
    assert_eq!(q.z, -0x0605);
    assert_eq!(q.x, 0x0807);
}

#[test]
fn quaternion_z_sign_at_the_unrepresentable_point() {
    // raw Z = 0x8000 = i16::MIN, whose negation is not representable:
    // the decoder leaves it fixed rather than failing.
    let q = decode_quaternion(&[0, 0, 0, 0, 0x00, 0x80, 0, 0]);
    assert_eq!(q.z, i16::MIN);
    // one above i16::MIN negates normally
    let q = decode_quaternion(&[0, 0, 0, 0, 0x01, 0x80, 0, 0]);
    assert_eq!(q.z, i16::MAX);
}

#[test]
fn sensor_info_thresholds_default_on_short_form() {
    let mut short = [0u8; 19];
    short[0] = 9;
    short[8] = 4;
    let info = decode_sensor_info(&short);
    assert_eq!(info.min_mag_th, 255);
    assert_eq!(info.max_mag_th, 255);
    assert_eq!(info.sensor_version, 9);
    assert_eq!(info.channel, 4);
}

#[test]
fn sensor_info_thresholds_verbatim_on_long_form() {
    let mut long = [0u8; 23];
    long[21] = 17;
    long[22] = 204;
    let info = decode_sensor_info(&long);
    assert_eq!(info.min_mag_th, 17);
    assert_eq!(info.max_mag_th, 204);
}

#[test]
fn sensor_info_flag_bits() {
    let mut long = [0u8; 23];
    long[17] = 0x03; // bit 0 set
    long[18] = 0x02; // bit 0 clear
    let info = decode_sensor_info(&long);
    assert!(info.six_axis);
    assert!(!info.imu_flip);
}

#[test]
fn datagram_lengths_reserved_and_unrecognized() {
    assert_eq!(
        Datagram::parse_data(&[0u8; 10]),
        Err(DecodeError::NotImplemented)
    );
    assert_eq!(
        decode_datagram(&[0u8; 12]),
        Err(DecodeError::NotImplemented)
    );
    assert_eq!(
        decode_datagram(&[0u8; 18]),
        Err(DecodeError::NotImplemented)
    );
    assert_eq!(
        decode_datagram(&[0u8; 34]),
        Err(DecodeError::NotImplemented)
    );
    assert_eq!(
        decode_datagram(&[0u8; 36]),
        Err(DecodeError::NotImplemented)
    );
    assert_eq!(
        decode_datagram(&[0u8; 11]),
        Err(DecodeError::UnrecognizedLength)
    );
    assert!(decode_datagram(&[0u8; 20]).is_ok());
}

#[test]
fn telemetry_two_of_four_slots_populated() {
    // a 27-character base64 line decodes to 20 bytes: exactly two
    // quaternion slots populated, the other two absent
    match parse_str("B6cdte627NJ+Gxy1rbZs058bgP8") {
        Response::Data(d) => {
            assert!(d.quaternions[0].is_some());
            assert!(d.quaternions[1].is_some());
            assert!(d.quaternions[2].is_none());
            assert!(d.quaternions[3].is_none());
        }
        r => panic!("expected telemetry, got {:?}", r),
    }
}

#[test]
fn telemetry_lengths_outside_the_code_set_are_errors() {
    // base64-alphabet lines whose length is not one of 14/16/24/27/46/48
    for n in [1, 13, 15, 17, 20, 25, 26, 28, 45, 47, 49, 64] {
        let line: String = "A".repeat(n);
        assert!(
            matches!(parse_str(&line), Response::Error),
            "length {} must classify as Error",
            n
        );
    }
}

#[test]
fn telemetry_invalid_base64_is_error() {
    // right length (16), but '!' is outside the base64 alphabet
    assert!(matches!(
        parse_str("!!!!!!!!!!!!!!!!"),
        Response::Error
    ));
    // reserved frame shape: valid base64 of length 16 decodes to 12
    // bytes, which is recognized but not implemented
    assert!(matches!(
        parse_str("AAAAAAAAAAAAAAAA"),
        Response::Error
    ));
}

#[test]
fn non_ascii_bytes_classify_as_error() {
    assert!(matches!(
        Response::from(vec![0xC2, 0xA0, 0xFF, 0xFE]),
        Response::Error
    ));
    let mut line = "_ch 1".as_bytes().to_vec();
    line.push(0x80);
    assert!(matches!(Response::from(line), Response::Error));
}

#[test]
fn sub_parser_rejections() {
    assert!(matches!(parse_str("_si 7"), Response::Error));
    assert!(matches!(parse_str("_si 7 !!!"), Response::Error));
    // wrong decoded length (3 bytes) for a sensor-info payload
    assert!(matches!(parse_str("_si 7 AAAA"), Response::Error));
    assert!(matches!(parse_str("_si 300 Zk4IOvJtHZgBCloDAgAEAAAAASgIAHw="), Response::Error));
    assert!(matches!(parse_str("_dev 2 E8 68 E7 53 55"), Response::Error));
    assert!(matches!(parse_str("_dev 2 G8 68 E7 53 55 DE"), Response::Error));
    assert!(matches!(parse_str("_dev 256 E8 68 E7 53 55 DE"), Response::Error));
    assert!(matches!(parse_str("_ch"), Response::Error));
    assert!(matches!(parse_str("_ch 256"), Response::Error));
    assert!(matches!(parse_str("_ch 1 2"), Response::Error));
    assert!(matches!(parse_str("_auto_off 1"), Response::Error));
    assert!(matches!(parse_str("_auto_off 1 x"), Response::Error));
    assert!(matches!(parse_str("_auto_off 1 18446744073709551616"), Response::Error));
    assert!(matches!(parse_str("_ok NO_SUCH_ACK"), Response::Error));
    assert!(matches!(parse_str("_datamode -1"), Response::Error));
}

#[test]
fn decimal_grammar_matches_str_parse() {
    // str::parse accepts a leading '+' and leading zeros
    assert!(matches!(parse_str("_ch +7"), Response::Channel(7)));
    assert!(matches!(parse_str("_ch 007"), Response::Channel(7)));
    assert_eq!(parse_ch(b"255"), Some(255));
    assert_eq!(parse_ch(b"256"), None);
    assert_eq!(parse_ch(b""), None);
    assert_eq!(parse_ch(b"+"), None);
    assert_eq!(parse_datamode(b"0003"), Some(3));
    assert_eq!(
        parse(b"_auto_off 1 18446744073709551615"),
        Response::AutoOff(1, u64::MAX)
    );
}

#[test]
fn dev_single_hex_digits_are_zero_padded() {
    // the station emits single-digit hex without a leading zero
    match parse_str("_dev 1 8 3A F2 6D 1D 98") {
        Response::Device(1, addr) => {
            assert_eq!(addr, MacAddr6::new(0x08, 0x3A, 0xF2, 0x6D, 0x1D, 0x98))
        }
        r => panic!("expected a device, got {:?}", r),
    }
    // lowercase hex is accepted too
    match parse_str("_dev 1 e8 68 e7 53 55 de") {
        Response::Device(1, addr) => {
            assert_eq!(addr, MacAddr6::new(0xE8, 0x68, 0xE7, 0x53, 0x55, 0xDE))
        }
        r => panic!("expected a device, got {:?}", r),
    }
}

#[test]
fn commands_do_not_round_trip_through_parse() {
    // parse classifies device replies, never command texts: feeding a
    // command's canonical text back yields Error
    let samples = [
        Command::RestartAP,
        Command::Alive,
        Command::ListSensor,
        Command::StartWifi,
        Command::QuitConfig,
        Command::AliveNoResponse,
        Command::SavePairing,
        Command::Config(0),
        Command::RequestSensorInfo(7),
        Command::EnableAhrs(1),
        Command::DisableAhrs(200),
        Command::Set60FPS(10), // its text is 24 characters: the base64 path rejects it
        Command::Set60FPSLowPower(3),
        Command::Set70FPS(3),
        Command::Set144FPS(3),
        Command::PowerOffSensor(3),
        Command::RestartSensor(3),
        Command::StartMagneticCalibration(3),
        Command::StopMagneticCalibration(3),
        Command::SetMagneticThreshold(3, 10, 200),
        Command::SensorConfig(3),
        Command::InitializeCalibration(3),
        Command::Restart(3),
    ];
    for cmd in samples {
        let text = cmd.as_str();
        assert!(
            matches!(Response::from(text.as_bytes().to_vec()), Response::Error),
            "command text {:?} must not parse as a reply",
            text
        );
    }
}

#[test]
fn device_replies_round_trip_through_parse() {
    // the other half of the asymmetry: every reply encoding parses back
    // to its own value
    for n in [0u8, 1, 9, 10, 42, 99, 100, 254, 255] {
        assert_eq!(parse(format!("_ch {}", n).as_bytes()), Response::Channel(n));
        assert_eq!(
            parse(format!("_datamode {}", n).as_bytes()),
            Response::Datamode(n)
        );
    }
    assert_eq!(
        parse(format!("_auto_off {} {}", 1, 300000u64).as_bytes()),
        Response::AutoOff(1, 300000)
    );
    assert_eq!(
        parse(b"_ok"),
        Response::Acknowledge(unimotion_rs::device::AcknowledgeType::Alive)
    );
}

#[test]
fn si_short_form_through_parse_defaults_thresholds() {
    // 19 zero bytes, base64-encoded: the short wire form without
    // magnetic thresholds
    let line = "_si 3 AAAAAAAAAAAAAAAAAAAAAAAAAA==";
    match parse_str(line) {
        Response::SensorInfo(3, info) => {
            assert_eq!(info.min_mag_th, 255);
            assert_eq!(info.max_mag_th, 255);
            assert_eq!(info.sensor_version, 0);
            assert_eq!(info.mac_address, MacAddr6::nil());
            assert!(!info.six_axis);
        }
        r => panic!("expected sensor info, got {:?}", r),
    }
}

#[test]
fn empty_and_whitespace_lines_are_errors() {
    assert!(matches!(Response::from(vec![]), Response::Error));
    assert!(matches!(Response::from(b"\r\n".to_vec()), Response::Error));
    assert!(matches!(Response::from(b"   ".to_vec()), Response::Error));
}

#[test]
fn surrounding_whitespace_is_trimmed_before_classification() {
    assert!(matches!(
        Response::from(b"_ch 1\r\n".to_vec()),
        Response::Channel(1)
    ));
    assert!(matches!(
        Response::from(b"\t_datamode 3\n".to_vec()),
        Response::Datamode(3)
    ));
}
