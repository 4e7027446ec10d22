use xbee::api_frame::{
    unpack_frame, ApiData, ApiPackError, ApiUnpackError, AtCommandStatus, ByteSource,
    ChannelIndicator, FramePacker, ModemStatus, RxOptions, SliceSource, TxOptions, TxRequestIter,
    TxStatus,
};
use xbee::Addr;

use arrayvec::ArrayVec;

#[test]
fn at_command_nh_parse_test() {
    let unpacked_data = [0x08, 0x52, 0x4E, 0x48];
    let parsed_data = ApiData::parse(&unpacked_data[..]).unwrap();

    let test_data = ApiData::AtCommand {
        frame_id: 0x52,
        at_cmd: [b'N', b'H'],
        params: &[],
    };

    assert_eq!(parsed_data, test_data);
}

#[test]
fn at_command_dl_parse_test() {
    let unpacked_data = [0x08, 0x4D, 0x44, 0x4C, 0x00, 0x00, 0x0F, 0xFF];
    let parsed_data = ApiData::parse(&unpacked_data[..]).unwrap();

    let test_data = ApiData::AtCommand {
        frame_id: 0x4D,
        at_cmd: [b'D', b'L'],
        params: &[0x00, 0x00, 0x0F, 0xFF],
    };

    assert_eq!(parsed_data, test_data);
}

#[test]
fn at_commmand_response_bd_parse_test() {
    let unpacked_data = [0x88, 0x01, 0x42, 0x44, 0x00];
    let parsed_data = ApiData::parse(&unpacked_data[..]).unwrap();

    let test_data = ApiData::AtCommandResponse {
        frame_id: 0x01,
        at_cmd: [b'B', b'D'],
        status: AtCommandStatus::Okay,
        data: &[],
    };

    assert_eq!(parsed_data, test_data);
}

#[test]
fn tx_status_parse_test() {
    let unpacked_data = [0x89, 0x01, 0x00];
    let parsed_data = ApiData::parse(&unpacked_data[..]).unwrap();

    let test_data = ApiData::TxStatus {
        frame_id: 0x01,
        status: TxStatus::Standard,
    };

    assert_eq!(parsed_data, test_data);
}

#[test]
fn modem_status_parse_test() {
    let unpacked_data = [0x8A, 0x00];
    let parsed_data = ApiData::parse(&unpacked_data[..]).unwrap();

    let test_data = ApiData::ModemStatus {
        status: ModemStatus::HardwareReset,
    };

    assert_eq!(parsed_data, test_data);
}

#[test]
fn unpack_frame_test() {
    let frame = [
        0x7E, 0x00, 0x0A, 0x01, 0x01, 0x50, 0x01, 0x00, 0x48, 0x65, 0x6C, 0x6C, 0x6F, 0xB8,
        // extra data
        0x7E, 0x01, 0x02,
    ];
    let (unpacked_data, rem) = unpack_frame(&frame[..], false, false).unwrap();
    assert_eq!(
        unpacked_data,
        &[0x01, 0x01, 0x50, 0x01, 0x00, 0x48, 0x65, 0x6C, 0x6C, 0x6F]
    );
    assert_eq!(rem, &[0x7E, 0x01, 0x02]);
}

#[test]
fn create_tx_request_test() {
    let frame = [
        0x00,
        0x01,
        0x00, 0x13, 0xA2, 0x00, 0x41, 0x5D, 0x1D, 0xBB,
        0x00,
        0x54, 0x65, 0x73, 0x74, 0x69, 0x6E, 0x67,
    ];
    let mut vec: ArrayVec<[u8; 32]> = ArrayVec::new();
    let mut tx_request = TxRequestIter::new(
        1,
        Addr::Long(0x0013_A200_415D_1DBB),
        TxOptions::empty(),
        SliceSource::new(b"Testing"),
    );
    while let Some(b) = tx_request.next() {
        vec.push(b);
    }
    assert_eq!(vec.as_slice(), &frame[..]);
}

#[test]
fn packing_test() {
    let data = [
        0x00,
        0x01,
        0x00, 0x13, 0xA2, 0x00, 0x41, 0x5D, 0x1D, 0xBB,
        0x00,
        0x54, 0x65, 0x73, 0x74, 0x69, 0x6E, 0x67,
    ];
    let test_frame = [
        0x7E,
        0x00, 0x12,
        0x00,
        0x01,
        0x00, 0x13, 0xA2, 0x00, 0x41, 0x5D, 0x1D, 0xBB,
        0x00,
        0x54, 0x65, 0x73, 0x74, 0x69, 0x6E, 0x67,
        0xF5,
    ];
    let mut vec: ArrayVec<[u8; 32]> = ArrayVec::new();
    let mut packed_frame =
        FramePacker::new(SliceSource::new(&data), false, false).expect("packing error");
    while let Some(b) = packed_frame.next() {
        vec.push(b);
    }
    assert_eq!(vec.as_slice(), &test_frame[..]);
}

fn pack_payload(payload: &[u8]) -> Vec<u8> {
    let mut packer = FramePacker::new(SliceSource::new(payload), false, false).unwrap();
    let mut out = Vec::new();
    while let Some(b) = packer.next() {
        out.push(b);
    }
    out
}

#[test]
fn pack_then_unpack_returns_payload_and_nothing_else() {
    let payload = [0x42u8, 0x00, 0xFF, 0x13, 0x37];
    let frame = pack_payload(&payload);
    let (data, rem) = unpack_frame(&frame, false, false).unwrap();
    assert_eq!(data, &payload[..]);
    assert_eq!(rem, &[] as &[u8]);
}

#[test]
fn flipping_one_payload_bit_fails_the_checksum() {
    let payload = [0x42u8, 0x00, 0xFF, 0x13, 0x37];
    let frame = pack_payload(&payload);
    // every bit of every payload byte and of the checksum byte
    for i in 3..frame.len() {
        for k in 0..8 {
            let mut corrupted = frame.clone();
            corrupted[i] ^= 1 << k;
            match unpack_frame(&corrupted, false, false) {
                Err(ApiUnpackError::BadChecksum(_)) => {}
                other => panic!("bit {} of byte {} slipped through: {:?}", k, i, other),
            }
        }
    }
}

#[test]
fn packing_an_empty_payload_is_too_short() {
    match FramePacker::new(SliceSource::new(&[]), false, false) {
        Err(ApiPackError::TooShort) => {}
        _ => panic!("an empty payload must be refused"),
    }
}

#[test]
fn packing_65536_bytes_is_too_long() {
    let payload = vec![0u8; 65536];
    match FramePacker::new(SliceSource::new(&payload), false, false) {
        Err(ApiPackError::TooLong) => {}
        _ => panic!("65536 bytes must be refused"),
    }
}

#[test]
fn packing_exactly_65535_bytes_succeeds() {
    let payload = vec![0xABu8; 65535];
    let mut packer = FramePacker::new(SliceSource::new(&payload), false, false).unwrap();
    assert_eq!(packer.next(), Some(0x7E));
    assert_eq!(packer.next(), Some(0xFF)); // length high byte
    assert_eq!(packer.next(), Some(0xFF)); // length low byte
    assert_eq!(packer.next(), Some(0xAB));
}

#[test]
fn modem_status_unknown_byte_parses_never_fails() {
    let unpacked_data = [0x8A, 0xFF];
    let parsed_data = ApiData::parse(&unpacked_data[..]).unwrap();
    assert_eq!(
        parsed_data,
        ApiData::ModemStatus {
            status: ModemStatus::Unknown
        }
    );
}

#[test]
fn unpack_empty_and_unmarked_buffers_report_no_start() {
    match unpack_frame(&[], false, false) {
        Err(ApiUnpackError::NoStart) => {}
        _ => panic!("an empty buffer has no start marker"),
    }
    match unpack_frame(&[0x42, 0x7E], false, false) {
        Err(ApiUnpackError::NoStart) => {}
        _ => panic!("a buffer not led by the marker has no start"),
    }
}

#[test]
fn unpack_truncated_frame_reports_its_full_length() {
    // declares a 10-byte payload but carries only 4 bytes after the header
    let frame = [0x7E, 0x00, 0x0A, 0x01, 0x02, 0x03, 0x04];
    match unpack_frame(&frame, false, false) {
        Err(ApiUnpackError::BadLength(n)) => assert_eq!(n, 3 + 10 + 1),
        _ => panic!("a truncated frame must report its length"),
    }
}

#[test]
fn unpack_bad_checksum_reports_the_sum() {
    // payload [0x01, 0x02] sums to 3; the checksum byte should be 0xFC
    let frame = [0x7E, 0x00, 0x02, 0x01, 0x02, 0x00];
    match unpack_frame(&frame, false, false) {
        Err(ApiUnpackError::BadChecksum(sum)) => assert_eq!(sum, 0x03),
        _ => panic!("a wrong checksum must be rejected"),
    }
}

#[test]
fn parse_rejects_unknown_types_and_short_payloads() {
    assert!(ApiData::parse(&[]).is_err());
    assert!(ApiData::parse(&[0xFE, 0x01, 0x02]).is_err());
    assert!(ApiData::parse(&[0x08, 0x52, 0x4E]).is_err()); // one byte short
    assert!(ApiData::parse(&[0x89, 0x01, 0x00, 0x00]).is_err()); // exact-length kind, too long
}

#[test]
fn parse_io_sample_reads_fields_in_indicator_order() {
    // short-address IO sample: D0 and A1 sampled
    let payload = [
        0x83, // type
        0x12, 0x34, // source address
        0x28, // rssi
        0x00, // options
        0x01, // sample count
        0b0000_0100, 0b0000_0001, // indicator: A1 | D0
        0x00, 0x01, // digital word
        0x02, 0x9A, // analog channel 1
    ];
    let parsed = ApiData::parse(&payload[..]).unwrap();
    assert_eq!(
        parsed,
        ApiData::RxPacketIo16Addr {
            source_addr: 0x1234,
            rssi: 0x28,
            options: RxOptions::empty(),
            samples: 1,
            channel_indicator: ChannelIndicator::from_bits_truncate(0x0401),
            digital_samples: Some(0x0001),
            analog_samples: [None, Some(0x029A), None, None],
        }
    );
}

#[test]
fn parse_io_sample_missing_announced_words_fails() {
    // announces a digital word but carries none
    let payload = [0x83, 0x12, 0x34, 0x28, 0x00, 0x01, 0x00, 0x01];
    assert!(ApiData::parse(&payload[..]).is_err());
}

#[test]
fn option_decoding_truncates_unknown_bits() {
    assert_eq!(TxOptions::from_bits_truncate(0xFF).bits(), 0x05);
    assert_eq!(RxOptions::from_bits_truncate(0xFF).bits(), 0x06);
    assert_eq!(ChannelIndicator::from_bits_truncate(0xFFFF).bits(), 0x1FFF);
    assert!(ChannelIndicator::from_bits_truncate(0x0123).contains_digital());
    assert!(!ChannelIndicator::from_bits_truncate(0x0E00).contains_digital());
}

#[test]
fn status_bytes_decode_with_unknown_fallback() {
    assert_eq!(TxStatus::from(0x21), TxStatus::NetworkAckFailure);
    assert_eq!(TxStatus::from(0x74), TxStatus::PayloadTooLarge);
    assert_eq!(TxStatus::from(0x50), TxStatus::Unknown);
    assert_eq!(ModemStatus::from(0x0D), ModemStatus::InputVoltageTooHigh);
    assert_eq!(ModemStatus::from(0x42), ModemStatus::Unknown);
}

#[test]
fn frame_type_reports_the_wire_code() {
    let at = ApiData::AtCommand {
        frame_id: 1,
        at_cmd: [b'I', b'D'],
        params: &[],
    };
    assert_eq!(at.frame_type(), 0x08);
    let modem = ApiData::ModemStatus {
        status: ModemStatus::Unknown,
    };
    assert_eq!(modem.frame_type(), 0x8A);
}
