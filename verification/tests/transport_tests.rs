use xbee::api_frame::{ApiData, ApiUnpackError, TxOptions};
use xbee::{Addr, XBeeApiError, XBeeApiSpi, XBeeLink, XBeeTransparent};

/// A link whose attention line stays low while scripted bytes remain, and
/// which records everything sent to it.
struct ScriptedLink {
    incoming: Vec<u8>,
    pos: usize,
    sent: Vec<u8>,
}

impl ScriptedLink {
    fn new(incoming: &[u8]) -> ScriptedLink {
        ScriptedLink {
            incoming: incoming.to_vec(),
            pos: 0,
            sent: Vec::new(),
        }
    }
}

impl XBeeLink for ScriptedLink {
    type LinkError = ();

    fn attn_is_high(&mut self) -> bool {
        self.pos >= self.incoming.len()
    }

    fn exchange(&mut self, byte: u8) -> Result<u8, ()> {
        self.sent.push(byte);
        let rx = if self.pos < self.incoming.len() {
            self.incoming[self.pos]
        } else {
            0x00
        };
        self.pos += 1;
        Ok(rx)
    }
}

/// A link that always fails the exchange.
struct BrokenLink;

impl XBeeLink for BrokenLink {
    type LinkError = &'static str;

    fn attn_is_high(&mut self) -> bool {
        false
    }

    fn exchange(&mut self, _byte: u8) -> Result<u8, &'static str> {
        Err("wires crossed")
    }
}

#[test]
fn poll_receives_scripted_bytes_in_order() {
    let mut spi = XBeeApiSpi::new();
    let mut link = ScriptedLink::new(&[0x7E, 0x00, 0x01, 0xAA, 0x55]);
    let read = spi.transmit_and_receive(&mut link).unwrap();
    assert!(read);
    // nothing was queued, so only filler bytes went out
    assert!(link.sent.iter().all(|&b| b == 0xFF));
    // the scripted bytes all arrived: the buffered frame now decodes
    let decoded = spi.unpack_and_parse_buffer();
    assert!(decoded.is_err()); // payload [0xAA] is no known frame kind
    match decoded {
        Err(XBeeApiError::Parse(())) => {}
        other => panic!("expected a grammar failure, got {:?}", other.is_ok()),
    }
}

#[test]
fn poll_drains_the_transmit_queue_fifo() {
    let mut spi = XBeeApiSpi::new();
    spi.send_data_raw(&[1, 2, 3, 4, 5]).unwrap();
    assert!(!spi.tx_queue_empty());
    let mut link = ScriptedLink::new(&[]);
    let read = spi.transmit_and_receive(&mut link).unwrap();
    assert!(!read);
    assert!(spi.tx_queue_empty());
    assert_eq!(link.sent, vec![1, 2, 3, 4, 5]);
}

#[test]
fn poll_never_grows_the_receive_buffer_past_capacity() {
    let mut spi = XBeeApiSpi::new();
    let mut link = ScriptedLink::new(&vec![0x5A; 600]);
    let read = spi.transmit_and_receive(&mut link).unwrap();
    assert!(read);
    assert!(spi.rx_queue_full());
    // a second poll with a full buffer and nothing to send stops at once
    let read_again = spi.transmit_and_receive(&mut link).unwrap();
    assert!(!read_again);
}

#[test]
fn poll_passes_link_errors_up_verbatim() {
    let mut spi = XBeeApiSpi::new();
    let mut link = BrokenLink;
    assert_eq!(spi.transmit_and_receive(&mut link), Err("wires crossed"));
}

#[test]
fn send_data_queues_the_framed_request() {
    let mut spi = XBeeApiSpi::new();
    spi.send_data(1, Addr::Long(0x0013_A200_415D_1DBB), b"Testing")
        .unwrap();
    let mut link = ScriptedLink::new(&[]);
    spi.transmit_and_receive(&mut link).unwrap();
    let expected = [
        0x7E,
        0x00, 0x12,
        0x00,
        0x01,
        0x00, 0x13, 0xA2, 0x00, 0x41, 0x5D, 0x1D, 0xBB,
        0x00,
        0x54, 0x65, 0x73, 0x74, 0x69, 0x6E, 0x67,
        0xF5,
    ];
    assert_eq!(link.sent, expected.to_vec());
}

#[test]
fn send_data_no_ack_sets_the_option_bit() {
    let mut spi = XBeeApiSpi::new();
    spi.send_data_no_ack(7, Addr::Short(0x1234), b"hi").unwrap();
    let mut link = ScriptedLink::new(&[]);
    spi.transmit_and_receive(&mut link).unwrap();
    // start, length 0x0007, then type, id, address, options, data, checksum
    assert_eq!(link.sent[..5], [0x7E, 0x00, 0x07, 0x01, 0x07]);
    assert_eq!(link.sent[5..8], [0x12, 0x34, 0x01]);
    assert_eq!(&link.sent[8..10], b"hi");
}

#[test]
fn send_data_raw_reports_overflow_and_queues_nothing() {
    let mut spi = XBeeApiSpi::new();
    spi.send_data_raw(&vec![0u8; 510]).unwrap();
    assert_eq!(spi.send_data_raw(&[0, 1, 2]), Err(()));
    // the queue still drains exactly the bytes accepted before
    let mut link = ScriptedLink::new(&[]);
    spi.transmit_and_receive(&mut link).unwrap();
    assert_eq!(link.sent.len(), 510);
}

#[test]
fn send_data_reports_a_full_queue_and_queues_nothing() {
    let mut spi = XBeeApiSpi::new();
    spi.send_data_raw(&vec![0u8; 500]).unwrap();
    // a 100-byte payload frames to 116 bytes, more than the 12 still free
    assert_eq!(
        spi.send_data(1, Addr::Short(0x0001), &vec![0u8; 100]),
        Err(())
    );
    let mut link = ScriptedLink::new(&[]);
    spi.transmit_and_receive(&mut link).unwrap();
    assert_eq!(link.sent.len(), 500);
}

#[test]
fn decode_buffered_frame_without_consuming_it() {
    let mut spi = XBeeApiSpi::new();
    let frame = [
        0x7E, 0x00, 0x0A, 0x01, 0x01, 0x50, 0x01, 0x00, 0x48, 0x65, 0x6C, 0x6C, 0x6F, 0xB8,
    ];
    let mut link = ScriptedLink::new(&frame);
    spi.transmit_and_receive(&mut link).unwrap();
    match spi.unpack_and_parse_buffer() {
        Ok(ApiData::TxRequest16Addr {
            frame_id,
            dest_addr,
            options,
            data,
        }) => {
            assert_eq!(frame_id, 0x01);
            assert_eq!(dest_addr, 0x5001);
            assert_eq!(options, TxOptions::empty());
            assert_eq!(data, b"Hello");
        }
        other => panic!("expected a decoded request, got err: {:?}", other.is_err()),
    }
    // decoding consumed nothing: it decodes again
    assert!(spi.unpack_and_parse_buffer().is_ok());
}

#[test]
fn decode_empty_buffer_reports_no_start() {
    let spi = XBeeApiSpi::new();
    match spi.unpack_and_parse_buffer() {
        Err(XBeeApiError::Unpack(ApiUnpackError::NoStart)) => {}
        _ => panic!("an empty buffer holds no frame"),
    }
}

#[test]
fn discard_to_start_leaves_buffer_at_the_marker() {
    let mut spi = XBeeApiSpi::new();
    let mut link = ScriptedLink::new(&[0x13, 0x37, 0x42, 0x7E, 0x00, 0x01]);
    spi.transmit_and_receive(&mut link).unwrap();
    let dropped = spi.remove_until_packet().unwrap();
    assert_eq!(dropped, 3);
    // the buffer now begins exactly at the marker: the remaining bytes
    // declare a one-byte payload, so five bytes are owed in all
    match spi.unpack_and_parse_buffer() {
        Err(XBeeApiError::Unpack(ApiUnpackError::BadLength(n))) => assert_eq!(n, 5),
        _ => panic!("the marker must be at the front"),
    }
}

#[test]
fn discard_to_start_without_marker_empties_the_buffer() {
    let mut spi = XBeeApiSpi::new();
    let mut link = ScriptedLink::new(&[0x13, 0x37, 0x42]);
    spi.transmit_and_receive(&mut link).unwrap();
    let dropped = spi.remove_until_packet().unwrap();
    assert_eq!(dropped, 3);
    assert!(spi.rx_queue_empty());
}

#[test]
fn advance_past_frame_seeks_the_next_candidate() {
    let mut spi = XBeeApiSpi::new();
    // a rejected marker byte, then garbage, then the next marker
    let mut link = ScriptedLink::new(&[0x7E, 0x01, 0x02, 0x7E, 0x00]);
    spi.transmit_and_receive(&mut link).unwrap();
    let dropped = spi.remove_until_next_packet().unwrap();
    assert_eq!(dropped, 3);
    // on an empty buffer it drops nothing
    let mut empty = XBeeApiSpi::new();
    assert_eq!(empty.remove_until_next_packet(), Ok(0));
}

#[test]
fn transparent_bridge_carries_its_configuration() {
    let bridge = XBeeTransparent::new((), (), b'+', 1000);
    assert_eq!(bridge.cmd_char, b'+');
    assert_eq!(bridge.guard_time, 1000);
}
