use sid_shield::driver::{process_frame, run_demo};
use sid_shield::frame::{FRAME_ENDING_BYTE, FrameError, FrameReader, RegisterWrite};
use sid_shield::frame::{decode_frame, encode_writes};
use sid_shield::gpio::{TraceGpio, output_to_gpio};

fn feed(reader: &mut FrameReader, bytes: &[u8]) -> Vec<Vec<u8>> {
    let mut frames = Vec::new();
    for &b in bytes {
        if let Some(frame) = reader.push_byte(b) {
            frames.push(frame);
        }
    }
    frames
}

#[test]
fn encode_writes_exact_bytes() {
    let ws = vec![
        RegisterWrite { address: 1, data: 2 },
        RegisterWrite { address: 3, data: 0xFF },
    ];
    assert_eq!(encode_writes(&ws), vec![1, 2, 3, 0xFF]);
}

#[test]
fn framing_round_trip() {
    // A data byte equal to the sentinel sits at an odd offset and must ride
    // through the reader as in-band data.
    let ws = vec![
        RegisterWrite { address: 0x01, data: 0x10 },
        RegisterWrite { address: 0x05, data: 0xFF },
        RegisterWrite { address: 0x1F, data: 0x00 },
    ];
    let mut bytes = encode_writes(&ws);
    bytes.push(FRAME_ENDING_BYTE);

    let mut reader = FrameReader::new();
    let frames = feed(&mut reader, &bytes);
    assert_eq!(frames.len(), 1);
    assert_eq!(frames[0], encode_writes(&ws));

    let decoded = decode_frame(&frames[0]).expect("round trip must decode");
    assert_eq!(decoded.writes, ws);
    assert_eq!(decoded.dangling, None);
}

#[test]
fn sentinel_at_odd_offset_is_data() {
    let mut reader = FrameReader::new();
    assert_eq!(reader.push_byte(0x05), None);
    // One byte accumulated (odd): the sentinel is data, not a terminator.
    assert_eq!(reader.push_byte(FRAME_ENDING_BYTE), None);
    // Two bytes accumulated (even): now the sentinel ends the frame.
    let frame = reader.push_byte(FRAME_ENDING_BYTE);
    assert_eq!(frame, Some(vec![0x05, 0xFF]));
}

#[test]
fn empty_input_emits_nothing() {
    let mut reader = FrameReader::new();
    let frames = feed(&mut reader, &[]);
    assert_eq!(frames.len(), 0);

    // And an empty frame drives zero pin writes.
    let mut gpio = TraceGpio::new();
    let decoded = process_frame(&mut gpio, &Vec::new()).expect("empty frame is well formed");
    assert_eq!(decoded.writes.len(), 0);
    assert_eq!(decoded.dangling, None);
    assert_eq!(gpio.log.len(), 0);
}

#[test]
fn odd_frame_reports_dangling() {
    let frame = vec![0x05, 0x09, 0x01];
    let decoded = decode_frame(&frame).expect("one full pair is well formed");
    assert_eq!(decoded.writes, vec![RegisterWrite { address: 5, data: 9 }]);
    assert_eq!(decoded.dangling, Some(0x01));
}

#[test]
fn end_to_end_two_writes() {
    let mut reader = FrameReader::new();
    let frames = feed(&mut reader, &[0x01, 0x10, 0x05, 0x09, FRAME_ENDING_BYTE]);
    assert_eq!(frames.len(), 1);

    let mut gpio = TraceGpio::new();
    let decoded = process_frame(&mut gpio, &frames[0]).expect("frame is well formed");
    assert_eq!(
        decoded.writes,
        vec![
            RegisterWrite { address: 1, data: 0x10 },
            RegisterWrite { address: 5, data: 0x09 },
        ]
    );
    assert_eq!(decoded.dangling, None);

    // The pin trace is the full protocol of the first write, then of the second.
    let mut expected = TraceGpio::new();
    output_to_gpio(&mut expected, 0x01, 0x10);
    output_to_gpio(&mut expected, 0x05, 0x09);
    assert_eq!(gpio.log.len(), 74);
    assert_eq!(gpio.log, expected.log);
}

#[test]
fn out_of_range_address_is_fatal() {
    let mut reader = FrameReader::new();
    let frames = feed(&mut reader, &[0x20, 0x01, FRAME_ENDING_BYTE]);
    assert_eq!(frames.len(), 1);

    let mut gpio = TraceGpio::new();
    let err = process_frame(&mut gpio, &frames[0]).unwrap_err();
    assert_eq!(err, FrameError::AddressOutOfRange { pair_index: 0, address: 0x20 });
    // Nothing of the frame reaches the pins.
    assert_eq!(gpio.log.len(), 0);
}

#[test]
fn violation_after_valid_pair_drives_nothing() {
    let frame = vec![0x01, 0x10, 0x3C, 0x02];
    let mut gpio = TraceGpio::new();
    let err = process_frame(&mut gpio, &frame).unwrap_err();
    assert_eq!(err, FrameError::AddressOutOfRange { pair_index: 1, address: 0x3C });
    assert_eq!(gpio.log.len(), 0);
}

#[test]
fn demo_drives_five_writes() {
    let mut gpio = TraceGpio::new();
    run_demo(&mut gpio);

    let mut expected = TraceGpio::new();
    output_to_gpio(&mut expected, 0x1, 0x10);
    output_to_gpio(&mut expected, 0x5, 0x9);
    output_to_gpio(&mut expected, 0x6, 0x84);
    output_to_gpio(&mut expected, 0x18, 0xF);
    output_to_gpio(&mut expected, 0x4, 0x11);
    assert_eq!(gpio.log, expected.log);
    assert_eq!(gpio.log.len(), 5 * 37);
}
