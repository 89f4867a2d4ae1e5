use kb_host::color::Hsv;
use palette::IntoColor;
use kb_host::protocol::ProtocolMessage;
use kb_host::protocol::RgbSetFullMessage;
use kb_host::protocol::RgbSetMessage;
use kb_host::protocol::read_u16;
use kb_host::protocol::RAW_EPSIZE;
use kb_host::runtime::LoopCore;

fn report(bytes: &[u8]) -> [u8; RAW_EPSIZE] {
    let mut buf = [0u8; RAW_EPSIZE];
    buf[..bytes.len()].copy_from_slice(bytes);
    buf
}

#[test]
fn keycode_packing_is_nibble_shifted() {
    // The second byte, whole, shifts left four bits: not little-endian.
    assert_eq!(read_u16(&[0x01, 0x00], 0), 0x001);
    assert_eq!(read_u16(&[0x34, 0x12], 0), (0x12 << 4) | 0x34);
    assert_eq!(read_u16(&[0x00, 0xff], 0), 0xff0);
}

#[test]
fn decode_press_example() {
    let buf = report(&[0x6b, 0x73, 0x6b, 0x01, 0x01, 0x00, 0x03, 0x05]);
    match ProtocolMessage::read_buffer(&buf, 8) {
        Some(ProtocolMessage::Press(p)) => {
            assert!(p.pressed);
            assert_eq!(p.keycode, 1);
            assert_eq!(p.col, 3);
            assert_eq!(p.row, 5);
        }
        other => panic!("expected a press message, got {:?}", other),
    }
}

#[test]
fn decode_press_released_example() {
    let buf = report(&[0x6b, 0x73, 0x6b, 0x00, 0x01, 0x00, 0x03, 0x05]);
    match ProtocolMessage::read_buffer(&buf, 8) {
        Some(ProtocolMessage::Press(p)) => {
            assert!(!p.pressed);
            assert_eq!(p.keycode, 1);
            assert_eq!(p.col, 3);
            assert_eq!(p.row, 5);
        }
        other => panic!("expected a press message, got {:?}", other),
    }
}

#[test]
fn decode_layer() {
    let buf = report(&[0x6b, 0x73, 0x6b, 0x10, 0x02]);
    match ProtocolMessage::read_buffer(&buf, 5) {
        Some(ProtocolMessage::Layer(l)) => assert_eq!(l.layer_state, 2),
        other => panic!("expected a layer message, got {:?}", other),
    }
}

#[test]
fn decode_rejects_short_reports() {
    let buf = report(&[0x6b, 0x73, 0x6b, 0x01, 0x01]);
    assert!(ProtocolMessage::read_buffer(&buf, 0).is_none());
    assert!(ProtocolMessage::read_buffer(&buf, 3).is_none());
}

#[test]
fn decode_rejects_wrong_magic() {
    let buf = report(&[0x6b, 0x73, 0x6c, 0x01, 0x01, 0x00, 0x03, 0x05]);
    assert!(ProtocolMessage::read_buffer(&buf, 8).is_none());
    let buf = report(&[0x00, 0x73, 0x6b, 0x01, 0x01, 0x00, 0x03, 0x05]);
    assert!(ProtocolMessage::read_buffer(&buf, 8).is_none());
}

#[test]
fn decode_rejects_unknown_opcode() {
    // Opcode 2 is outbound-only: the decoder never produces an LED message.
    let buf = report(&[0x6b, 0x73, 0x6b, 0x20, 0x00, 0x00, 0x00]);
    assert!(ProtocolMessage::read_buffer(&buf, 8).is_none());
    let buf = report(&[0x6b, 0x73, 0x6b, 0xf0, 0x00]);
    assert!(ProtocolMessage::read_buffer(&buf, 8).is_none());
}

#[test]
fn encode_full_black_example() {
    let msg = ProtocolMessage::RgbSetFull(RgbSetFullMessage {
        color: Hsv { hue_mdeg: 0, sat: 0, val: 0 },
    });
    assert_eq!(msg.encode(), vec![0x00, 0x6b, 0x73, 0x6b, 0x20, 0x00, 0x00, 0x00]);
}

#[test]
fn shutdown_report_is_full_black() {
    assert_eq!(
        LoopCore::shutdown_report(),
        vec![0x00, 0x6b, 0x73, 0x6b, 0x20, 0x00, 0x00, 0x00]
    );
}

#[test]
fn encode_single_red_entry() {
    let msg = ProtocolMessage::RgbSet(RgbSetMessage {
        colors: vec![(5, Hsv { hue_mdeg: 0, sat: 255, val: 255 })],
    });
    assert_eq!(
        msg.encode(),
        vec![0x00, 0x6b, 0x73, 0x6b, 0x21, 5, 255, 0, 0]
    );
}

#[test]
fn encode_batch_of_three() {
    let msg = ProtocolMessage::RgbSet(RgbSetMessage {
        colors: vec![
            (0, Hsv { hue_mdeg: 0, sat: 255, val: 255 }),
            (1, Hsv { hue_mdeg: 120000, sat: 255, val: 255 }),
            (2, Hsv { hue_mdeg: 240000, sat: 255, val: 255 }),
        ],
    });
    assert_eq!(
        msg.encode(),
        vec![
            0x00, 0x6b, 0x73, 0x6b, 0x23, // header: three entries
            0, 255, 0, 0, // red
            1, 0, 255, 0, // green
            2, 0, 0, 255, // blue
        ]
    );
}

#[test]
fn rgb_conversion_matches_palette_on_exact_corners() {
    // The wire encoding must agree with the float conversion the rest of
    // the ecosystem uses, wherever that conversion is exact.
    for (hue_mdeg, sat, val) in [
        (0u32, 255u8, 255u8),
        (60000, 255, 255),
        (120000, 255, 255),
        (180000, 255, 255),
        (240000, 255, 255),
        (300000, 255, 255),
        (0, 0, 0),
        (90000, 0, 255),
        (0, 255, 0),
    ] {
        let hsv = palette::Hsv::new(hue_mdeg as f32 / 1000.0, sat as f32 / 255.0, val as f32 / 255.0);
        let rgb: palette::rgb::Rgb = hsv.into_color();
        let expect = [
            (rgb.red * 255.0) as u8,
            (rgb.green * 255.0) as u8,
            (rgb.blue * 255.0) as u8,
        ];
        let msg = ProtocolMessage::RgbSet(RgbSetMessage {
            colors: vec![(0, Hsv { hue_mdeg, sat, val })],
        });
        let encoded = msg.encode();
        assert_eq!(
            &encoded[6..9],
            &expect,
            "hsv ({hue_mdeg}, {sat}, {val})"
        );
    }
}
