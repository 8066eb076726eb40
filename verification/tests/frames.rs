use knx_home::config::EibAddr;
use knx_home::knx::{
    command_telegram, create_knx_frame_dimmer, create_knx_frame_onoff, create_knx_frame_rollo,
    telegram_for, Command, Message,
};

const HEADER: [u8; 12] = [0x06, 0x10, 0x05, 0x30, 0x00, 0x00, 0x29, 0x00, 0xbc, 0xe0, 0x12, 0x7e];

fn header(total: u8) -> Vec<u8> {
    let mut h = HEADER.to_vec();
    h[5] = total;
    h
}

#[test]
fn onoff_frames() {
    let on = create_knx_frame_onoff(0x1203, true).unwrap();
    let mut expected = header(0x11);
    expected.extend_from_slice(&[0x12, 0x03, 1, 0, 0x81]);
    assert_eq!(on.raw, expected);
    let off = create_knx_frame_onoff(0x1203, false).unwrap();
    assert_eq!(off.raw[16], 0x80);
    assert_eq!(off.raw.len(), 17);
}

#[test]
fn dimmer_frames() {
    let m = create_knx_frame_dimmer(0x0016, 50).unwrap();
    let mut expected = header(0x12);
    expected.extend_from_slice(&[0x00, 0x16, 2, 0, 0x80, 127]);
    assert_eq!(m.raw, expected);
    assert_eq!(create_knx_frame_dimmer(0, 100).unwrap().raw[17], 255);
    assert_eq!(create_knx_frame_dimmer(0, 0).unwrap().raw[17], 0);
    // above 100 percent the level wraps to its low byte: 200 * 255 / 100 = 510
    assert_eq!(create_knx_frame_dimmer(0, 200).unwrap().raw[17], (510 % 256) as u8);
}

#[test]
fn rollo_frames() {
    let m = create_knx_frame_rollo(0x0016, &170).unwrap();
    let mut expected = header(18);
    expected.extend_from_slice(&[0x00, 0x16, 2, 0, 0x80, 170]);
    assert_eq!(m.raw, expected);
}

#[test]
fn telegram_for_group_text() {
    let m = telegram_for(&"0/0/22".to_string(), &Command::Shutter(90));
    assert_eq!(m.raw, create_knx_frame_rollo(0x0016, &90).unwrap().raw);
    let m = telegram_for(&"1/2/3".to_string(), &Command::Switch(true));
    assert_eq!(m.raw, create_knx_frame_onoff(0x1203, true).unwrap().raw);
    let m = command_telegram(0x1203, &Command::Dimmer(25));
    assert_eq!(m.raw, create_knx_frame_dimmer(0x1203, 25).unwrap().raw);
}

#[test]
fn telegram_declares_its_length() {
    for c in [Command::Switch(true), Command::Dimmer(10), Command::Shutter(3)] {
        let m = command_telegram(0x0a0b, &c);
        assert_eq!(m.raw[5] as usize, m.raw.len());
    }
}

#[test]
fn telegram_reads_back() {
    let m = telegram_for(&"3/4/5".to_string(), &Command::Switch(true));
    let msg = Message::from_raw(m.raw.clone(), 42).unwrap();
    assert_eq!(msg.dst, EibAddr(3, 4, 5));
    assert_eq!(msg.src, EibAddr(1, 2, 126));
    let meas = msg.measurement.unwrap();
    assert_eq!(meas.value, Some(knx_home::data::Value::Switch(true)));
    assert_eq!(meas.dimension, knx_home::data::Dimension::OnOff);
    assert_eq!(meas.timestamp, 42);
}
