use knx_home::config::EibAddr;
use knx_home::data::{Dimension, Unit, Value};
use knx_home::knx::{float16_fields, float16_of, Message};

fn frame(len: usize) -> Vec<u8> {
    let mut v = vec![0u8; len];
    if len >= 14 {
        v[10] = 0x12;
        v[11] = 0x7e;
        v[12] = 0x0a;
        v[13] = 0x04;
    }
    v
}

#[test]
fn short_frames_are_refused() {
    assert!(Message::from_raw(vec![], 0).is_err());
    assert!(Message::from_raw(frame(13), 0).is_err());
    assert!(Message::from_raw(frame(14), 0).is_ok());
}

#[test]
fn addresses_of_a_frame() {
    let m = Message::from_raw(frame(14), 7).unwrap();
    assert_eq!(m.src, EibAddr(1, 2, 126));
    assert_eq!(m.dst, EibAddr(0, 10, 4));
    assert_eq!(m.timestamp, 7);
    assert!(m.measurement.is_none());
    assert_eq!(m.raw, frame(14));
}

#[test]
fn float_frames() {
    let mut v = frame(19);
    v[17] = 0x0c;
    v[18] = 0x1a;
    let m = Message::from_raw(v, 1).unwrap();
    let meas = m.measurement.unwrap();
    assert_eq!(meas.dimension, Dimension::Temperature);
    assert_eq!(meas.unit, Unit::Celsius);
    assert_eq!(meas.value, Some(Value::Float16 { negative: false, magnitude: 2100 }));

    let mut v = frame(19);
    v[13] = 0x03;
    v[17] = 0x7f;
    v[18] = 0xff;
    let meas = Message::from_raw(v, 1).unwrap().measurement.unwrap();
    assert_eq!(meas.dimension, Dimension::Brightness);
    assert_eq!(meas.unit, Unit::Lux);
    assert_eq!(meas.value, Some(Value::Float16 { negative: true, magnitude: 2047 << 15 }));

    let mut v = frame(19);
    v[13] = 0x09;
    let meas = Message::from_raw(v, 1).unwrap().measurement.unwrap();
    assert_eq!(meas.dimension, Dimension::Unspecified);
    assert_eq!(meas.unit, Unit::One);
}

#[test]
fn switch_and_percent_frames() {
    let mut v = frame(17);
    v[16] = 0x80;
    let meas = Message::from_raw(v.clone(), 0).unwrap().measurement.unwrap();
    assert_eq!(meas.dimension, Dimension::OnOff);
    assert_eq!(meas.value, Some(Value::Switch(false)));
    v[16] = 0x81;
    let meas = Message::from_raw(v, 0).unwrap().measurement.unwrap();
    assert_eq!(meas.value, Some(Value::Switch(true)));

    let mut v = frame(18);
    v[17] = 51;
    let meas = Message::from_raw(v, 0).unwrap().measurement.unwrap();
    assert_eq!(meas.dimension, Dimension::Percent);
    assert_eq!(meas.value, Some(Value::Scaled(51)));
}

#[test]
fn other_lengths_carry_nothing() {
    for len in [14usize, 15, 16, 20, 30] {
        assert!(Message::from_raw(frame(len), 0).unwrap().measurement.is_none());
    }
}

#[test]
fn float16_decoding() {
    assert_eq!(float16_of(0x00, 0x00), Value::Float16 { negative: false, magnitude: 0 });
    assert_eq!(float16_of(0x07, 0xff), Value::Float16 { negative: false, magnitude: 2047 });
    assert_eq!(float16_of(0x08, 0x01), Value::Float16 { negative: false, magnitude: 2 });
    // the sign test looks at bits 4 to 6
    assert_eq!(float16_of(0x80, 0x01), Value::Float16 { negative: false, magnitude: 1 });
    assert_eq!(float16_of(0x70, 0x01), Value::Float16 { negative: true, magnitude: 1 << 14 });
}

#[test]
fn float16_field_split() {
    assert_eq!(float16_fields(0x87, 0x10), (0x710, true, 1));
    assert_eq!(float16_fields(0x10, 0x01), (1, false, 0x10));
    assert_eq!(float16_fields(0x70, 0x00), (0, false, 0x70));
}
