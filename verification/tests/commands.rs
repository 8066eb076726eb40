use knx_home::knx::Command;

#[test]
fn command_texts() {
    let cases = [
        ("on", Command::Switch(true)),
        ("off", Command::Switch(false)),
        ("dim-0", Command::Dimmer(0)),
        ("dim-5", Command::Dimmer(5)),
        ("dim-10", Command::Dimmer(10)),
        ("dim-25", Command::Dimmer(25)),
        ("dim-50", Command::Dimmer(50)),
        ("dim-100", Command::Dimmer(100)),
        ("shutter-0", Command::Shutter(1)),
        ("shutter-50", Command::Shutter(50)),
        ("shutter-90", Command::Shutter(90)),
        ("shutter-170", Command::Shutter(170)),
        ("shutter-180", Command::Shutter(180)),
        ("shutter-255", Command::Shutter(255)),
    ];
    for (text, command) in cases {
        assert_eq!(Command::from_str(text).unwrap(), command);
    }
}

#[test]
fn unknown_command_text() {
    assert_eq!(Command::from_str("dim-7").unwrap_err(), "unknown string 'dim-7'");
    assert_eq!(Command::from_str("ON").unwrap_err(), "unknown string 'ON'");
    assert_eq!(Command::from_str("").unwrap_err(), "unknown string ''");
    assert_eq!(Command::from_str("on ").unwrap_err(), "unknown string 'on '");
}
