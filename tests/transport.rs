use panel_bringup::transport::{
    encode_frames, BusConfig, BusError, Frame, FrameKind, Pins, Signal, SpiMode,
};

fn board_pins() -> Pins {
    Pins { sck: 18, mosi: 19, cs: 5, dc: 16, rst: 23, backlight: 4 }
}

#[test]
fn board_configuration_is_accepted() {
    let c = BusConfig::new(26_000_000, SpiMode::Mode0, board_pins()).unwrap();
    assert_eq!(c.frequency_hz, 26_000_000);
    assert_eq!(c.mode, SpiMode::Mode0);
    assert_eq!(c.pins, board_pins());
}

#[test]
fn zero_frequency_is_refused() {
    assert_eq!(
        BusConfig::new(0, SpiMode::Mode0, board_pins()),
        Err(BusError::FrequencyTooLow)
    );
    assert_eq!(
        BusConfig::new(152, SpiMode::Mode0, board_pins()),
        Err(BusError::FrequencyTooLow)
    );
    assert!(BusConfig::new(153, SpiMode::Mode0, board_pins()).is_ok());
}

#[test]
fn too_fast_is_refused() {
    assert_eq!(
        BusConfig::new(80_000_001, SpiMode::Mode3, board_pins()),
        Err(BusError::FrequencyTooHigh)
    );
    assert!(BusConfig::new(80_000_000, SpiMode::Mode3, board_pins()).is_ok());
}

#[test]
fn input_only_pin_is_refused() {
    let mut p = board_pins();
    p.backlight = 34;
    assert_eq!(BusConfig::new(26_000_000, SpiMode::Mode0, p), Err(BusError::InvalidPin));
}

#[test]
fn shared_pin_is_refused() {
    let mut p = board_pins();
    p.rst = p.dc;
    assert_eq!(BusConfig::new(26_000_000, SpiMode::Mode0, p), Err(BusError::PinConflict));
}

#[test]
fn mode_polarity_and_phase() {
    assert_eq!((SpiMode::Mode0.polarity(), SpiMode::Mode0.phase()), (false, false));
    assert_eq!((SpiMode::Mode1.polarity(), SpiMode::Mode1.phase()), (false, true));
    assert_eq!((SpiMode::Mode2.polarity(), SpiMode::Mode2.phase()), (true, false));
    assert_eq!((SpiMode::Mode3.polarity(), SpiMode::Mode3.phase()), (true, true));
}

#[test]
fn command_frame_puts_opcode_first() {
    let f = Frame::command(0x36, &vec![0x60]);
    assert_eq!(f.kind, FrameKind::Command);
    assert_eq!(f.bytes, vec![0x36, 0x60]);
    let d = Frame::data(vec![1, 2, 3]);
    assert_eq!(d.kind, FrameKind::Data);
    assert_eq!(d.bytes, vec![1, 2, 3]);
}

#[test]
fn solid_pixels_are_big_endian() {
    let f = Frame::solid_pixels(0xF81F, 3);
    assert_eq!(f.kind, FrameKind::Data);
    assert_eq!(f.bytes, vec![0xF8, 0x1F, 0xF8, 0x1F, 0xF8, 0x1F]);
}

fn check_discipline(s: &[Signal]) {
    let mut selected = false;
    for sig in s {
        match sig {
            Signal::DataCommand(_) => assert!(!selected),
            Signal::Select => {
                assert!(!selected);
                selected = true;
            }
            Signal::Byte(_) => assert!(selected),
            Signal::Deselect => {
                assert!(selected);
                selected = false;
            }
        }
    }
    assert!(!selected);
}

#[test]
fn frames_are_framed_by_chip_select_in_every_mode() {
    let pins = board_pins();
    for mode in [SpiMode::Mode0, SpiMode::Mode1, SpiMode::Mode2, SpiMode::Mode3] {
        let c = BusConfig::new(26_000_000, mode, pins).unwrap();
        let frames = vec![
            Frame::command(0x2A, &vec![0, 0, 0, 169]),
            Frame::data(vec![0xAB]),
            Frame::command(0x29, &vec![]),
        ];
        let s = encode_frames(&c, &frames);
        assert_eq!(
            s,
            vec![
                Signal::DataCommand(false),
                Signal::Select,
                Signal::Byte(0x2A),
                Signal::Byte(0),
                Signal::Byte(0),
                Signal::Byte(0),
                Signal::Byte(169),
                Signal::Deselect,
                Signal::DataCommand(true),
                Signal::Select,
                Signal::Byte(0xAB),
                Signal::Deselect,
                Signal::DataCommand(false),
                Signal::Select,
                Signal::Byte(0x29),
                Signal::Deselect,
            ]
        );
        check_discipline(&s);
    }
}

#[test]
fn no_frames_no_signals() {
    let c = BusConfig::new(26_000_000, SpiMode::Mode0, board_pins()).unwrap();
    assert!(encode_frames(&c, &vec![]).is_empty());
}
