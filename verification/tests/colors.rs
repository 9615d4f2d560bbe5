use textrender::{render_to_string, LimitedSink, Renderable, RgbColor, TextSink, WriteError};

#[test]
fn black_renders_with_six_zeros() {
    assert_eq!(render_to_string(&RgbColor::new(0, 0, 0)), "RGB (0, 0, 0) 0x000000");
}

#[test]
fn color_renders_channels_and_upper_case_hex() {
    assert_eq!(render_to_string(&RgbColor::new(128, 255, 90)), "RGB (128, 255, 90) 0x80FF5A");
}

#[test]
fn color_with_small_channels_is_zero_padded() {
    assert_eq!(render_to_string(&RgbColor::new(0, 3, 254)), "RGB (0, 3, 254) 0x0003FE");
}

#[test]
fn white_renders_with_six_f() {
    assert_eq!(render_to_string(&RgbColor::new(255, 255, 255)), "RGB (255, 255, 255) 0xFFFFFF");
}

#[test]
fn packed_is_red_then_green_then_blue() {
    assert_eq!(RgbColor::new(128, 255, 90).packed(), 0x80FF5A);
    assert_eq!(RgbColor::new(1, 2, 3).packed(), 65536 + 512 + 3);
    assert_eq!(RgbColor::new(0, 0, 0).packed(), 0);
    assert_eq!(RgbColor::new(255, 255, 255).packed(), 0xFFFFFF);
}

#[test]
fn color_text_agrees_with_std_formatting() {
    for (r, g, b) in [(0u8, 0u8, 1u8), (9, 10, 11), (15, 16, 17), (99, 100, 101), (171, 205, 239)] {
        let c = RgbColor::new(r, g, b);
        let expected = format!("RGB ({}, {}, {}) 0x{:06X}", r, g, b, c.packed());
        assert_eq!(c.to_text(), expected);
        assert_eq!(render_to_string(&c), expected);
    }
}

#[test]
fn channels_come_back_as_given() {
    let c = RgbColor::new(128, 255, 90);
    assert_eq!(c.channels(), (128, 255, 90));
    assert_eq!(format!("{:?}", c), "RgbColor { red: 128, green: 255, blue: 90 }");
}

#[test]
fn color_is_one_write() {
    let mut sink = LimitedSink::new(1);
    assert_eq!(RgbColor::new(1, 2, 3).render(&mut sink), Ok(()));
    assert_eq!(sink.as_str(), "RGB (1, 2, 3) 0x010203");
    assert_eq!(sink.remaining(), 0);
}

#[test]
fn color_on_a_closed_sink_writes_nothing() {
    let mut sink = LimitedSink::new(0);
    assert_eq!(RgbColor::new(1, 2, 3).render(&mut sink), Err(WriteError));
    assert_eq!(sink.as_str(), "");
    assert_eq!(sink.refused(), 1);
}

#[test]
fn two_renders_follow_each_other() {
    let mut sink = TextSink::new();
    assert_eq!(RgbColor::new(0, 0, 0).render(&mut sink), Ok(()));
    assert_eq!(RgbColor::new(255, 0, 0).render(&mut sink), Ok(()));
    assert_eq!(sink.as_str(), "RGB (0, 0, 0) 0x000000RGB (255, 0, 0) 0xFF0000");
}

#[test]
fn color_has_one_piece() {
    let c = RgbColor::new(128, 255, 90);
    assert_eq!(c.piece(0), Some("RGB (128, 255, 90) 0x80FF5A".to_string()));
    assert_eq!(c.piece(1), None);
}
