use nsf_presenter::controller::{fix_dpad, StandardControllerButton};
use nsf_presenter::options::{parse_unsigned, RendererOptions, StopCondition, StopConditionError};
use nsf_presenter::drawing::Color;
use nsf_presenter::piano_roll::{
    color_setting_key, color_setting_value, default_channel_settings, default_colors, ChannelName, Chip,
};
use nsf_presenter::render::decoder_should_wait;

#[test]
fn stop_condition_parsing() {
    assert_eq!(StopCondition::parse("time:3"), Ok(StopCondition::Frames(180)));
    assert_eq!(StopCondition::parse("time:nsfe"), Ok(StopCondition::NsfeLength));
    assert_eq!(StopCondition::parse("frames:180"), Ok(StopCondition::Frames(180)));
    assert_eq!(StopCondition::parse("loops:2"), Ok(StopCondition::Loops(2)));
    assert_eq!(StopCondition::parse("loops:+2"), Ok(StopCondition::Loops(2)));
    assert_eq!(StopCondition::parse("loops"), Err(StopConditionError::InvalidFormat));
    assert_eq!(StopCondition::parse("a:b:c"), Err(StopConditionError::InvalidFormat));
    assert_eq!(StopCondition::parse("frames:x"), Err(StopConditionError::InvalidNumber));
    assert_eq!(StopCondition::parse("frames:"), Err(StopConditionError::InvalidNumber));
    assert_eq!(StopCondition::parse("time:-1"), Err(StopConditionError::InvalidNumber));
    assert_eq!(StopCondition::parse("frames:18446744073709551616"), Err(StopConditionError::InvalidNumber));
    assert_eq!(StopCondition::parse("time:307445734561825861"), Err(StopConditionError::InvalidNumber));
    assert_eq!(StopCondition::parse("seconds:3"), Err(StopConditionError::UnknownType));
    let parsed: StopCondition = "frames:5".parse().unwrap();
    assert_eq!(parsed, StopCondition::Frames(5));
}

#[test]
fn stop_condition_text() {
    assert_eq!(StopCondition::Frames(180).to_text(), "time:3");
    assert_eq!(StopCondition::Frames(181).to_text(), "frames:181");
    assert_eq!(StopCondition::Loops(2).to_text(), "loops:2");
    assert_eq!(StopCondition::NsfeLength.to_text(), "time:nsfe");
    assert_eq!(StopCondition::Frames(0).to_text(), "time:0");
}

#[test]
fn unsigned_numbers() {
    assert_eq!(parse_unsigned(&['4', '2'], 100), Some(42));
    assert_eq!(parse_unsigned(&['4', '2'], 41), None);
    assert_eq!(parse_unsigned(&['+'], 100), None);
    assert_eq!(parse_unsigned(&[], 100), None);
}

#[test]
fn default_options() {
    let o = RendererOptions::default();
    assert_eq!(o.stop_condition, StopCondition::Frames(18000));
    assert_eq!(o.fadeout_length, 180);
    assert!(o.high_quality);
    assert_eq!(o.sample_rate, 44100);
}

#[test]
fn dpad_fix() {
    assert_eq!(fix_dpad(0xFF, StandardControllerButton::DPadUp), 0b1101_1111);
    assert_eq!(fix_dpad(0xFF, StandardControllerButton::DPadDown), 0b1110_1111);
    assert_eq!(fix_dpad(0xFF, StandardControllerButton::DPadLeft), 0b0111_1111);
    assert_eq!(fix_dpad(0xFF, StandardControllerButton::DPadRight), 0b1011_1111);
    assert_eq!(fix_dpad(0xFF, StandardControllerButton::A), 0xFF);
}

#[test]
fn default_palettes() {
    let pulse = default_colors(Chip::Apu2A03, ChannelName::Pulse1).unwrap();
    assert_eq!(pulse.len(), 4);
    assert_eq!(pulse[2].data, [0xFF, 0x40, 0x40, 255]);
    let fm = default_colors(Chip::Vrc7, ChannelName::Fm(3)).unwrap();
    assert_eq!(fm.len(), 16);
    assert!(default_colors(Chip::Vrc7, ChannelName::Fm(7)).is_none());
    assert!(default_colors(Chip::Fds, ChannelName::Pulse1).is_none());
    let all = default_channel_settings();
    assert_eq!(all.len(), 30);
    assert!(all.iter().all(|(_, _, s)| !s.hidden));
    assert_eq!(Chip::YM2149F.name(), "YM2149F");
    assert_eq!(Chip::FinalMix.name(), "APU");
    assert_eq!(ChannelName::Namco(3).name(), "NAMCO 3");
    assert_eq!(ChannelName::Dmc.name(), "DMC");
}

#[test]
fn color_settings_text() {
    assert_eq!(color_setting_key(Chip::Apu2A03, ChannelName::Pulse2, 3), "duty3");
    assert_eq!(color_setting_key(Chip::Apu2A03, ChannelName::Noise, 1), "mode1");
    assert_eq!(color_setting_key(Chip::Vrc6, ChannelName::Sawtooth, 0), "mode0");
    assert_eq!(color_setting_key(Chip::N163, ChannelName::Namco(2), 0), "gradient_low");
    assert_eq!(color_setting_key(Chip::N163, ChannelName::Namco(2), 1), "gradient_high");
    assert_eq!(color_setting_key(Chip::Vrc7, ChannelName::Fm(1), 11), "patchB");
    assert_eq!(color_setting_key(Chip::Fds, ChannelName::Fds, 0), "static");
    assert_eq!(color_setting_value(Color::rgb(0x42, 0xA5, 0xF5)), "#42A5F5");
    assert_eq!(color_setting_value(Color::rgba(1, 22, 133, 4)), "rgba(1, 22, 133, 4)");
}

#[test]
fn decoder_backpressure() {
    assert!(!decoder_should_wait(1800, false));
    assert!(decoder_should_wait(1801, false));
    assert!(decoder_should_wait(1500, true));
    assert!(!decoder_should_wait(1200, true));
}
