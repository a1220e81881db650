use nsf_presenter::nsf::NsfDriverType;
use nsf_presenter::options::StopCondition;
use nsf_presenter::render::{
    next_expected_duration, next_fadeout_timer, next_packet, read_song_position, scale_sample,
    song_position_from_bytes, take_scaled_samples, validate_stop_condition, volume_divisor,
    ConfigError, LoopTracker, PacketChoice, RenderPhase, RenderState, SongPosition,
};
use nsf_presenter::ring_buffer::{find_edge, RingBuffer};

#[test]
fn loop_detected_on_frame_counter_wrap() {
    let mut t = LoopTracker::new();
    let mut frame: u32 = 0;
    // frames 0..=250, one song frame each, row 0, the last at row 3
    for f in 0..=250u8 {
        t.observe(SongPosition::new(f, if f == 250 { 3 } else { 0 }), frame);
        frame += 1;
    }
    assert_eq!(t.loop_count, 0);
    assert!(t.loop_duration.is_none());
    // the song jumps back to frame 5, row 0
    t.observe(SongPosition::new(5, 0), frame);
    assert_eq!(t.loop_count, 1);
    assert_eq!(t.loop_duration, Some((5, (frame - 5) as usize)));
}

#[test]
fn short_repeat_is_not_a_loop_window() {
    let mut t = LoopTracker::new();
    t.observe(SongPosition::new(1, 0), 0);
    t.observe(SongPosition::new(2, 0), 10);
    t.observe(SongPosition::new(1, 0), 20);
    assert_eq!(t.loop_count, 1);
    assert!(t.loop_duration.is_none());
}

#[test]
fn song_position_bytes() {
    assert_eq!(song_position_from_bytes(0x02, 4, 5, 0), SongPosition::at_end());
    assert_eq!(song_position_from_bytes(0x00, 4, 5, 0x01), SongPosition::new(5, 0));
    assert_eq!(song_position_from_bytes(0x00, 4, 5, 0x00), SongPosition::new(5, 4));
}

#[test]
fn song_position_from_ram() {
    let mut ram = vec![0u8; 0x800];
    ram[0x211] = 0;
    ram[0x212] = 7;
    ram[0x213] = 9;
    ram[0x214] = 0;
    assert_eq!(read_song_position(&ram, NsfDriverType::FTClassic, false), Some(SongPosition::new(9, 7)));
    ram[0x217] = 0;
    ram[0x218] = 3;
    ram[0x219] = 2;
    ram[0x21A] = 0;
    assert_eq!(read_song_position(&ram, NsfDriverType::FT0CC, true), Some(SongPosition::new(2, 3)));
    assert_eq!(read_song_position(&ram, NsfDriverType::Unknown, false), None);
    assert_eq!(read_song_position(&ram[..0x100], NsfDriverType::FTDn, false), None);
}

#[test]
fn song_position_text() {
    assert_eq!(SongPosition::new(0x1A, 5).to_text(), "1A:05");
}

#[test]
fn fadeout_reaches_zero_after_length_frames() {
    let mut timer = next_fadeout_timer(None, 180, true, StopCondition::Frames(1_000_000), 0, 10, 0);
    assert_eq!(timer, Some(180));
    let mut steps = 0;
    while timer != Some(0) {
        timer = next_fadeout_timer(timer, 180, false, StopCondition::Frames(1_000_000), 0, 10, 0);
        steps += 1;
    }
    assert_eq!(steps, 180);
    assert_eq!(next_fadeout_timer(timer, 180, false, StopCondition::Frames(1), 0, 10, 0), Some(0));
    assert_eq!(volume_divisor(180, Some(60)), 3);
}

#[test]
fn volume_divisor_cases() {
    assert_eq!(volume_divisor(180, None), 1);
    assert_eq!(volume_divisor(180, Some(180)), 1);
    assert_eq!(volume_divisor(180, Some(1)), 180);
    assert_eq!(volume_divisor(180, Some(0)), 0x7FFF);
    assert_eq!(volume_divisor(0, Some(0)), 0);
}

#[test]
fn stop_conditions_trigger_fadeout() {
    assert_eq!(next_fadeout_timer(None, 10, false, StopCondition::Loops(2), 1, 0, 0), None);
    assert_eq!(next_fadeout_timer(None, 10, false, StopCondition::Loops(2), 2, 0, 0), Some(10));
    assert_eq!(next_fadeout_timer(None, 10, false, StopCondition::Frames(300), 0, 299, 0), None);
    assert_eq!(next_fadeout_timer(None, 10, false, StopCondition::Frames(300), 0, 300, 0), Some(10));
    assert_eq!(next_fadeout_timer(None, 10, false, StopCondition::NsfeLength, 0, 99, 100), None);
    assert_eq!(next_fadeout_timer(None, 10, false, StopCondition::NsfeLength, 0, 100, 100), Some(10));
}

#[test]
fn unknown_driver_cannot_stop_on_loops() {
    let r = validate_stop_condition(StopCondition::Loops(2), NsfDriverType::Unknown, None);
    assert_eq!(r, Err(ConfigError::LoopDetectionUnsupported));
    assert!(ConfigError::LoopDetectionUnsupported.message().contains("Loop detection not supported"));
    let st = RenderState::new(StopCondition::Loops(2), 180, NsfDriverType::Unknown, None);
    assert!(matches!(st, Err(ConfigError::LoopDetectionUnsupported)));
    assert_eq!(validate_stop_condition(StopCondition::Loops(2), NsfDriverType::FTDn, None), Ok(()));
    assert_eq!(
        validate_stop_condition(StopCondition::NsfeLength, NsfDriverType::FTDn, None),
        Err(ConfigError::MissingNsfeDuration)
    );
    assert_eq!(validate_stop_condition(StopCondition::NsfeLength, NsfDriverType::Unknown, Some(5)), Ok(()));
}

#[test]
fn render_state_runs_to_the_end_of_the_fade() {
    let mut st = RenderState::new(StopCondition::Frames(100), 20, NsfDriverType::Unknown, None).unwrap();
    assert_eq!(st.phase, RenderPhase::Idle);
    st.begin();
    assert_eq!(st.phase, RenderPhase::Priming);
    st.primed();
    assert_eq!(st.phase, RenderPhase::Stepping);
    let mut frame: u64 = 0;
    let mut going = true;
    while going {
        frame += 1;
        going = st.step(false, 0, frame, None);
    }
    assert_eq!(frame, 120);
    assert_eq!(st.expected_duration, Some(120));
    assert_eq!(st.phase, RenderPhase::Draining);
    st.drained();
    assert_eq!(st.phase, RenderPhase::Done);
    st.fail();
    assert_eq!(st.phase, RenderPhase::Failed);
}

#[test]
fn expected_durations() {
    assert_eq!(next_expected_duration(None, StopCondition::Frames(300), 180, None, None), Some(480));
    assert_eq!(next_expected_duration(None, StopCondition::Loops(2), 180, Some((100, 600)), None), Some(1480));
    assert_eq!(next_expected_duration(None, StopCondition::Loops(2), 180, None, None), None);
    assert_eq!(next_expected_duration(None, StopCondition::NsfeLength, 180, None, Some(1000)), Some(1180));
    assert_eq!(next_expected_duration(Some(7), StopCondition::Frames(300), 180, None, None), Some(7));
    assert_eq!(next_expected_duration(None, StopCondition::Loops(2), 0, Some((0, usize::MAX)), None), None);
}

#[test]
fn sample_scaling() {
    assert_eq!(scale_sample(300, 1), 400);
    assert_eq!(scale_sample(300, 0), 400);
    assert_eq!(scale_sample(300, 3), 133);
    assert_eq!(scale_sample(-300, 1), -400);
    assert_eq!(scale_sample(-7, 2), -4);
    assert_eq!(scale_sample(30000, 1), 32767);
    assert_eq!(scale_sample(-30000, 1), -32768);
}

#[test]
fn taking_samples() {
    let mut buf: Vec<i16> = vec![3, 6, 9, 12, 15];
    assert_eq!(take_scaled_samples(&mut buf, 6, 1), None);
    assert_eq!(buf.len(), 5);
    assert_eq!(take_scaled_samples(&mut buf, 3, 3), Some(vec![1, 2, 4]));
    assert_eq!(buf, vec![12, 15]);
}

#[test]
fn interleave_policy() {
    assert_eq!(next_packet(0, 0, 1024, 1024, true), PacketChoice::Audio);
    assert_eq!(next_packet(1, 0, 1024, 1024, true), PacketChoice::Video);
    assert_eq!(next_packet(0, 0, 1023, 1024, true), PacketChoice::Video);
    assert_eq!(next_packet(0, 0, 1023, 1024, false), PacketChoice::Wait);
}

#[test]
fn ring_buffer_wraps() {
    let mut rb = RingBuffer::new(4);
    for v in 1..=6 {
        rb.push(v);
    }
    assert_eq!(rb.index(), 2);
    assert_eq!(rb.buffer(), &vec![5, 6, 3, 4]);
}

#[test]
fn edge_search() {
    let mut rb = RingBuffer::new(16);
    for i in 0..16 {
        rb.push(if i == 3 { 1 } else { 0 });
    }
    // cursor at 0; window 4 starts the scan at 12 and goes back to 3
    assert_eq!(find_edge(&rb, 4), 1);
    let empty = RingBuffer::new(16);
    assert_eq!(find_edge(&empty, 4), 12);
}
