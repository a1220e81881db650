use nsf_presenter::fds::{
    modulation_quantity, FdsChannel, FdsEnvelope, FdsModTable, FdsWaveTable, PHASE_RANGE,
};

#[test]
fn disable_write_forces_output_to_speed() {
    let mut env = FdsEnvelope::new();
    env.out = 20;
    env.disable = false;
    env.write_config_register(0x80);
    assert_eq!(env.out, 0);
    assert!(env.disable);
    assert_eq!(env.speed, 0);
}

#[test]
fn disable_write_with_speed_sets_output_to_speed() {
    let mut env = FdsEnvelope::new();
    env.write_config_register(0x80 | 0x15);
    assert_eq!(env.out, 0x15);
    assert_eq!(env.speed, 0x15);
    assert_eq!(env.timer, 0);
}

#[test]
fn enabled_write_keeps_output() {
    let mut env = FdsEnvelope::new();
    env.out = 7;
    env.write_config_register(0x40 | 0x02);
    assert_eq!(env.out, 7);
    assert!(!env.disable);
    assert!(env.mode);
    assert_eq!(env.speed, 2);
}

#[test]
fn envelope_steps_once_per_period() {
    let mut env = FdsEnvelope::new();
    env.write_config_register(0x40);
    // period = (0 + 1) * 1 * 8 = 8 clocks per step
    for _ in 0..7 {
        env.clock(1);
    }
    assert_eq!(env.out, 0);
    env.clock(1);
    assert_eq!(env.out, 1);
    assert_eq!(env.timer, 0);
}

#[test]
fn envelope_output_stays_within_range() {
    let mut up = FdsEnvelope::new();
    up.write_config_register(0x40);
    let mut down = FdsEnvelope::new();
    down.write_config_register(0x00);
    down.out = 32;
    for _ in 0..10_000 {
        up.clock(1);
        down.clock(1);
        assert!(up.out <= 32);
        assert!(down.out <= 32);
    }
    assert_eq!(up.out, 32);
    assert_eq!(down.out, 0);
}

#[test]
fn disabled_envelope_does_not_clock() {
    let mut env = FdsEnvelope::new();
    env.out = 5;
    env.clock(0xE8);
    assert_eq!(env.out, 5);
    assert_eq!(env.timer, 0);
}

#[test]
fn modulation_quantity_values() {
    assert_eq!(modulation_quantity(1, 1, 1024), 32);
    assert_eq!(modulation_quantity(10, 32, 256), 80);
    assert_eq!(modulation_quantity(64, 32, 291), 582);
    assert_eq!(modulation_quantity(127, 63, 1000), -62);
    assert_eq!(modulation_quantity(65, 20, 4095), 11325);
    assert_eq!(modulation_quantity(5, 0, 100), 0);
    assert_eq!(modulation_quantity(3, 7, 500), 23);
    assert_eq!(modulation_quantity(100, 63, 65535), 148478);
}

#[test]
fn noop_modulator_table_yields_no_modulation() {
    let mut m = FdsModTable::new();
    m.write_freq_low(0xFF);
    m.write_freq_high(0x0F);
    assert!(!m.mod_halt);
    for _ in 0..5000 {
        m.clock();
        assert_eq!(m.pos, 0);
        for out in [0u8, 1, 32, 63] {
            assert_eq!(modulation_quantity(m.pos, out, 0x345), 0);
        }
    }
}

#[test]
fn modulator_commands_move_position() {
    let mut m = FdsModTable::new();
    m.table = [1u8; 64];
    m.table[1] = 3;
    m.table[2] = 7;
    m.table[3] = 4;
    m.frequency = 0x800;
    m.mod_halt = false;
    // 0x800 per clock: one entry every 32 clocks
    for _ in 0..32 {
        m.clock();
    }
    assert_eq!(m.pos, 1);
    for _ in 0..32 {
        m.clock();
    }
    assert_eq!(m.pos, 5);
    for _ in 0..32 {
        m.clock();
    }
    assert_eq!(m.pos, 4);
    for _ in 0..32 {
        m.clock();
    }
    assert_eq!(m.pos, 0);
}

#[test]
fn modulator_position_wraps_downward() {
    let mut m = FdsModTable::new();
    m.table = [5u8; 64];
    m.frequency = 0x800;
    m.mod_halt = false;
    m.pos = 2;
    for _ in 0..32 {
        m.clock();
    }
    assert_eq!(m.pos, 126);
}

#[test]
fn phases_stay_within_22_bits() {
    let mut m = FdsModTable::new();
    m.frequency = 0xFFF;
    m.mod_halt = false;
    m.phase = PHASE_RANGE - 1;
    m.clock();
    assert!(m.phase < PHASE_RANGE);
    assert_eq!(m.phase, (PHASE_RANGE - 1 + 0xFFF) % PHASE_RANGE);

    let mut w = FdsWaveTable::new();
    w.write_freq_low(0xFF);
    w.write_freq_high(0x0F);
    w.phase = PHASE_RANGE - 5;
    for _ in 0..1000 {
        w.clock(0x40, 63);
        assert!(w.phase < PHASE_RANGE);
    }
}

#[test]
fn mod_freq_high_halts_and_keeps_coarse_phase() {
    let mut m = FdsModTable::new();
    m.phase = 0x12_3456;
    m.write_freq_low(0x34);
    m.write_freq_high(0x82);
    assert!(m.mod_halt);
    assert_eq!(m.frequency, 0x234);
    assert_eq!(m.phase, 0x12_0000);
}

#[test]
fn wave_freq_high_sets_halts() {
    let mut w = FdsWaveTable::new();
    w.phase = 0x1234;
    w.write_freq_low(0x34);
    w.write_freq_high(0x02);
    assert_eq!(w.frequency, 0x234);
    assert!(!w.wave_halt);
    assert!(!w.env_halt);
    assert_eq!(w.phase, 0x1234);
    w.write_freq_high(0xC2);
    assert!(w.wave_halt);
    assert!(w.env_halt);
    assert!(w.env_halt_ticked);
    assert_eq!(w.phase, 0);
}

#[test]
fn unmodulated_wave_advances_by_frequency() {
    let mut ch = FdsChannel::new("FDS");
    ch.nsf_init();
    ch.wave_table.write_freq_low(0x40);
    ch.wave_table.write_freq_high(0x01);
    assert!(ch.mod_table.mod_halt);
    let mut last = ch.wave_table.phase;
    for _ in 0..1000 {
        ch.clock();
        let now = ch.wave_table.phase;
        assert_eq!(now, (last + 0x140) % PHASE_RANGE);
        assert_eq!(ch.tick_frequency(), 0x140);
        last = now;
    }
}

#[test]
fn nsf_init_programs_the_bios_state() {
    let mut ch = FdsChannel::new("FDS");
    ch.nsf_init();
    assert_eq!(ch.master_envelope_speed, 0xE8);
    assert!(ch.vol_envelope.disable);
    assert_eq!(ch.vol_envelope.out, 0);
    assert!(!ch.mod_envelope.disable);
    assert_eq!(ch.mod_envelope.out, 0);
    assert!(ch.wave_table.wave_halt);
    assert!(ch.mod_table.mod_halt);
    assert_eq!(ch.mod_table.pos, 0);
    assert_eq!(ch.mod_table.frequency, 0);
}

#[test]
fn channel_output_and_edges() {
    let mut ch = FdsChannel::new("FDS");
    ch.nsf_init();
    for i in 0..64 {
        ch.wave_table.table[i] = i as u8;
    }
    ch.vol_envelope.write_config_register(0x80 | 0x20);
    ch.wave_table.write_config_register(0x00);
    ch.wave_table.write_freq_low(0x00);
    ch.wave_table.write_freq_high(0x08);
    // 0x800 per clock: next table entry every 32 clocks
    for _ in 0..32 {
        ch.clock();
    }
    assert_eq!(ch.current_volume, 1 * 32 * 2 / 2);
    let mut saw_edge = false;
    for _ in 0..(64 * 32) {
        ch.clock();
        if ch.last_edge {
            saw_edge = true;
        }
        ch.record_current_output(0);
    }
    assert!(saw_edge);
    assert_eq!(ch.chip(), "FDS");
    assert_eq!(ch.name(), "FDS");
}

#[test]
fn mute_and_unmute() {
    let mut ch = FdsChannel::new("FDS");
    assert!(!ch.muted());
    ch.mute();
    assert!(ch.muted());
    ch.unmute();
    assert!(!ch.muted());
    assert!(ch.playing());
    assert_eq!(ch.min_sample(), -2048);
    assert_eq!(ch.max_sample(), 2048);
}

#[test]
fn running_envelope_above_cap_still_clocks() {
    let mut ch = FdsChannel::new("FDS");
    ch.nsf_init();
    ch.vol_envelope.write_config_register(0xBF);
    ch.vol_envelope.write_config_register(0x7F);
    assert_eq!(ch.vol_envelope.out, 63);
    ch.wave_table.table = [1u8; 64];
    ch.wave_table.write_freq_high(0x01);
    ch.clock();
    // the volume read by the channel is capped at 32
    assert_eq!(ch.current_volume, 32);
}

#[test]
fn disabled_envelope_ignores_zero_master_speed() {
    let mut env = FdsEnvelope::new();
    env.clock(0);
    assert_eq!(env.timer, 0);
}
