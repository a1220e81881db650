//! The FDS expansion sound unit: wave table, modulator, the two envelopes
//! and the channel that clocks them in hardware order.
use vstd::arithmetic::div_mod::{lemma_fundamental_div_mod, lemma_fundamental_div_mod_converse};
use crate::ring_buffer::RingBuffer;
use vstd::prelude::*;

verus! {

/// Number of distinct phase values: the accumulators hold 22 bits.
pub const PHASE_RANGE: usize = 0x400000;

/// Number of phase values per table entry.
pub const PHASE_PER_ENTRY: usize = 0x10000;

/// The modulator position after executing one table command.
pub open spec fn mod_step(pos: int, code: u8) -> int {
    if code == 0 {
        pos
    } else if code == 1 {
        (pos + 1) % 128
    } else if code == 2 {
        (pos + 2) % 128
    } else if code == 3 {
        (pos + 4) % 128
    } else if code == 4 {
        0
    } else if code == 5 {
        (pos + 128 - 4) % 128
    } else if code == 6 {
        (pos + 128 - 2) % 128
    } else {
        (pos + 128 - 1) % 128
    }
}

/// The modulator position after executing the commands for the table entries
/// `start .. end` in order (entry `i` is `table[i % 64]`).
pub open spec fn mod_run(table: Seq<u8>, pos: int, start: int, end: int) -> int
    decreases end - start,
{
    if end <= start {
        pos
    } else {
        mod_step(mod_run(table, pos, start, end - 1), table[(end - 1) % 64])
    }
}

/// The FDS modulator: a 64-entry table of 3-bit commands stepped by a 22-bit
/// phase accumulator, driving a 7-bit position counter.
pub struct FdsModTable {
    pub table: [u8; 64],
    pub frequency: usize,
    pub phase: usize,
    pub mod_halt: bool,
    pub pos: u32,
    pub write_pos: u32,
}

impl FdsModTable {
    /// Commands are 3-bit, the frequency 12-bit, the phase 22-bit and the
    /// position 7-bit.
    pub open spec fn wf(&self) -> bool {
        &&& forall|i: int| 0 <= i < 64 ==> #[trigger] self.table@[i] < 8
        &&& self.frequency < 0x1000
        &&& self.phase < PHASE_RANGE
        &&& self.pos < 128
    }

    pub fn new() -> (r: Self)
        ensures
            r.wf(),
            forall|i: int| 0 <= i < 64 ==> #[trigger] r.table@[i] == 0,
            r.frequency == 0,
            r.phase == 0,
            r.mod_halt,
            r.pos == 0,
            r.write_pos == 0,
    {
        let r = FdsModTable { table: [0u8; 64], frequency: 0, phase: 0, mod_halt: true, pos: 0, write_pos: 0 };
        r
    }

    /// Advances the modulator by one clock: the phase grows by the frequency,
    /// and the command of each table entry crossed on the way is executed.
    pub fn clock(&mut self)
        requires
            old(self).wf(),
        ensures
            final(self).wf(),
            final(self).phase < PHASE_RANGE,
            final(self).table == old(self).table,
            final(self).frequency == old(self).frequency,
            final(self).mod_halt == old(self).mod_halt,
            final(self).write_pos == old(self).write_pos,
            *final(self) == mod_clocked(*old(self)),
            old(self).mod_halt ==> *final(self) == *old(self),
            !old(self).mod_halt ==> {
                let sum = old(self).phase + old(self).frequency;
                &&& final(self).phase == sum % (PHASE_RANGE as int)
                &&& final(self).pos == mod_run(
                    old(self).table@,
                    old(self).pos as int,
                    old(self).phase as int / (PHASE_PER_ENTRY as int),
                    sum / (PHASE_PER_ENTRY as int),
                )
            },
    {
        if self.mod_halt {
            return;
        }
        let start_pos: usize = self.phase / PHASE_PER_ENTRY;
        let sum: usize = self.phase + self.frequency;
        let end_pos: usize = sum / PHASE_PER_ENTRY;
        self.phase = sum % PHASE_RANGE;
        let mut p: usize = start_pos;
        while p < end_pos
            invariant
                start_pos <= p <= end_pos,
                end_pos < 0x100,
                self.wf(),
                self.table == old(self).table,
                self.frequency == old(self).frequency,
                self.phase == sum % PHASE_RANGE,
                self.mod_halt == old(self).mod_halt,
                self.write_pos == old(self).write_pos,
                self.pos == mod_run(self.table@, old(self).pos as int, start_pos as int, p as int),
            decreases end_pos - p,
        {
            let code: u8 = self.table[p % 64];
            assert(code < 8);
            if code == 1 {
                self.pos = (self.pos + 1) % 128;
            } else if code == 2 {
                self.pos = (self.pos + 2) % 128;
            } else if code == 3 {
                self.pos = (self.pos + 4) % 128;
            } else if code == 4 {
                self.pos = 0;
            } else if code == 5 {
                self.pos = (self.pos + 128 - 4) % 128;
            } else if code == 6 {
                self.pos = (self.pos + 128 - 2) % 128;
            } else if code == 7 {
                self.pos = (self.pos + 128 - 1) % 128;
            }
            p = p + 1;
        }
    }

    /// Replaces the low byte of the frequency, keeping its high nibble.
    pub fn write_freq_low(&mut self, freq_low: u8)
        requires
            old(self).wf(),
        ensures
            final(self).wf(),
            final(self).frequency == (old(self).frequency as int / 256) * 256 + freq_low as int,
            final(self).phase == old(self).phase,
            final(self).mod_halt == old(self).mod_halt,
            final(self).pos == old(self).pos,
            final(self).table == old(self).table,
            final(self).write_pos == old(self).write_pos,
    {
        self.frequency = (self.frequency / 256) * 256 + freq_low as usize;
    }

    /// Replaces the high nibble of the frequency with bits 0-3 of `freq_high`;
    /// bit 7 halts the modulator, and halting clears the phase's low 16 bits.
    pub fn write_freq_high(&mut self, freq_high: u8)
        requires
            old(self).wf(),
        ensures
            final(self).wf(),
            final(self).frequency == old(self).frequency % 256 + (freq_high % 16) as int * 256,
            final(self).mod_halt == (freq_high & 0x80 != 0),
            final(self).phase == (if freq_high & 0x80 != 0 {
                (old(self).phase as int / (PHASE_PER_ENTRY as int)) * (PHASE_PER_ENTRY as int)
            } else {
                old(self).phase as int
            }),
            final(self).pos == old(self).pos,
            final(self).table == old(self).table,
            final(self).write_pos == old(self).write_pos,
    {
        self.frequency = self.frequency % 256 + (freq_high as usize % 16) * 256;
        self.mod_halt = (freq_high & 0x80) != 0;
        if self.mod_halt {
            self.phase = (self.phase / PHASE_PER_ENTRY) * PHASE_PER_ENTRY;
        }
    }
}

/// The modulator position read as a signed 7-bit value.
pub open spec fn signed_pos7(pos: int) -> int {
    if pos % 128 >= 64 {
        pos % 128 - 128
    } else {
        pos % 128
    }
}

/// The pitch offset that the modulator applies to a wave table running at
/// `frequency`, from its position and the modulation envelope's output,
/// with the hardware's rounding.
pub open spec fn mod_quantity(pos: int, out: int, frequency: int) -> int {
    if out == 0 {
        0
    } else {
        let pos7 = signed_pos7(pos);
        let m = pos7 * out;
        let q = m / 16;
        let adjusted = if m % 16 > 0 && (q / 128) % 2 == 0 {
            if pos7 < 0 {
                q - 1
            } else {
                q + 2
            }
        } else {
            q
        };
        let wrapped = (adjusted + 64) % 256 - 64;
        let scaled = wrapped * frequency;
        if scaled % 64 >= 32 {
            scaled / 64 + 1
        } else {
            scaled / 64
        }
    }
}

/// Floor division and its non-negative remainder.
fn floor_div_rem(x: i32, d: i32) -> (r: (i32, i32))
    requires
        0 < d <= 256,
        -0x1000_0000 <= x <= 0x1000_0000,
    ensures
        r.0 == x as int / d as int,
        r.1 == x as int % d as int,
{
    if x >= 0 {
        let q: u32 = (x as u32) / (d as u32);
        let m: u32 = (x as u32) % (d as u32);
        (q as i32, m as i32)
    } else {
        let a: u32 = (-x) as u32;
        let q: u32 = a / (d as u32);
        let m: u32 = a % (d as u32);
        proof {
            lemma_fundamental_div_mod(a as int, d as int);
        }
        if m == 0 {
            proof {
                assert(x as int == (-(q as int)) * d as int + 0) by (nonlinear_arith)
                    requires
                        a as int == d as int * q as int + m as int,
                        m == 0,
                        x as int == -(a as int),
                ;
                lemma_fundamental_div_mod_converse(x as int, d as int, -(q as int), 0);
            }
            (-(q as i32), 0)
        } else {
            proof {
                assert(x as int == (-(q as int) - 1) * d as int + (d as int - m as int)) by (nonlinear_arith)
                    requires
                        a as int == d as int * q as int + m as int,
                        x as int == -(a as int),
                ;
                lemma_fundamental_div_mod_converse(x as int, d as int, -(q as int) - 1, d as int - m as int);
            }
            (-(q as i32) - 1, d - m as i32)
        }
    }
}

/// The FDS wave table: 64 samples of 6-bit amplitude played by a 22-bit phase
/// accumulator whose step is the frequency plus the modulator's offset.
pub struct FdsWaveTable {
    pub table: [u8; 64],
    pub frequency: u16,
    pub phase: usize,
    pub write_enable: bool,
    pub master_volume: u8,
    pub wave_halt: bool,
    pub env_halt: bool,
    pub env_halt_ticked: bool,
    /// The phase step of the last clock, which gives the pitch being played.
    pub tick_frequency: i32,
}

impl FdsWaveTable {
    pub open spec fn wf(&self) -> bool {
        &&& self.phase < PHASE_RANGE
        &&& self.master_volume < 4
    }

    pub fn new() -> (r: Self)
        ensures
            r.wf(),
            forall|i: int| 0 <= i < 64 ==> #[trigger] r.table@[i] == 0,
            r.frequency == 0,
            r.phase == 0,
            !r.write_enable,
            r.master_volume == 0,
            r.wave_halt,
            r.env_halt,
            !r.env_halt_ticked,
            r.tick_frequency == 0,
    {
        FdsWaveTable {
            table: [0u8; 64],
            frequency: 0,
            phase: 0,
            write_enable: false,
            master_volume: 0,
            wave_halt: true,
            env_halt: true,
            env_halt_ticked: false,
            tick_frequency: 0,
        }
    }

    /// Advances the wave table by one clock, modulated by the modulator at
    /// position `mod_pos` with modulation depth `mod_out`. The one-shot
    /// "envelope halt" latch is cleared whether or not the table is halted.
    pub fn clock(&mut self, mod_pos: u32, mod_out: u8)
        requires
            old(self).wf(),
            mod_pos < 128,
        ensures
            final(self).wf(),
            final(self).phase < PHASE_RANGE,
            !final(self).env_halt_ticked,
            final(self).table == old(self).table,
            final(self).frequency == old(self).frequency,
            final(self).write_enable == old(self).write_enable,
            final(self).master_volume == old(self).master_volume,
            final(self).wave_halt == old(self).wave_halt,
            final(self).env_halt == old(self).env_halt,
            *final(self) == wave_clocked(*old(self), mod_pos, mod_out),
            old(self).wave_halt ==> final(self).phase == old(self).phase
                && final(self).tick_frequency == old(self).tick_frequency,
            !old(self).wave_halt ==> {
                let step = old(self).frequency + mod_quantity(mod_pos as int, mod_out as int, old(self).frequency as int);
                &&& step >= 0
                &&& final(self).tick_frequency == step
                &&& final(self).phase == (old(self).phase + step) % (PHASE_RANGE as int)
            },
    {
        self.env_halt_ticked = false;
        if self.wave_halt {
            return;
        }
        let quantity: i32 = modulation_quantity(mod_pos, mod_out, self.frequency);
        let step: i32 = self.frequency as i32 + quantity;
        self.phase = (self.phase + step as usize) % PHASE_RANGE;
        self.tick_frequency = step;
    }

    /// Replaces the low byte of the frequency, keeping bits 8-11.
    pub fn write_freq_low(&mut self, freq_low: u8)
        ensures
            final(self).frequency == (old(self).frequency as int / 256) % 16 * 256 + freq_low as int,
            final(self).phase == old(self).phase,
            final(self).wave_halt == old(self).wave_halt,
            final(self).env_halt == old(self).env_halt,
            final(self).env_halt_ticked == old(self).env_halt_ticked,
            final(self).table == old(self).table,
            final(self).write_enable == old(self).write_enable,
            final(self).master_volume == old(self).master_volume,
            final(self).tick_frequency == old(self).tick_frequency,
    {
        self.frequency = (self.frequency / 256) % 16 * 256 + freq_low as u16;
    }

    /// Replaces the high byte of the frequency. Bit 7 halts the wave table
    /// (resetting its phase), bit 6 halts the envelopes and arms the one-shot
    /// "envelope halt" latch.
    pub fn write_freq_high(&mut self, freq_high: u8)
        ensures
            final(self).frequency == old(self).frequency % 256 + freq_high as int * 256,
            final(self).wave_halt == (freq_high & 0x80 != 0),
            final(self).env_halt == (freq_high & 0x40 != 0),
            final(self).phase == (if freq_high & 0x80 != 0 { 0 } else { old(self).phase }),
            final(self).env_halt_ticked == (freq_high & 0x40 != 0 || old(self).env_halt_ticked),
            final(self).table == old(self).table,
            final(self).write_enable == old(self).write_enable,
            final(self).master_volume == old(self).master_volume,
            final(self).tick_frequency == old(self).tick_frequency,
    {
        self.frequency = self.frequency % 256 + freq_high as u16 * 256;
        self.wave_halt = (freq_high & 0x80) != 0;
        self.env_halt = (freq_high & 0x40) != 0;
        if self.wave_halt {
            self.phase = 0;
        }
        if self.env_halt {
            self.env_halt_ticked = true;
        }
    }

    /// Stores the wave configuration byte: bit 7 enables writes to the table,
    /// bits 0-1 select the master volume divisor.
    pub fn write_config_register(&mut self, config: u8)
        ensures
            final(self).write_enable == (config & 0x80 != 0),
            final(self).master_volume == config & 0x3,
            final(self).master_volume < 4,
            final(self).frequency == old(self).frequency,
            final(self).phase == old(self).phase,
            final(self).wave_halt == old(self).wave_halt,
            final(self).env_halt == old(self).env_halt,
            final(self).env_halt_ticked == old(self).env_halt_ticked,
            final(self).table == old(self).table,
            final(self).tick_frequency == old(self).tick_frequency,
    {
        self.write_enable = (config & 0x80) != 0;
        self.master_volume = config & 0x3;
        assert(config & 0x3 < 4) by (bit_vector);
    }
}

/// The modulator's pitch offset for a wave table at `frequency`; see
/// `mod_quantity`.
pub fn modulation_quantity(mod_pos: u32, mod_out: u8, frequency: u16) -> (r: i32)
    requires
        mod_pos < 128,
    ensures
        r == mod_quantity(mod_pos as int, mod_out as int, frequency as int),
        frequency + r >= 0,
        r <= 3 * frequency + 1,
{
    if mod_out == 0 {
        return 0;
    }
    let pos7: i32 = if mod_pos >= 64 { mod_pos as i32 - 128 } else { mod_pos as i32 };
    assert(pos7 == signed_pos7(mod_pos as int));
    assert(-64 * 255 <= pos7 * mod_out as i32 <= 63 * 255) by (nonlinear_arith)
        requires
            -64 <= pos7 <= 63,
            0 <= mod_out <= 255,
    ;
    let m: i32 = pos7 * mod_out as i32;
    let (q, rem) = floor_div_rem(m, 16);
    let (q_hi, _) = floor_div_rem(q, 128);
    let (_, q_bit) = floor_div_rem(q_hi, 2);
    let mut adjusted: i32 = q;
    if rem > 0 && q_bit == 0 {
        if pos7 < 0 {
            adjusted = q - 1;
        } else {
            adjusted = q + 2;
        }
    }
    let (_, wrapped_off) = floor_div_rem(adjusted + 64, 256);
    let wrapped: i32 = wrapped_off - 64;
    assert(-64 * 65535 <= wrapped * frequency as i32 <= 191 * 65535) by (nonlinear_arith)
        requires
            -64 <= wrapped <= 191,
            0 <= frequency <= 65535,
    ;
    let scaled: i32 = wrapped * frequency as i32;
    assert(-64 * frequency <= scaled <= 191 * frequency) by (nonlinear_arith)
        requires
            -64 <= wrapped <= 191,
            0 <= frequency,
            scaled == wrapped * frequency,
    ;
    let (q2, rem2) = floor_div_rem(scaled, 64);
    let r: i32 = if rem2 >= 32 { q2 + 1 } else { q2 };
    proof {
        assert(q2 >= -(frequency as int)) by (nonlinear_arith)
            requires
                scaled == q2 * 64 + rem2,
                0 <= rem2 < 64,
                scaled >= -64 * frequency,
        ;
        assert(q2 <= 3 * frequency) by (nonlinear_arith)
            requires
                scaled == q2 * 64 + rem2,
                0 <= rem2 < 64,
                scaled <= 191 * frequency,
        ;
    }
    r
}

/// Capacity of a channel's sample and edge history.
pub const HISTORY_LENGTH: usize = 32768;

/// The native clock rate of the sound hardware, in Hz.
pub const NATIVE_CLOCK_RATE: u32 = 1789773;

/// The output level for the wave sample under the phase, scaled by the
/// volume envelope (capped at 32) and the master volume divisor.
pub open spec fn channel_level(w: FdsWaveTable, vol_out: int) -> int {
    let idx = (w.phase as int / (PHASE_PER_ENTRY as int)) % 64;
    let capped = if vol_out > 32 { 32 } else { vol_out };
    (w.table@[idx] * capped * 2) / (w.master_volume + 2)
}

/// The wave table index under a phase.
pub open spec fn wave_index(phase: int) -> int {
    (phase / (PHASE_PER_ENTRY as int)) % 64
}

/// The FDS sound channel: wave table, modulator and envelopes, with its
/// sample and edge history. `current_volume` holds the level before the
/// output filter, which the host applies at its sample rate.
pub struct FdsChannel {
    pub name: String,
    pub debug_disable: bool,
    pub wave_table: FdsWaveTable,
    pub mod_table: FdsModTable,
    pub vol_envelope: FdsEnvelope,
    pub mod_envelope: FdsEnvelope,
    pub master_envelope_speed: u8,
    pub current_volume: i32,
    pub output_buffer: RingBuffer,
    pub edge_buffer: RingBuffer,
    pub last_edge: bool,
}

impl FdsChannel {
    /// The sub-units are well formed and both histories have the same length
    /// and cursor.
    pub open spec fn wf(&self) -> bool {
        &&& self.wave_table.wf()
        &&& self.mod_table.wf()
        &&& self.vol_envelope.wf()
        &&& self.mod_envelope.wf()
        &&& self.output_buffer.wf()
        &&& self.edge_buffer.wf()
        &&& self.output_buffer.buffer@.len() == self.edge_buffer.buffer@.len()
        &&& self.output_buffer.index == self.edge_buffer.index
    }

    pub fn new(channel_name: &str) -> (r: Self)
        ensures
            r.wf(),
            r.name@ == channel_name@,
            !r.debug_disable,
            r.wave_table.wave_halt && r.wave_table.env_halt && r.wave_table.phase == 0,
            r.wave_table.frequency == 0 && !r.wave_table.write_enable,
            r.mod_table.mod_halt && r.mod_table.phase == 0 && r.mod_table.pos == 0,
            r.mod_table.frequency == 0,
            r.vol_envelope == FdsEnvelope::new_spec(),
            r.mod_envelope == FdsEnvelope::new_spec(),
            r.master_envelope_speed == 0xFF,
            r.current_volume == 0,
            r.output_buffer.buffer@.len() == HISTORY_LENGTH,
            !r.last_edge,
    {
        FdsChannel {
            name: channel_name.to_owned(),
            debug_disable: false,
            wave_table: FdsWaveTable::new(),
            mod_table: FdsModTable::new(),
            vol_envelope: FdsEnvelope::new(),
            mod_envelope: FdsEnvelope::new(),
            master_envelope_speed: 0xFF,
            current_volume: 0,
            output_buffer: RingBuffer::new(HISTORY_LENGTH),
            edge_buffer: RingBuffer::new(HISTORY_LENGTH),
            last_edge: false,
        }
    }

    /// Programs the channel as the FDS BIOS does when a track starts: volume
    /// envelope disabled, master envelope speed 0xE8, wave halted at
    /// frequency 0, modulation envelope configured and cleared, modulator
    /// halted at frequency 0 and position 0.
    pub fn nsf_init(&mut self)
        requires
            old(self).wf(),
        ensures
            final(self).wf(),
            final(self).vol_envelope == envelope_configured(old(self).vol_envelope, 0x80),
            final(self).master_envelope_speed == 0xE8,
            final(self).wave_table.wave_halt,
            !final(self).wave_table.env_halt,
            final(self).wave_table.phase == 0,
            final(self).wave_table.frequency == 0x8000,
            final(self).mod_envelope == envelope_configured(envelope_configured(old(self).mod_envelope, 0x80), 0),
            final(self).mod_envelope.out == 0,
            !final(self).mod_envelope.disable,
            final(self).mod_table.pos == 0,
            final(self).mod_table.frequency == 0,
            final(self).mod_table.mod_halt,
            final(self).mod_table.phase == old(self).mod_table.phase / PHASE_PER_ENTRY * PHASE_PER_ENTRY,
            final(self).mod_table.write_pos == old(self).mod_table.write_pos,
            final(self).mod_table.table == old(self).mod_table.table,
            final(self).wave_table.table == old(self).wave_table.table,
            final(self).output_buffer == old(self).output_buffer,
            final(self).edge_buffer == old(self).edge_buffer,
    {
        self.vol_envelope.write_config_register(0x80);
        self.master_envelope_speed = 0xE8;
        self.wave_table.write_freq_low(0);
        self.wave_table.write_freq_high(0x80);
        self.mod_envelope.write_config_register(0x80);
        self.mod_table.pos = 0;
        self.mod_table.write_freq_low(0);
        self.mod_table.write_freq_high(0x80);
        self.mod_envelope.write_config_register(0);
        assert(0x80u8 & 0x3F == 0 && 0x80u8 & 0x80 != 0 && 0x80u8 & 0x40 == 0) by (bit_vector);
        assert(0u8 & 0x3F == 0 && 0u8 & 0x80 == 0 && 0u8 & 0x40 == 0) by (bit_vector);
    }

    /// Advances the whole channel by one native clock: envelope halt latch,
    /// envelopes, modulator, then wave table, and finally the output level
    /// and the edge flag (set when the table index wrapped downward).
    pub fn clock(&mut self)
        requires
            old(self).wf(),
        ensures
            final(self).wf(),
            ({
                let o = *old(self);
                let latched = o.wave_table.env_halt_ticked;
                let vol0 = if latched { FdsEnvelope { timer: 0, ..o.vol_envelope } } else { o.vol_envelope };
                let mod0 = if latched { FdsEnvelope { timer: 0, ..o.mod_envelope } } else { o.mod_envelope };
                let runs = !o.wave_table.wave_halt && !o.wave_table.env_halt && o.master_envelope_speed != 0;
                let vol1 = if runs { envelope_clocked(vol0, o.master_envelope_speed) } else { vol0 };
                let mod1 = if runs { envelope_clocked(mod0, o.master_envelope_speed) } else { mod0 };
                let mt = mod_clocked(o.mod_table);
                let wt = wave_clocked(o.wave_table, mt.pos, mod1.out);
                &&& final(self).vol_envelope == vol1
                &&& final(self).mod_envelope == mod1
                &&& final(self).mod_table == mt
                &&& final(self).wave_table == wt
                &&& final(self).master_envelope_speed == o.master_envelope_speed
                &&& final(self).output_buffer == o.output_buffer
                &&& final(self).edge_buffer == o.edge_buffer
                &&& final(self).debug_disable == o.debug_disable
                &&& final(self).current_volume == (if wt.write_enable {
                    o.current_volume as int
                } else {
                    channel_level(wt, vol1.out as int)
                })
                &&& final(self).last_edge == (if wt.write_enable {
                    o.last_edge
                } else {
                    wave_index(o.wave_table.phase as int) > wave_index(wt.phase as int)
                })
            }),
    {
        if self.wave_table.env_halt_ticked {
            self.mod_envelope.timer = 0;
            self.vol_envelope.timer = 0;
        }
        if !self.wave_table.wave_halt && !self.wave_table.env_halt && self.master_envelope_speed != 0 {
            self.mod_envelope.clock(self.master_envelope_speed);
            self.vol_envelope.clock(self.master_envelope_speed);
        }
        let old_wave_idx: usize = (self.wave_table.phase / PHASE_PER_ENTRY) % 64;
        self.mod_table.clock();
        self.wave_table.clock(self.mod_table.pos, self.mod_envelope.out);
        let vol_out: i32 = if self.vol_envelope.out > 32 { 32 } else { self.vol_envelope.out as i32 };
        if !self.wave_table.write_enable {
            let wave_idx: usize = (self.wave_table.phase / PHASE_PER_ENTRY) % 64;
            assert(self.wave_table.table[wave_idx as int] as i32 * vol_out <= 255 * 32) by (nonlinear_arith)
                requires
                    self.wave_table.table[wave_idx as int] <= 255,
                    0 <= vol_out <= 32,
            ;
            let wave: i32 = self.wave_table.table[wave_idx] as i32 * vol_out;
            self.current_volume = wave * 2 / (self.wave_table.master_volume as i32 + 2);
            self.last_edge = old_wave_idx > wave_idx;
        }
    }

    /// Appends `sample`, the filtered output for this sample period, to the
    /// sample history and the pending edge flag to the edge history, then
    /// clears the flag.
    pub fn record_current_output(&mut self, sample: i16)
        requires
            old(self).wf(),
        ensures
            final(self).wf(),
            final(self).output_buffer.buffer@ == old(self).output_buffer.buffer@.update(
                old(self).output_buffer.index as int,
                sample,
            ),
            final(self).edge_buffer.buffer@ == old(self).edge_buffer.buffer@.update(
                old(self).edge_buffer.index as int,
                if old(self).last_edge { 1i16 } else { 0i16 },
            ),
            final(self).output_buffer.index == (old(self).output_buffer.index + 1) % (old(self).output_buffer.buffer@.len() as int),
            !final(self).last_edge,
    {
        self.output_buffer.push(sample);
        self.edge_buffer.push(if self.last_edge { 1 } else { 0 });
        self.last_edge = false;
    }

    /// The channel's name.
    pub fn name(&self) -> (r: String)
        ensures
            r@ == self.name@,
    {
        self.name.clone()
    }

    /// The chip the channel belongs to.
    pub fn chip(&self) -> (r: String)
        ensures
            r@ == "FDS"@,
    {
        "FDS".to_owned()
    }

    /// The sample history.
    pub fn sample_buffer(&self) -> (r: &RingBuffer)
        ensures
            *r == self.output_buffer,
    {
        &self.output_buffer
    }

    /// The edge-marker history.
    pub fn edge_buffer(&self) -> (r: &RingBuffer)
        ensures
            *r == self.edge_buffer,
    {
        &self.edge_buffer
    }

    /// Smallest sample value the channel produces.
    pub fn min_sample(&self) -> (r: i16)
        ensures
            r == -2048,
    {
        -2048
    }

    /// Largest sample value the channel produces.
    pub fn max_sample(&self) -> (r: i16)
        ensures
            r == 2048,
    {
        2048
    }

    pub fn muted(&self) -> (r: bool)
        ensures
            r == self.debug_disable,
    {
        self.debug_disable
    }

    pub fn mute(&mut self)
        ensures
            final(self).debug_disable,
            final(self).wave_table == old(self).wave_table,
            final(self).output_buffer == old(self).output_buffer,
            final(self).edge_buffer == old(self).edge_buffer,
    {
        self.debug_disable = true;
    }

    pub fn unmute(&mut self)
        ensures
            !final(self).debug_disable,
            final(self).wave_table == old(self).wave_table,
            final(self).output_buffer == old(self).output_buffer,
            final(self).edge_buffer == old(self).edge_buffer,
    {
        self.debug_disable = false;
    }

    /// The FDS channel always counts as playing.
    pub fn playing(&self) -> (r: bool)
        ensures
            r,
    {
        true
    }

    /// The phase step of the last clock, from which the pitch follows
    /// (`1789773 / 65536 * step / 64` Hz).
    pub fn tick_frequency(&self) -> (r: i32)
        ensures
            r == self.wave_table.tick_frequency,
    {
        self.wave_table.tick_frequency
    }
}

/// Largest value the envelope output may reach.
pub const ENVELOPE_MAX: u8 = 32;

/// One of the two FDS hardware envelopes (volume or modulation depth).
pub struct FdsEnvelope {
    /// `true`: the output rises toward 32; `false`: it falls toward 0.
    pub mode: bool,
    pub disable: bool,
    pub timer: u32,
    pub speed: u8,
    pub out: u8,
}

/// Number of timer ticks between two output steps.
pub open spec fn envelope_period(speed: u8, master_speed: u8) -> int {
    ((speed as int + 1) * master_speed as int) * 8
}

/// The output after one step in the given direction, clamped to `[0, 32]`.
pub open spec fn envelope_step(mode: bool, out: int) -> int {
    if mode && out < 32 {
        out + 1
    } else if !mode && out > 0 {
        out - 1
    } else {
        out
    }
}

/// The output after `n` steps in the given direction.
pub open spec fn envelope_steps(mode: bool, out: int, n: nat) -> int
    decreases n,
{
    if n == 0 {
        out
    } else {
        envelope_step(mode, envelope_steps(mode, out, (n - 1) as nat))
    }
}

impl FdsEnvelope {
    /// The envelope's invariant: a 6-bit speed and a timer below the longest
    /// period. The output may exceed 32 (a disabling write sets it to the
    /// speed); the channel caps the volume it reads.
    pub open spec fn wf(&self) -> bool {
        &&& self.speed < 64
        &&& self.timer < 0x40000
    }

    /// A fresh envelope: disabled, everything at 0.
    pub open spec fn new_spec() -> Self {
        FdsEnvelope { mode: false, disable: true, timer: 0, speed: 0, out: 0 }
    }

    pub fn new() -> (r: Self)
        ensures
            r == Self::new_spec(),
            r.wf(),
            r.mode == false,
            r.disable == true,
            r.timer == 0,
            r.speed == 0,
            r.out == 0,
    {
        FdsEnvelope { mode: false, disable: true, timer: 0, speed: 0, out: 0 }
    }

    /// Advances the envelope by one clock. A disabled envelope does nothing; a
    /// running one counts its timer up and takes one output step per elapsed
    /// period of `(speed + 1) * master_envelope_speed * 8` ticks.
    pub fn clock(&mut self, master_envelope_speed: u8)
        requires
            !old(self).disable ==> master_envelope_speed != 0,
            old(self).timer < u32::MAX,
        ensures
            old(self).disable ==> *final(self) == *old(self),
            !old(self).disable ==> {
                let t = old(self).timer + 1;
                let p = envelope_period(old(self).speed, master_envelope_speed);
                &&& final(self).timer == t % p
                &&& final(self).out == envelope_steps(old(self).mode, old(self).out as int, (t / p) as nat)
                &&& final(self).mode == old(self).mode
                &&& final(self).disable == old(self).disable
                &&& final(self).speed == old(self).speed
            },
            *final(self) == envelope_clocked(*old(self), master_envelope_speed),
            old(self).out <= ENVELOPE_MAX ==> final(self).out <= ENVELOPE_MAX,
            old(self).wf() ==> final(self).wf(),
    {
        if self.disable {
            return;
        }
        self.timer = self.timer + 1;
        let t: Ghost<int> = Ghost(self.timer as int);
        let out0: Ghost<int> = Ghost(self.out as int);
        assert((self.speed as u32 + 1) * (master_envelope_speed as u32) <= 256 * 255) by (nonlinear_arith)
            requires
                self.speed <= 255,
                master_envelope_speed <= 255,
        ;
        let base: u32 = (self.speed as u32 + 1) * (master_envelope_speed as u32);
        let period: u32 = base << 3;
        assert(period == base * 8) by (bit_vector)
            requires
                period == base << 3,
                base <= 256 * 255,
        ;
        assert(period >= 8) by (nonlinear_arith)
            requires
                period == ((self.speed as int + 1) * master_envelope_speed as int) * 8,
                master_envelope_speed >= 1,
        ;
        let mut k: Ghost<nat> = Ghost(0);
        while self.timer >= period
            invariant
                period == envelope_period(self.speed, master_envelope_speed),
                period >= 8,
                self.timer + k@ * period == t@,
                self.out == envelope_steps(self.mode, out0@, k@),
                self.disable == old(self).disable,
                self.mode == old(self).mode,
                self.speed == old(self).speed,
                out0@ == old(self).out,
                t@ == old(self).timer + 1,
            decreases self.timer,
        {
            proof {
                lemma_envelope_step_bounded(self.mode, self.out as int);
            }
            if self.mode && self.out < 32 {
                self.out = self.out + 1;
            } else if !self.mode && self.out > 0 {
                self.out = self.out - 1;
            }
            self.timer = self.timer - period;
            proof {
                k@ = k@ + 1;
                assert(self.timer + k@ * period == t@) by (nonlinear_arith)
                    requires
                        self.timer + period + (k@ - 1) * period == t@,
                ;
            }
        }
        proof {
            lemma_fundamental_div_mod_converse(t@, period as int, k@ as int, self.timer as int);
            assert(period <= 64 * 255 * 8 || self.speed >= 64) by (nonlinear_arith)
                requires
                    period == ((self.speed as int + 1) * master_envelope_speed as int) * 8,
                    master_envelope_speed <= 255,
            ;
            if out0@ <= 32 {
                lemma_envelope_output_bounded(self.mode, out0@, k@);
            }
        }
    }

    /// Stores an envelope configuration byte: bits 0-5 are the speed, bit 6 the
    /// direction, bit 7 disables the envelope. The timer restarts, and a write
    /// that disables the envelope forces the output to the new speed.
    pub fn write_config_register(&mut self, config: u8)
        ensures
            *final(self) == envelope_configured(*old(self), config),
            final(self).speed == config & 0x3F,
            final(self).speed < 64,
            final(self).timer == 0,
            final(self).disable == (config & 0x80 != 0),
            final(self).mode == (config & 0x40 != 0),
            final(self).out == (if config & 0x80 != 0 { config & 0x3F } else { old(self).out }),
    {
        self.speed = config & 0x3F;
        assert(config & 0x3F < 64) by (bit_vector);
        self.timer = 0;
        self.disable = (config & 0x80) != 0;
        self.mode = (config & 0x40) != 0;
        if self.disable {
            self.out = self.speed;
        }
    }
}

/// The envelope after one clock at the given master speed.
pub open spec fn envelope_clocked(e: FdsEnvelope, master_envelope_speed: u8) -> FdsEnvelope {
    if e.disable {
        e
    } else {
        let t = e.timer + 1;
        let p = envelope_period(e.speed, master_envelope_speed);
        FdsEnvelope {
            timer: (t % p) as u32,
            out: envelope_steps(e.mode, e.out as int, (t / p) as nat) as u8,
            ..e
        }
    }
}

/// The modulator after one clock.
pub open spec fn mod_clocked(m: FdsModTable) -> FdsModTable {
    if m.mod_halt {
        m
    } else {
        let sum = m.phase + m.frequency;
        FdsModTable {
            phase: (sum % (PHASE_RANGE as int)) as usize,
            pos: mod_run(m.table@, m.pos as int, m.phase as int / (PHASE_PER_ENTRY as int), sum / (PHASE_PER_ENTRY as int)) as u32,
            ..m
        }
    }
}

/// The wave table after one clock with the modulator at `mod_pos` and
/// modulation depth `mod_out`.
pub open spec fn wave_clocked(w: FdsWaveTable, mod_pos: u32, mod_out: u8) -> FdsWaveTable {
    if w.wave_halt {
        FdsWaveTable { env_halt_ticked: false, ..w }
    } else {
        let step = w.frequency + mod_quantity(mod_pos as int, mod_out as int, w.frequency as int);
        FdsWaveTable {
            env_halt_ticked: false,
            phase: ((w.phase + step) % (PHASE_RANGE as int)) as usize,
            tick_frequency: step as i32,
            ..w
        }
    }
}

/// The envelope after a write of the configuration byte `config`.
pub open spec fn envelope_configured(e: FdsEnvelope, config: u8) -> FdsEnvelope {
    FdsEnvelope {
        speed: config & 0x3F,
        timer: 0,
        disable: config & 0x80 != 0,
        mode: config & 0x40 != 0,
        out: if config & 0x80 != 0 { config & 0x3F } else { e.out },
    }
}

/// A single step keeps an output inside `[0, 32]` once it is there.
pub proof fn lemma_envelope_step_bounded(mode: bool, out: int)
    ensures
        0 <= out <= 32 ==> 0 <= envelope_step(mode, out) <= 32,
        out >= 0 ==> envelope_step(mode, out) >= 0,
        out <= 255 ==> envelope_step(mode, out) <= 255,
{
}

/// However many clocks are applied, an envelope whose output starts inside
/// `[0, 32]` never leaves it.
pub proof fn lemma_envelope_output_bounded(mode: bool, out: int, n: nat)
    requires
        0 <= out <= 32,
    ensures
        0 <= envelope_steps(mode, out, n) <= 32,
    decreases n,
{
    if n > 0 {
        lemma_envelope_output_bounded(mode, out, (n - 1) as nat);
        lemma_envelope_step_bounded(mode, envelope_steps(mode, out, (n - 1) as nat));
    }
}

/// Writing the configuration byte `0x80` (disabled, speed 0) sets the
/// output to 0 at once: a disabling write forces the output to the speed.
pub proof fn lemma_disable_write_zeroes_output(e: FdsEnvelope)
    ensures
        envelope_configured(e, 0x80).out == 0,
        envelope_configured(e, 0x80).disable,
        envelope_configured(e, 0x80).speed == 0,
{
    assert(0x80u8 & 0x3F == 0) by (bit_vector);
    assert(0x80u8 & 0x80 != 0) by (bit_vector);
}

/// A modulator at position 0 yields no modulation.
pub proof fn lemma_zero_pos_no_modulation(out: int, frequency: int)
    ensures
        mod_quantity(0, out, frequency) == 0,
{
    assert(signed_pos7(0) == 0);
    assert(0 * out == 0);
    assert(0int / 16 == 0 && 0int % 16 == 0);
    assert((0int + 64) % 256 - 64 == 0);
    assert(0 * frequency == 0);
    assert(0int % 64 == 0 && 0int / 64 == 0);
}

/// Running a table of no-op commands leaves the position where it was.
pub proof fn lemma_noop_table_keeps_pos(table: Seq<u8>, pos: int, start: int, end: int)
    requires
        table.len() == 64,
        forall|i: int| 0 <= i < 64 ==> #[trigger] table[i] == 0,
    ensures
        mod_run(table, pos, start, end) == pos,
    decreases end - start,
{
    if end > start {
        lemma_noop_table_keeps_pos(table, pos, start, end - 1);
        assert(table[(end - 1) % 64] == 0);
    }
}

/// With a modulator table of no-op commands and the position at 0, the
/// modulator never moves, and the modulation quantity it yields is 0 at
/// every frequency and modulation depth.
pub proof fn lemma_noop_table_no_modulation(m: FdsModTable, mod_out: u8, frequency: u16)
    requires
        m.wf(),
        m.pos == 0,
        forall|i: int| 0 <= i < 64 ==> #[trigger] m.table@[i] == 0,
    ensures
        mod_clocked(m).pos == 0,
        mod_quantity(mod_clocked(m).pos as int, mod_out as int, frequency as int) == 0,
{
    let sum = m.phase + m.frequency;
    lemma_noop_table_keeps_pos(m.table@, 0, m.phase as int / (PHASE_PER_ENTRY as int), sum / (PHASE_PER_ENTRY as int));
    lemma_zero_pos_no_modulation(mod_out as int, frequency as int);
}

/// When the modulator contributes nothing (its position is 0, or the
/// modulation envelope's output is 0), each wave table clock advances the
/// phase by exactly the frequency.
pub proof fn lemma_unmodulated_phase_step(w: FdsWaveTable, mod_pos: u32, mod_out: u8)
    requires
        w.wf(),
        !w.wave_halt,
        mod_pos == 0 || mod_out == 0,
    ensures
        mod_quantity(mod_pos as int, mod_out as int, w.frequency as int) == 0,
        wave_clocked(w, mod_pos, mod_out).phase == (w.phase + w.frequency) % (PHASE_RANGE as int),
        wave_clocked(w, mod_pos, mod_out).tick_frequency == w.frequency,
{
    if mod_out != 0 {
        lemma_zero_pos_no_modulation(mod_out as int, w.frequency as int);
    }
}

} // verus!
