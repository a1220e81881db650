//! Piano-roll settings: chips and channels, default palettes, setting
//! names, and the piano-key shapes.
use crate::drawing::{blend_filled, blend_rect, Color, SimpleBuffer};
use crate::options::{decimal, push_decimal};
use crate::text::string_from_chars;
use vstd::prelude::*;

verus! {

/// How a channel's notes are placed on the roll.
#[derive(Clone, Copy, PartialEq, Eq, Structural, Debug)]
pub enum NoteType {
    Frequency,
    Noise,
    Waveform,
}

/// The direction in which the roll scrolls.
#[derive(Clone, Copy, PartialEq, Eq, Structural, Debug)]
pub enum ScrollDirection {
    RightToLeft,
    LeftToRight,
    TopToBottom,
    BottomToTop,
    PlayerPiano,
}

/// Size of the drawn piano keys.
#[derive(Clone, Copy, PartialEq, Eq, Structural, Debug)]
pub enum KeySize {
    Small,
    Medium,
    Large,
}

/// When the roll samples the channels.
#[derive(Clone, Copy, PartialEq, Eq, Structural, Debug)]
pub enum PollingType {
    PpuFrame,
    PpuScanline,
    ApuQuarterFrame,
    ApuHalfFrame,
}

/// A sound chip.
#[derive(Clone, Copy, PartialEq, Eq, Structural, Debug, Hash)]
pub enum Chip {
    Apu2A03,
    Vrc6,
    Mmc5,
    YM2149F,
    N163,
    Vrc7,
    Fds,
    /// The mixed output of all chips.
    FinalMix,
}

/// A channel of a sound chip; numbered channels count from 1.
#[derive(Clone, Copy, PartialEq, Eq, Structural, Debug, Hash)]
pub enum ChannelName {
    Pulse1,
    Pulse2,
    Triangle,
    Noise,
    Dmc,
    Sawtooth,
    Pcm,
    ToneA,
    ToneB,
    ToneC,
    Namco(u8),
    Fm(u8),
    Fds,
    FinalMix,
}

/// The name a chip is known by in settings.
pub open spec fn chip_name(c: Chip) -> Seq<char> {
    match c {
        Chip::Apu2A03 => seq!['2', 'A', '0', '3'],
        Chip::Vrc6 => seq!['V', 'R', 'C', '6'],
        Chip::Mmc5 => seq!['M', 'M', 'C', '5'],
        Chip::YM2149F => seq!['Y', 'M', '2', '1', '4', '9', 'F'],
        Chip::N163 => seq!['N', '1', '6', '3'],
        Chip::Vrc7 => seq!['V', 'R', 'C', '7'],
        Chip::Fds => seq!['F', 'D', 'S'],
        Chip::FinalMix => seq!['A', 'P', 'U'],
    }
}

/// The name a channel is known by in settings.
pub open spec fn channel_name(c: ChannelName) -> Seq<char> {
    match c {
        ChannelName::Pulse1 => seq!['P', 'u', 'l', 's', 'e', ' ', '1'],
        ChannelName::Pulse2 => seq!['P', 'u', 'l', 's', 'e', ' ', '2'],
        ChannelName::Triangle => seq!['T', 'r', 'i', 'a', 'n', 'g', 'l', 'e'],
        ChannelName::Noise => seq!['N', 'o', 'i', 's', 'e'],
        ChannelName::Dmc => seq!['D', 'M', 'C'],
        ChannelName::Sawtooth => seq!['S', 'a', 'w', 't', 'o', 'o', 't', 'h'],
        ChannelName::Pcm => seq!['P', 'C', 'M'],
        ChannelName::ToneA => seq!['A'],
        ChannelName::ToneB => seq!['B'],
        ChannelName::ToneC => seq!['C'],
        ChannelName::Fds => seq!['F', 'D', 'S'],
        ChannelName::FinalMix => seq!['F', 'i', 'n', 'a', 'l', ' ', 'M', 'i', 'x'],
        ChannelName::Namco(n) => seq!['N', 'A', 'M', 'C', 'O', ' '] + decimal(n as nat),
        ChannelName::Fm(n) => seq!['F', 'M', ' '] + decimal(n as nat),
    }
}

fn push_all_chars(out: &mut Vec<char>, cs: &[char])
    ensures
        final(out)@ == old(out)@ + cs@,
{
    let mut i: usize = 0;
    while i < cs.len()
        invariant
            i <= cs@.len(),
            out@ == old(out)@ + cs@.subrange(0, i as int),
        decreases cs@.len() - i,
    {
        out.push(cs[i]);
        i = i + 1;
        assert(out@ =~= old(out)@ + cs@.subrange(0, i as int));
    }
    assert(cs@.subrange(0, cs@.len() as int) =~= cs@);
}

impl Chip {
    pub fn name(&self) -> (r: String)
        ensures
            r@ == chip_name(*self),
    {
        let mut out: Vec<char> = Vec::new();
        match *self {
            Chip::Apu2A03 => {
                push_all_chars(&mut out, ['2', 'A', '0', '3'].as_slice());
            },
            Chip::Vrc6 => {
                push_all_chars(&mut out, ['V', 'R', 'C', '6'].as_slice());
            },
            Chip::Mmc5 => {
                push_all_chars(&mut out, ['M', 'M', 'C', '5'].as_slice());
            },
            Chip::YM2149F => {
                push_all_chars(&mut out, ['Y', 'M', '2', '1', '4', '9', 'F'].as_slice());
            },
            Chip::N163 => {
                push_all_chars(&mut out, ['N', '1', '6', '3'].as_slice());
            },
            Chip::Vrc7 => {
                push_all_chars(&mut out, ['V', 'R', 'C', '7'].as_slice());
            },
            Chip::Fds => {
                push_all_chars(&mut out, ['F', 'D', 'S'].as_slice());
            },
            Chip::FinalMix => {
                push_all_chars(&mut out, ['A', 'P', 'U'].as_slice());
            },
        }
        assert(out@ =~= chip_name(*self));
        string_from_chars(&out)
    }
}

impl ChannelName {
    pub fn name(&self) -> (r: String)
        ensures
            r@ == channel_name(*self),
    {
        let mut out: Vec<char> = Vec::new();
        match *self {
            ChannelName::Pulse1 => {
                push_all_chars(&mut out, ['P', 'u', 'l', 's', 'e', ' ', '1'].as_slice());
            },
            ChannelName::Pulse2 => {
                push_all_chars(&mut out, ['P', 'u', 'l', 's', 'e', ' ', '2'].as_slice());
            },
            ChannelName::Triangle => {
                push_all_chars(&mut out, ['T', 'r', 'i', 'a', 'n', 'g', 'l', 'e'].as_slice());
            },
            ChannelName::Noise => {
                push_all_chars(&mut out, ['N', 'o', 'i', 's', 'e'].as_slice());
            },
            ChannelName::Dmc => {
                push_all_chars(&mut out, ['D', 'M', 'C'].as_slice());
            },
            ChannelName::Sawtooth => {
                push_all_chars(&mut out, ['S', 'a', 'w', 't', 'o', 'o', 't', 'h'].as_slice());
            },
            ChannelName::Pcm => {
                push_all_chars(&mut out, ['P', 'C', 'M'].as_slice());
            },
            ChannelName::ToneA => {
                push_all_chars(&mut out, ['A'].as_slice());
            },
            ChannelName::ToneB => {
                push_all_chars(&mut out, ['B'].as_slice());
            },
            ChannelName::ToneC => {
                push_all_chars(&mut out, ['C'].as_slice());
            },
            ChannelName::Fds => {
                push_all_chars(&mut out, ['F', 'D', 'S'].as_slice());
            },
            ChannelName::FinalMix => {
                push_all_chars(&mut out, ['F', 'i', 'n', 'a', 'l', ' ', 'M', 'i', 'x'].as_slice());
            },
            ChannelName::Namco(n) => {
                push_all_chars(&mut out, ['N', 'A', 'M', 'C', 'O', ' '].as_slice());
                push_decimal(&mut out, n as u64);
            },
            ChannelName::Fm(n) => {
                push_all_chars(&mut out, ['F', 'M', ' '].as_slice());
                push_decimal(&mut out, n as u64);
            },
        }
        assert(out@ =~= channel_name(*self));
        string_from_chars(&out)
    }
}

/// How a channel is drawn: its colors (one per timbre) and whether it is
/// hidden.
#[derive(Clone, Debug)]
pub struct ChannelSettings {
    pub colors: Vec<Color>,
    pub hidden: bool,
}

/// The default colors of each channel, as RGB triples; `None` for a
/// channel the chip does not have.
pub open spec fn default_palette(chip: Chip, channel: ChannelName) -> Option<Seq<(u8, u8, u8)>> {
    match (chip, channel) {
        (Chip::Apu2A03, ChannelName::Pulse1) => Some(seq![(0xffu8, 0xa0u8, 0xa0u8), (0xffu8, 0x40u8, 0xffu8), (0xffu8, 0x40u8, 0x40u8), (0xffu8, 0x40u8, 0xffu8)]),
        (Chip::Apu2A03, ChannelName::Pulse2) => Some(seq![(0xffu8, 0xe0u8, 0xa0u8), (0xffu8, 0xc0u8, 0x40u8), (0xffu8, 0xffu8, 0x40u8), (0xffu8, 0xc0u8, 0x40u8)]),
        (Chip::Apu2A03, ChannelName::Triangle) => Some(seq![(0x40u8, 0xffu8, 0x40u8)]),
        (Chip::Apu2A03, ChannelName::Noise) => Some(seq![(0xc0u8, 0xc0u8, 0xc0u8), (0x80u8, 0xf0u8, 0xffu8)]),
        (Chip::Apu2A03, ChannelName::Dmc) => Some(seq![(0x60u8, 0x20u8, 0xc0u8)]),
        (Chip::Vrc6, ChannelName::Pulse1) => Some(seq![(0xf2u8, 0xbbu8, 0xd8u8), (0xdbu8, 0xa0u8, 0xbfu8), (0xc4u8, 0x86u8, 0xa6u8), (0xadu8, 0x6cu8, 0x8du8), (0x97u8, 0x51u8, 0x74u8), (0x80u8, 0x37u8, 0x5bu8), (0x69u8, 0x1du8, 0x42u8), (0x53u8, 0x3u8, 0x2au8)]),
        (Chip::Vrc6, ChannelName::Pulse2) => Some(seq![(0xe8u8, 0xa7u8, 0xe7u8), (0xd2u8, 0x8fu8, 0xd1u8), (0xbdu8, 0x78u8, 0xbbu8), (0xa7u8, 0x60u8, 0xa6u8), (0x92u8, 0x49u8, 0x90u8), (0x7cu8, 0x31u8, 0x7bu8), (0x67u8, 0x1au8, 0x65u8), (0x52u8, 0x3u8, 0x50u8)]),
        (Chip::Vrc6, ChannelName::Sawtooth) => Some(seq![(0x7u8, 0x7du8, 0x5au8), (0x9fu8, 0xb8u8, 0xedu8)]),
        (Chip::Mmc5, ChannelName::Pulse1) => Some(seq![(0xccu8, 0x0u8, 0x29u8), (0xdfu8, 0x48u8, 0x67u8), (0xf2u8, 0x91u8, 0xa5u8), (0xdfu8, 0x48u8, 0x67u8)]),
        (Chip::Mmc5, ChannelName::Pulse2) => Some(seq![(0xccu8, 0x0u8, 0x29u8), (0xdfu8, 0x48u8, 0x67u8), (0xf2u8, 0x91u8, 0xa5u8), (0xdfu8, 0x48u8, 0x67u8)]),
        (Chip::Mmc5, ChannelName::Pcm) => Some(seq![(0xe0u8, 0x18u8, 0x40u8)]),
        (Chip::YM2149F, ChannelName::ToneA) => Some(seq![(0x20u8, 0x90u8, 0xccu8)]),
        (Chip::YM2149F, ChannelName::ToneB) => Some(seq![(0x18u8, 0x68u8, 0xe4u8)]),
        (Chip::YM2149F, ChannelName::ToneC) => Some(seq![(0x10u8, 0x40u8, 0xf8u8)]),
        (Chip::N163, ChannelName::Namco(n)) => if 1 <= n <= 8 { Some(seq![(0x66u8, 0xeu8, 0xeu8), (0xc9u8, 0x9cu8, 0x9cu8)]) } else { None },
        (Chip::Vrc7, ChannelName::Fm(n)) => if 1 <= n <= 6 { Some(seq![(0xffu8, 0xd0u8, 0xd0u8), (0xffu8, 0xd0u8, 0xd0u8), (0xffu8, 0xd0u8, 0xd0u8), (0xffu8, 0xd0u8, 0xd0u8), (0xffu8, 0xd0u8, 0xd0u8), (0xffu8, 0xd0u8, 0xd0u8), (0xffu8, 0xd0u8, 0xd0u8), (0xffu8, 0xd0u8, 0xd0u8), (0xffu8, 0xd0u8, 0xd0u8), (0xffu8, 0xd0u8, 0xd0u8), (0xffu8, 0xd0u8, 0xd0u8), (0xffu8, 0xd0u8, 0xd0u8), (0xffu8, 0xd0u8, 0xd0u8), (0xffu8, 0xd0u8, 0xd0u8), (0xffu8, 0xd0u8, 0xd0u8), (0xffu8, 0xd0u8, 0xd0u8)]) } else { None },
        (Chip::Fds, ChannelName::Fds) => Some(seq![(0x42u8, 0xa5u8, 0xf5u8)]),
        (Chip::FinalMix, ChannelName::FinalMix) => Some(seq![(0xe0u8, 0xe0u8, 0xe0u8)]),
        _ => None,
    }
}

/// Opaque colors with the given RGB values, in order.
pub open spec fn colors_match(colors: Seq<Color>, palette: Seq<(u8, u8, u8)>) -> bool {
    &&& colors.len() == palette.len()
    &&& forall|i: int| 0 <= i < colors.len() ==> (#[trigger] colors[i]).data@ == seq![palette[i].0, palette[i].1, palette[i].2, 255u8]
}

/// The default colors of a channel; see `default_palette`.
pub fn default_colors(chip: Chip, channel: ChannelName) -> (r: Option<Vec<Color>>)
    ensures
        r is Some <==> default_palette(chip, channel) is Some,
        r matches Some(v) ==> colors_match(v@, default_palette(chip, channel)->Some_0),
{
    let r = match (chip, channel) {
        (Chip::Apu2A03, ChannelName::Pulse1) => Some(vec![Color::rgb(0xff, 0xa0, 0xa0), Color::rgb(0xff, 0x40, 0xff), Color::rgb(0xff, 0x40, 0x40), Color::rgb(0xff, 0x40, 0xff)]),
        (Chip::Apu2A03, ChannelName::Pulse2) => Some(vec![Color::rgb(0xff, 0xe0, 0xa0), Color::rgb(0xff, 0xc0, 0x40), Color::rgb(0xff, 0xff, 0x40), Color::rgb(0xff, 0xc0, 0x40)]),
        (Chip::Apu2A03, ChannelName::Triangle) => Some(vec![Color::rgb(0x40, 0xff, 0x40)]),
        (Chip::Apu2A03, ChannelName::Noise) => Some(vec![Color::rgb(0xc0, 0xc0, 0xc0), Color::rgb(0x80, 0xf0, 0xff)]),
        (Chip::Apu2A03, ChannelName::Dmc) => Some(vec![Color::rgb(0x60, 0x20, 0xc0)]),
        (Chip::Vrc6, ChannelName::Pulse1) => Some(vec![Color::rgb(0xf2, 0xbb, 0xd8), Color::rgb(0xdb, 0xa0, 0xbf), Color::rgb(0xc4, 0x86, 0xa6), Color::rgb(0xad, 0x6c, 0x8d), Color::rgb(0x97, 0x51, 0x74), Color::rgb(0x80, 0x37, 0x5b), Color::rgb(0x69, 0x1d, 0x42), Color::rgb(0x53, 0x3, 0x2a)]),
        (Chip::Vrc6, ChannelName::Pulse2) => Some(vec![Color::rgb(0xe8, 0xa7, 0xe7), Color::rgb(0xd2, 0x8f, 0xd1), Color::rgb(0xbd, 0x78, 0xbb), Color::rgb(0xa7, 0x60, 0xa6), Color::rgb(0x92, 0x49, 0x90), Color::rgb(0x7c, 0x31, 0x7b), Color::rgb(0x67, 0x1a, 0x65), Color::rgb(0x52, 0x3, 0x50)]),
        (Chip::Vrc6, ChannelName::Sawtooth) => Some(vec![Color::rgb(0x7, 0x7d, 0x5a), Color::rgb(0x9f, 0xb8, 0xed)]),
        (Chip::Mmc5, ChannelName::Pulse1) => Some(vec![Color::rgb(0xcc, 0x0, 0x29), Color::rgb(0xdf, 0x48, 0x67), Color::rgb(0xf2, 0x91, 0xa5), Color::rgb(0xdf, 0x48, 0x67)]),
        (Chip::Mmc5, ChannelName::Pulse2) => Some(vec![Color::rgb(0xcc, 0x0, 0x29), Color::rgb(0xdf, 0x48, 0x67), Color::rgb(0xf2, 0x91, 0xa5), Color::rgb(0xdf, 0x48, 0x67)]),
        (Chip::Mmc5, ChannelName::Pcm) => Some(vec![Color::rgb(0xe0, 0x18, 0x40)]),
        (Chip::YM2149F, ChannelName::ToneA) => Some(vec![Color::rgb(0x20, 0x90, 0xcc)]),
        (Chip::YM2149F, ChannelName::ToneB) => Some(vec![Color::rgb(0x18, 0x68, 0xe4)]),
        (Chip::YM2149F, ChannelName::ToneC) => Some(vec![Color::rgb(0x10, 0x40, 0xf8)]),
        (Chip::N163, ChannelName::Namco(n)) => if 1 <= n && n <= 8 { Some(vec![Color::rgb(0x66, 0xe, 0xe), Color::rgb(0xc9, 0x9c, 0x9c)]) } else { None },
        (Chip::Vrc7, ChannelName::Fm(n)) => if 1 <= n && n <= 6 { Some(vec![Color::rgb(0xff, 0xd0, 0xd0), Color::rgb(0xff, 0xd0, 0xd0), Color::rgb(0xff, 0xd0, 0xd0), Color::rgb(0xff, 0xd0, 0xd0), Color::rgb(0xff, 0xd0, 0xd0), Color::rgb(0xff, 0xd0, 0xd0), Color::rgb(0xff, 0xd0, 0xd0), Color::rgb(0xff, 0xd0, 0xd0), Color::rgb(0xff, 0xd0, 0xd0), Color::rgb(0xff, 0xd0, 0xd0), Color::rgb(0xff, 0xd0, 0xd0), Color::rgb(0xff, 0xd0, 0xd0), Color::rgb(0xff, 0xd0, 0xd0), Color::rgb(0xff, 0xd0, 0xd0), Color::rgb(0xff, 0xd0, 0xd0), Color::rgb(0xff, 0xd0, 0xd0)]) } else { None },
        (Chip::Fds, ChannelName::Fds) => Some(vec![Color::rgb(0x42, 0xa5, 0xf5)]),
        (Chip::FinalMix, ChannelName::FinalMix) => Some(vec![Color::rgb(0xe0, 0xe0, 0xe0)]),
        _ => None,
    };
    r
}

/// The channels that have default settings, in a fixed order.
pub open spec fn default_keys() -> Seq<(Chip, ChannelName)> {
    seq![(Chip::Apu2A03, ChannelName::Pulse1), (Chip::Apu2A03, ChannelName::Pulse2), (Chip::Apu2A03, ChannelName::Triangle), (Chip::Apu2A03, ChannelName::Noise), (Chip::Apu2A03, ChannelName::Dmc), (Chip::Vrc6, ChannelName::Pulse1), (Chip::Vrc6, ChannelName::Pulse2), (Chip::Vrc6, ChannelName::Sawtooth), (Chip::Mmc5, ChannelName::Pulse1), (Chip::Mmc5, ChannelName::Pulse2), (Chip::Mmc5, ChannelName::Pcm), (Chip::YM2149F, ChannelName::ToneA), (Chip::YM2149F, ChannelName::ToneB), (Chip::YM2149F, ChannelName::ToneC), (Chip::N163, ChannelName::Namco(1)), (Chip::N163, ChannelName::Namco(2)), (Chip::N163, ChannelName::Namco(3)), (Chip::N163, ChannelName::Namco(4)), (Chip::N163, ChannelName::Namco(5)), (Chip::N163, ChannelName::Namco(6)), (Chip::N163, ChannelName::Namco(7)), (Chip::N163, ChannelName::Namco(8)), (Chip::Vrc7, ChannelName::Fm(1)), (Chip::Vrc7, ChannelName::Fm(2)), (Chip::Vrc7, ChannelName::Fm(3)), (Chip::Vrc7, ChannelName::Fm(4)), (Chip::Vrc7, ChannelName::Fm(5)), (Chip::Vrc7, ChannelName::Fm(6)), (Chip::Fds, ChannelName::Fds), (Chip::FinalMix, ChannelName::FinalMix)]
}

/// The default settings of every channel: visible, with the default colors.
pub fn default_channel_settings() -> (r: Vec<(Chip, ChannelName, ChannelSettings)>)
    ensures
        r@.len() == default_keys().len(),
        forall|i: int| 0 <= i < r@.len() ==> {
            let (chip, channel, settings) = #[trigger] r@[i];
            &&& (chip, channel) == default_keys()[i]
            &&& !settings.hidden
            &&& default_palette(chip, channel) matches Some(p) && colors_match(settings.colors@, p)
        },
{
    let keys: [(Chip, ChannelName); 30] = [(Chip::Apu2A03, ChannelName::Pulse1), (Chip::Apu2A03, ChannelName::Pulse2), (Chip::Apu2A03, ChannelName::Triangle), (Chip::Apu2A03, ChannelName::Noise), (Chip::Apu2A03, ChannelName::Dmc), (Chip::Vrc6, ChannelName::Pulse1), (Chip::Vrc6, ChannelName::Pulse2), (Chip::Vrc6, ChannelName::Sawtooth), (Chip::Mmc5, ChannelName::Pulse1), (Chip::Mmc5, ChannelName::Pulse2), (Chip::Mmc5, ChannelName::Pcm), (Chip::YM2149F, ChannelName::ToneA), (Chip::YM2149F, ChannelName::ToneB), (Chip::YM2149F, ChannelName::ToneC), (Chip::N163, ChannelName::Namco(1)), (Chip::N163, ChannelName::Namco(2)), (Chip::N163, ChannelName::Namco(3)), (Chip::N163, ChannelName::Namco(4)), (Chip::N163, ChannelName::Namco(5)), (Chip::N163, ChannelName::Namco(6)), (Chip::N163, ChannelName::Namco(7)), (Chip::N163, ChannelName::Namco(8)), (Chip::Vrc7, ChannelName::Fm(1)), (Chip::Vrc7, ChannelName::Fm(2)), (Chip::Vrc7, ChannelName::Fm(3)), (Chip::Vrc7, ChannelName::Fm(4)), (Chip::Vrc7, ChannelName::Fm(5)), (Chip::Vrc7, ChannelName::Fm(6)), (Chip::Fds, ChannelName::Fds), (Chip::FinalMix, ChannelName::FinalMix)];
    assert(keys@ =~= default_keys());
    let mut out: Vec<(Chip, ChannelName, ChannelSettings)> = Vec::new();
    let mut i: usize = 0;
    while i < 30
        invariant
            i <= 30,
            keys@ == default_keys(),
            out@.len() == i,
            forall|j: int| 0 <= j < i ==> {
                let (chip, channel, settings) = #[trigger] out@[j];
                &&& (chip, channel) == default_keys()[j]
                &&& !settings.hidden
                &&& default_palette(chip, channel) matches Some(p) && colors_match(settings.colors@, p)
            },
        decreases 30 - i,
    {
        let (chip, channel) = keys[i];
        match default_colors(chip, channel) {
            Some(colors) => {
                out.push((chip, channel, ChannelSettings { colors, hidden: false }));
            },
            None => {
                assert(false);
            },
        }
        i = i + 1;
    }
    out
}

/// The upper-case hexadecimal digit for `d < 16`.
pub open spec fn hex_digit_char(d: int) -> char {
    seq!['0', '1', '2', '3', '4', '5', '6', '7', '8', '9', 'A', 'B', 'C', 'D', 'E', 'F'][d]
}

/// The upper-case hexadecimal representation of `n`, without leading zeros.
pub open spec fn hex_text(n: nat) -> Seq<char>
    decreases n,
{
    if n < 16 {
        seq![hex_digit_char(n as int)]
    } else {
        hex_text(n / 16) + seq![hex_digit_char((n % 16) as int)]
    }
}

fn push_hex(out: &mut Vec<char>, n: u64)
    ensures
        final(out)@ == old(out)@ + hex_text(n as nat),
    decreases n,
{
    let digits: [char; 16] = ['0', '1', '2', '3', '4', '5', '6', '7', '8', '9', 'A', 'B', 'C', 'D', 'E', 'F'];
    assert(digits@ =~= seq!['0', '1', '2', '3', '4', '5', '6', '7', '8', '9', 'A', 'B', 'C', 'D', 'E', 'F']);
    if n >= 16 {
        push_hex(out, n / 16);
    }
    out.push(digits[(n % 16) as usize]);
    assert(out@ =~= old(out)@ + hex_text(n as nat));
}

/// The setting under which color `idx` of a channel is stored: the duty
/// cycle of a pulse channel, the mode of the noise and sawtooth channels,
/// the two gradient ends of a Namco channel, the patch of an FM channel, or
/// the one static color of any other channel.
pub open spec fn color_key_text(chip: Chip, channel: ChannelName, idx: nat) -> Seq<char> {
    let is_pulse = channel == ChannelName::Pulse1 || channel == ChannelName::Pulse2;
    if (chip == Chip::Apu2A03 || chip == Chip::Mmc5 || chip == Chip::Vrc6) && is_pulse {
        seq!['d', 'u', 't', 'y'] + decimal(idx)
    } else if chip == Chip::Apu2A03 && channel == ChannelName::Noise {
        seq!['m', 'o', 'd', 'e'] + decimal(idx)
    } else if chip == Chip::Vrc6 && channel == ChannelName::Sawtooth {
        seq!['m', 'o', 'd', 'e'] + decimal(idx)
    } else if chip == Chip::N163 && idx == 0 {
        seq!['g', 'r', 'a', 'd', 'i', 'e', 'n', 't', '_', 'l', 'o', 'w']
    } else if chip == Chip::N163 && idx == 1 {
        seq!['g', 'r', 'a', 'd', 'i', 'e', 'n', 't', '_', 'h', 'i', 'g', 'h']
    } else if chip == Chip::Vrc7 {
        seq!['p', 'a', 't', 'c', 'h'] + hex_text(idx)
    } else {
        seq!['s', 't', 'a', 't', 'i', 'c']
    }
}

/// The setting name for color `idx` of a channel; see `color_key_text`.
pub fn color_setting_key(chip: Chip, channel: ChannelName, idx: usize) -> (r: String)
    ensures
        r@ == color_key_text(chip, channel, idx as nat),
{
    let mut out: Vec<char> = Vec::new();
    let is_pulse = channel == ChannelName::Pulse1 || channel == ChannelName::Pulse2;
    if (chip == Chip::Apu2A03 || chip == Chip::Mmc5 || chip == Chip::Vrc6) && is_pulse {
        push_all_chars(&mut out, ['d', 'u', 't', 'y'].as_slice());
        push_decimal(&mut out, idx as u64);
    } else if chip == Chip::Apu2A03 && channel == ChannelName::Noise {
        push_all_chars(&mut out, ['m', 'o', 'd', 'e'].as_slice());
        push_decimal(&mut out, idx as u64);
    } else if chip == Chip::Vrc6 && channel == ChannelName::Sawtooth {
        push_all_chars(&mut out, ['m', 'o', 'd', 'e'].as_slice());
        push_decimal(&mut out, idx as u64);
    } else if chip == Chip::N163 && idx == 0 {
        push_all_chars(&mut out, ['g', 'r', 'a', 'd', 'i', 'e', 'n', 't', '_', 'l', 'o', 'w'].as_slice());
    } else if chip == Chip::N163 && idx == 1 {
        push_all_chars(&mut out, ['g', 'r', 'a', 'd', 'i', 'e', 'n', 't', '_', 'h', 'i', 'g', 'h'].as_slice());
    } else if chip == Chip::Vrc7 {
        push_all_chars(&mut out, ['p', 'a', 't', 'c', 'h'].as_slice());
        push_hex(&mut out, idx as u64);
    } else {
        push_all_chars(&mut out, ['s', 't', 'a', 't', 'i', 'c'].as_slice());
    }
    assert(out@ =~= color_key_text(chip, channel, idx as nat));
    string_from_chars(&out)
}

/// Two upper-case hexadecimal digits of a byte.
pub open spec fn hex2(b: u8) -> Seq<char> {
    seq![hex_digit_char((b / 16) as int), hex_digit_char((b % 16) as int)]
}

/// How a color is stored in settings: `#RRGGBB` when opaque, else
/// `rgba(r, g, b, a)` in decimal.
pub open spec fn color_value_text(c: Seq<u8>) -> Seq<char> {
    if c[3] == 255 {
        seq!['#'] + hex2(c[0]) + hex2(c[1]) + hex2(c[2])
    } else {
        seq!['r', 'g', 'b', 'a', '('] + decimal(c[0] as nat) + seq![',', ' '] + decimal(c[1] as nat) + seq![',', ' ']
            + decimal(c[2] as nat) + seq![',', ' '] + decimal(c[3] as nat) + seq![')']
    }
}

fn push_hex2(out: &mut Vec<char>, b: u8)
    ensures
        final(out)@ == old(out)@ + hex2(b),
{
    let digits: [char; 16] = ['0', '1', '2', '3', '4', '5', '6', '7', '8', '9', 'A', 'B', 'C', 'D', 'E', 'F'];
    assert(digits@ =~= seq!['0', '1', '2', '3', '4', '5', '6', '7', '8', '9', 'A', 'B', 'C', 'D', 'E', 'F']);
    out.push(digits[(b / 16) as usize]);
    out.push(digits[(b % 16) as usize]);
    assert(out@ =~= old(out)@ + hex2(b));
}

/// The settings text of a color; see `color_value_text`.
pub fn color_setting_value(color: Color) -> (r: String)
    ensures
        r@ == color_value_text(color.data@),
{
    let mut out: Vec<char> = Vec::new();
    if color.alpha() == 255 {
        out.push('#');
        push_hex2(&mut out, color.r());
        push_hex2(&mut out, color.g());
        push_hex2(&mut out, color.b());
    } else {
        push_all_chars(&mut out, ['r', 'g', 'b', 'a', '('].as_slice());
        push_decimal(&mut out, color.r() as u64);
        push_all_chars(&mut out, [',', ' '].as_slice());
        push_decimal(&mut out, color.g() as u64);
        push_all_chars(&mut out, [',', ' '].as_slice());
        push_decimal(&mut out, color.b() as u64);
        push_all_chars(&mut out, [',', ' '].as_slice());
        push_decimal(&mut out, color.alpha() as u64);
        out.push(')');
    }
    assert(out@ =~= color_value_text(color.data@));
    string_from_chars(&out)
}

/// Length of a white key, less the 1-pixel border.
pub fn full_key_length(base_key_length: u32) -> (r: u32)
    requires
        base_key_length >= 1,
    ensures
        r == base_key_length - 1,
{
    base_key_length - 1
}

/// Length of the upper part of a key.
pub fn upper_key_length(base_key_length: u32) -> (r: u32)
    ensures
        r == base_key_length / 2,
{
    base_key_length / 2
}

/// Length of the lower part of a white key.
pub fn lower_key_length(base_key_length: u32) -> (r: u32)
    requires
        base_key_length >= 2,
    ensures
        r == base_key_length / 2 - 1,
{
    (base_key_length / 2) - 1
}

/// Where the upper part of a key starts, after the top border.
pub fn upper_key_lpos(l: u32) -> (r: u32)
    requires
        l < u32::MAX,
    ensures
        r == l + 1,
{
    l + 1
}

/// Where the lower part of a white key starts.
pub fn lower_key_lpos(l: u32, base_key_length: u32) -> (r: u32)
    requires
        l as int + 1 + base_key_length / 2 <= u32::MAX,
    ensures
        r == l + 1 + base_key_length / 2,
{
    l + 1 + upper_key_length(base_key_length)
}

pub fn draw_right_white_key_horiz(canvas: &mut SimpleBuffer, x: u32, y: u32, color: Color)
    requires
        old(canvas).wf(),
        x + 16 <= old(canvas).width,
        y + 2 <= old(canvas).height,
    ensures
        final(canvas).wf(),
        final(canvas).width == old(canvas).width,
        final(canvas).height == old(canvas).height,
        final(canvas).buffer@ == blend_filled(blend_filled(old(canvas).buffer@, old(canvas).width as int, (x as int + 8), (y as int + 1), (8), (1), color.data@), old(canvas).width as int, (x as int + 1), (y as int), (15), (1), color.data@),
{
    blend_rect(canvas, x + 8, y + 1, 8, 1, color);
    blend_rect(canvas, x + 1, y, 15, 1, color);
}

pub fn draw_center_white_key_horiz(canvas: &mut SimpleBuffer, x: u32, y: u32, color: Color)
    requires
        old(canvas).wf(),
        y >= 1,
        x + 16 <= old(canvas).width,
        y + 2 <= old(canvas).height,
    ensures
        final(canvas).wf(),
        final(canvas).width == old(canvas).width,
        final(canvas).height == old(canvas).height,
        final(canvas).buffer@ == blend_filled(blend_filled(blend_filled(old(canvas).buffer@, old(canvas).width as int, (x as int + 1), (y as int), (15), (1), color.data@), old(canvas).width as int, (x as int + 8), (y as int - 1), (8), (1), color.data@), old(canvas).width as int, (x as int + 8), (y as int + 1), (8), (1), color.data@),
{
    blend_rect(canvas, x + 1, y, 15, 1, color);
    blend_rect(canvas, x + 8, y - 1, 8, 1, color);
    blend_rect(canvas, x + 8, y + 1, 8, 1, color);
}

pub fn draw_left_white_key_horiz(canvas: &mut SimpleBuffer, x: u32, y: u32, color: Color)
    requires
        old(canvas).wf(),
        y >= 1,
        x + 16 <= old(canvas).width,
        y + 1 <= old(canvas).height,
    ensures
        final(canvas).wf(),
        final(canvas).width == old(canvas).width,
        final(canvas).height == old(canvas).height,
        final(canvas).buffer@ == blend_filled(blend_filled(old(canvas).buffer@, old(canvas).width as int, (x as int + 8), (y as int - 1), (8), (1), color.data@), old(canvas).width as int, (x as int + 1), (y as int), (15), (1), color.data@),
{
    blend_rect(canvas, x + 8, y - 1, 8, 1, color);
    blend_rect(canvas, x + 1, y, 15, 1, color);
}

pub fn draw_black_key_horiz(canvas: &mut SimpleBuffer, x: u32, y: u32, color: Color)
    requires
        old(canvas).wf(),
        y >= 1,
        x + 8 <= old(canvas).width,
        y + 2 <= old(canvas).height,
    ensures
        final(canvas).wf(),
        final(canvas).width == old(canvas).width,
        final(canvas).height == old(canvas).height,
        final(canvas).buffer@ == blend_filled(blend_filled(blend_filled(old(canvas).buffer@, old(canvas).width as int, (x as int + 1), (y as int - 1), (7), (1), color.data@), old(canvas).width as int, (x as int + 1), (y as int), (7), (1), color.data@), old(canvas).width as int, (x as int + 1), (y as int + 1), (7), (1), color.data@),
{
    blend_rect(canvas, x + 1, y - 1, 7, 1, color);
    blend_rect(canvas, x + 1, y, 7, 1, color);
    blend_rect(canvas, x + 1, y + 1, 7, 1, color);
}

pub fn draw_speaker_key_horiz(canvas: &mut SimpleBuffer, color: Color, x: u32, y: u32)
    requires
        old(canvas).wf(),
        y >= 6,
        x + 13 <= old(canvas).width,
        y + 7 <= old(canvas).height,
    ensures
        final(canvas).wf(),
        final(canvas).width == old(canvas).width,
        final(canvas).height == old(canvas).height,
        final(canvas).buffer@ == blend_filled(blend_filled(blend_filled(blend_filled(blend_filled(blend_filled(blend_filled(old(canvas).buffer@, old(canvas).width as int, (x as int + 2), (y as int - 2), (3), (5), color.data@), old(canvas).width as int, (x as int + 5), (y as int - 3), (1), (7), color.data@), old(canvas).width as int, (x as int + 6), (y as int - 4), (1), (9), color.data@), old(canvas).width as int, (x as int + 7), (y as int - 5), (1), (11), color.data@), old(canvas).width as int, (x as int + 8), (y as int - 6), (1), (13), color.data@), old(canvas).width as int, (x as int + 10), (y as int - 2), (1), (5), color.data@), old(canvas).width as int, (x as int + 12), (y as int - 4), (1), (9), color.data@),
{
    blend_rect(canvas, x + 2, y - 2, 3, 5, color);
    blend_rect(canvas, x + 5, y - 3, 1, 7, color);
    blend_rect(canvas, x + 6, y - 4, 1, 9, color);
    blend_rect(canvas, x + 7, y - 5, 1, 11, color);
    blend_rect(canvas, x + 8, y - 6, 1, 13, color);
    blend_rect(canvas, x + 10, y - 2, 1, 5, color);
    blend_rect(canvas, x + 12, y - 4, 1, 9, color);
}

pub fn draw_left_white_key_vert(canvas: &mut SimpleBuffer, x: u32, y: u32, color: Color, key_thickness: u32, base_key_length: u32)
    requires
        old(canvas).wf(),
        key_thickness >= 2,
        base_key_length >= 4,
        x >= key_thickness,
        key_thickness <= 0x1000,
        base_key_length <= 0x1000,
        (x as int - (key_thickness as int - 2) / 2) + (key_thickness as int - 1) <= old(canvas).width,
        (y as int + 1) + (base_key_length as int - 1) <= old(canvas).height,
        (x as int + (key_thickness as int + 1) / 2) + (key_thickness as int / 2) <= old(canvas).width,
        (y as int + 1 + base_key_length as int / 2) + (base_key_length as int / 2 - 1) <= old(canvas).height,
    ensures
        final(canvas).wf(),
        final(canvas).width == old(canvas).width,
        final(canvas).height == old(canvas).height,
        final(canvas).buffer@ == blend_filled(blend_filled(old(canvas).buffer@, old(canvas).width as int, (x as int - (key_thickness as int - 2) / 2), (y as int + 1), (key_thickness as int - 1), (base_key_length as int - 1), color.data@), old(canvas).width as int, (x as int + (key_thickness as int + 1) / 2), (y as int + 1 + base_key_length as int / 2), (key_thickness as int / 2), (base_key_length as int / 2 - 1), color.data@),
{
    blend_rect(canvas, x - (key_thickness - 2) / 2, upper_key_lpos(y), key_thickness - 1, full_key_length(base_key_length), color);
    blend_rect(canvas, x + (key_thickness + 1) / 2, lower_key_lpos(y, base_key_length), key_thickness / 2, lower_key_length(base_key_length), color);
}

pub fn draw_center_white_key_vert(canvas: &mut SimpleBuffer, x: u32, y: u32, color: Color, key_thickness: u32, base_key_length: u32)
    requires
        old(canvas).wf(),
        key_thickness >= 2,
        base_key_length >= 4,
        x >= key_thickness,
        key_thickness <= 0x1000,
        base_key_length <= 0x1000,
        (x as int - (key_thickness as int - 2) / 2) + (key_thickness as int - 1) <= old(canvas).width,
        (y as int + 1) + (base_key_length as int / 2) <= old(canvas).height,
        (x as int - (key_thickness as int - 1)) + (key_thickness as int * 2 - 1) <= old(canvas).width,
        (y as int + 1 + base_key_length as int / 2) + (base_key_length as int / 2 - 1) <= old(canvas).height,
    ensures
        final(canvas).wf(),
        final(canvas).width == old(canvas).width,
        final(canvas).height == old(canvas).height,
        final(canvas).buffer@ == blend_filled(blend_filled(old(canvas).buffer@, old(canvas).width as int, (x as int - (key_thickness as int - 2) / 2), (y as int + 1), (key_thickness as int - 1), (base_key_length as int / 2), color.data@), old(canvas).width as int, (x as int - (key_thickness as int - 1)), (y as int + 1 + base_key_length as int / 2), (key_thickness as int * 2 - 1), (base_key_length as int / 2 - 1), color.data@),
{
    blend_rect(canvas, x - (key_thickness - 2) / 2, upper_key_lpos(y), key_thickness - 1, upper_key_length(base_key_length), color);
    blend_rect(canvas, x - (key_thickness - 1), lower_key_lpos(y, base_key_length), key_thickness * 2 - 1, lower_key_length(base_key_length), color);
}

pub fn draw_right_white_key_vert(canvas: &mut SimpleBuffer, x: u32, y: u32, color: Color, key_thickness: u32, base_key_length: u32)
    requires
        old(canvas).wf(),
        key_thickness >= 2,
        base_key_length >= 4,
        x >= key_thickness,
        key_thickness <= 0x1000,
        base_key_length <= 0x1000,
        (x as int - (key_thickness as int - 2) / 2) + (key_thickness as int - 1) <= old(canvas).width,
        (y as int + 1) + (base_key_length as int - 1) <= old(canvas).height,
        (x as int - (key_thickness as int - 1)) + ((key_thickness as int + 1) / 2) <= old(canvas).width,
        (y as int + 1 + base_key_length as int / 2) + (base_key_length as int / 2 - 1) <= old(canvas).height,
    ensures
        final(canvas).wf(),
        final(canvas).width == old(canvas).width,
        final(canvas).height == old(canvas).height,
        final(canvas).buffer@ == blend_filled(blend_filled(old(canvas).buffer@, old(canvas).width as int, (x as int - (key_thickness as int - 2) / 2), (y as int + 1), (key_thickness as int - 1), (base_key_length as int - 1), color.data@), old(canvas).width as int, (x as int - (key_thickness as int - 1)), (y as int + 1 + base_key_length as int / 2), ((key_thickness as int + 1) / 2), (base_key_length as int / 2 - 1), color.data@),
{
    blend_rect(canvas, x - (key_thickness - 2) / 2, upper_key_lpos(y), key_thickness - 1, full_key_length(base_key_length), color);
    blend_rect(canvas, x - (key_thickness - 1), lower_key_lpos(y, base_key_length), (key_thickness + 1) / 2, lower_key_length(base_key_length), color);
}

pub fn draw_topmost_white_key_vert(canvas: &mut SimpleBuffer, x: u32, y: u32, color: Color, key_thickness: u32, base_key_length: u32)
    requires
        old(canvas).wf(),
        key_thickness >= 2,
        base_key_length >= 4,
        x >= key_thickness,
        key_thickness <= 0x1000,
        base_key_length <= 0x1000,
        (x as int - (key_thickness as int - 2) / 2) + (key_thickness as int + (key_thickness as int - 2) / 2) <= old(canvas).width,
        (y as int + 1) + (base_key_length as int - 1) <= old(canvas).height,
    ensures
        final(canvas).wf(),
        final(canvas).width == old(canvas).width,
        final(canvas).height == old(canvas).height,
        final(canvas).buffer@ == blend_filled(old(canvas).buffer@, old(canvas).width as int, (x as int - (key_thickness as int - 2) / 2), (y as int + 1), (key_thickness as int + (key_thickness as int - 2) / 2), (base_key_length as int - 1), color.data@),
{
    blend_rect(canvas, x - (key_thickness - 2) / 2, upper_key_lpos(y), key_thickness + (key_thickness - 2) / 2, full_key_length(base_key_length), color);
}

pub fn draw_black_key_vert(canvas: &mut SimpleBuffer, x: u32, y: u32, color: Color, key_thickness: u32, base_key_length: u32)
    requires
        old(canvas).wf(),
        key_thickness >= 2,
        base_key_length >= 4,
        x >= key_thickness,
        key_thickness <= 0x1000,
        base_key_length <= 0x1000,
        (x as int - key_thickness as int / 2) + (key_thickness as int + 1) <= old(canvas).width,
        (y as int + 1) + (base_key_length as int / 2) <= old(canvas).height,
    ensures
        final(canvas).wf(),
        final(canvas).width == old(canvas).width,
        final(canvas).height == old(canvas).height,
        final(canvas).buffer@ == blend_filled(old(canvas).buffer@, old(canvas).width as int, (x as int - key_thickness as int / 2), (y as int + 1), (key_thickness as int + 1), (base_key_length as int / 2), color.data@),
{
    blend_rect(canvas, x - key_thickness / 2, upper_key_lpos(y), key_thickness + 1, upper_key_length(base_key_length), color);
}

pub fn draw_speaker_key_vert(canvas: &mut SimpleBuffer, color: Color, x: u32, y: u32, key_thickness: u32, base_key_length: u32)
    requires
        old(canvas).wf(),
        key_thickness >= 2,
        base_key_length >= 4,
        x >= key_thickness,
        key_thickness <= 0x1000,
        base_key_length <= 0x1000,
        (x as int - key_thickness as int / 2) + (key_thickness as int + 1) <= old(canvas).width,
        (y as int + 1) + (base_key_length as int - 1) <= old(canvas).height,
    ensures
        final(canvas).wf(),
        final(canvas).width == old(canvas).width,
        final(canvas).height == old(canvas).height,
        final(canvas).buffer@ == blend_filled(old(canvas).buffer@, old(canvas).width as int, (x as int - key_thickness as int / 2), (y as int + 1), (key_thickness as int + 1), (base_key_length as int - 1), color.data@),
{
    blend_rect(canvas, x - key_thickness / 2, upper_key_lpos(y), key_thickness + 1, full_key_length(base_key_length), color);
}

} // verus!
