//! Render options and the text form of stop conditions.
use crate::text::string_from_chars;
use vstd::prelude::*;
use vstd::std_specs::iter::IteratorSpec;

verus! {

/// Frames per second of the video output.
pub const FRAME_RATE: u64 = 60;

/// When a render stops.
#[derive(Clone, Copy, PartialEq, Eq, Structural, Debug)]
pub enum StopCondition {
    /// After this many frames.
    Frames(u64),
    /// After the song has looped this many times.
    Loops(usize),
    /// After the duration that the module's metadata gives for the track.
    NsfeLength,
}

/// Why a stop condition could not be read.
#[derive(Clone, Copy, PartialEq, Eq, Structural, Debug)]
pub enum StopConditionError {
    /// Not of the form `kind:value`.
    InvalidFormat,
    /// The value is not a number that fits.
    InvalidNumber,
    /// The kind is not `time`, `frames` or `loops`.
    UnknownType,
}

impl StopConditionError {
    /// A readable description of the error.
    pub fn message(&self) -> (r: &'static str)
        ensures
            r@ == (match *self {
                StopConditionError::InvalidFormat => "Stop condition format invalid, try one of 'time:3', 'time:nsfe', 'frames:180', or 'loops:2'."@,
                StopConditionError::InvalidNumber => "invalid digit found in string"@,
                StopConditionError::UnknownType => "Unknown condition type. Valid types are 'time', 'frames', and 'loops'"@,
            }),
    {
        match self {
            StopConditionError::InvalidFormat => {
                proof {
                    reveal_strlit("Stop condition format invalid, try one of 'time:3', 'time:nsfe', 'frames:180', or 'loops:2'.");
                }
                "Stop condition format invalid, try one of 'time:3', 'time:nsfe', 'frames:180', or 'loops:2'."
            },
            StopConditionError::InvalidNumber => {
                proof {
                    reveal_strlit("invalid digit found in string");
                }
                "invalid digit found in string"
            },
            StopConditionError::UnknownType => {
                proof {
                    reveal_strlit("Unknown condition type. Valid types are 'time', 'frames', and 'loops'");
                }
                "Unknown condition type. Valid types are 'time', 'frames', and 'loops'"
            },
        }
    }
}

/// The characters of a string.
pub fn chars_of(s: &str) -> (r: Vec<char>)
    ensures
        r@ == s@,
{
    broadcast use vstd::string::axiom_spec_iter;
    let mut it = s.chars();
    let mut out: Vec<char> = Vec::new();
    loop
        invariant
            out@ + it.remaining() == s@,
        ensures
            out@ == s@,
        decreases s@.len() - out@.len(),
    {
        let ghost before = it.remaining();
        match it.next() {
            Some(c) => {
                proof {
                    assert(before.len() > 0);
                }
                out.push(c);
                assert(out@ + it.remaining() =~= s@);
            },
            None => {
                assert(out@ =~= s@);
                break;
            },
        }
    }
    out
}

/// The pieces of `cs[start..]` separated by `sep`, scanning from `k`.
pub open spec fn split_chars_scan(cs: Seq<char>, sep: char, start: int, k: int) -> Seq<Seq<char>>
    decreases cs.len() - k,
{
    if k >= cs.len() {
        seq![cs.subrange(start, cs.len() as int)]
    } else if cs[k] == sep {
        seq![cs.subrange(start, k)] + split_chars_scan(cs, sep, k + 1, k + 1)
    } else {
        split_chars_scan(cs, sep, start, k + 1)
    }
}

/// The pieces of `cs` separated by `sep` (always at least one).
pub open spec fn split_chars(cs: Seq<char>, sep: char) -> Seq<Seq<char>> {
    split_chars_scan(cs, sep, 0, 0)
}

fn split_on(cs: &Vec<char>, sep: char) -> (r: Vec<Vec<char>>)
    ensures
        r@.map_values(|p: Vec<char>| p@) == split_chars(cs@, sep),
{
    let len = cs.len();
    let mut pieces: Vec<Vec<char>> = Vec::new();
    let mut cur: Vec<char> = Vec::new();
    let mut start: usize = 0;
    let mut k: usize = 0;
    while k < len
        invariant
            len == cs@.len(),
            start <= k <= len,
            cur@ == cs@.subrange(start as int, k as int),
            split_chars(cs@, sep) == pieces@.map_values(|p: Vec<char>| p@) + split_chars_scan(cs@, sep, start as int, k as int),
        decreases len - k,
    {
        if cs[k] == sep {
            let ghost before = pieces@;
            let piece = cur;
            pieces.push(piece);
            proof {
                assert(pieces@.map_values(|p: Vec<char>| p@) =~= before.map_values(|p: Vec<char>| p@) + seq![piece@]);
                assert(before.map_values(|p: Vec<char>| p@) + (seq![piece@] + split_chars_scan(cs@, sep, k + 1, k + 1))
                    =~= pieces@.map_values(|p: Vec<char>| p@) + split_chars_scan(cs@, sep, k + 1, k + 1));
            }
            cur = Vec::new();
            start = k + 1;
            assert(cur@ =~= cs@.subrange(start as int, start as int));
        } else {
            cur.push(cs[k]);
            assert(cur@ =~= cs@.subrange(start as int, k + 1));
        }
        k = k + 1;
    }
    let ghost before = pieces@;
    let piece = cur;
    pieces.push(piece);
    assert(pieces@.map_values(|p: Vec<char>| p@) =~= before.map_values(|p: Vec<char>| p@) + seq![piece@]);
    pieces
}

/// `c` is a decimal digit.
pub open spec fn is_digit(c: char) -> bool {
    '0' <= c && c <= '9'
}

/// The value of a string of decimal digits.
pub open spec fn digits_value(ds: Seq<char>) -> int
    decreases ds.len(),
{
    if ds.len() == 0 {
        0
    } else {
        digits_value(ds.subrange(0, ds.len() - 1)) * 10 + (ds[ds.len() - 1] as int - '0' as int)
    }
}

/// `cs` without a leading `+`.
pub open spec fn sign_stripped(cs: Seq<char>) -> Seq<char> {
    if cs.len() > 0 && cs[0] == '+' {
        cs.subrange(1, cs.len() as int)
    } else {
        cs
    }
}

/// Every character of `ds` is a decimal digit.
pub open spec fn all_digits(ds: Seq<char>) -> bool {
    forall|i: int| 0 <= i < ds.len() ==> is_digit(#[trigger] ds[i])
}

/// The value of an unsigned decimal number with an optional leading `+`,
/// as Rust's integer parsing reads it; `None` if it is not one.
pub open spec fn unsigned_value(cs: Seq<char>) -> Option<int> {
    let ds = sign_stripped(cs);
    if ds.len() > 0 && all_digits(ds) {
        Some(digits_value(ds))
    } else {
        None
    }
}

proof fn lemma_digits_value_nonneg(ds: Seq<char>)
    requires
        forall|i: int| 0 <= i < ds.len() ==> is_digit(#[trigger] ds[i]),
    ensures
        digits_value(ds) >= 0,
    decreases ds.len(),
{
    if ds.len() > 0 {
        let p = ds.subrange(0, ds.len() - 1);
        assert forall|i: int| 0 <= i < p.len() implies is_digit(#[trigger] p[i]) by {
            assert(p[i] == ds[i]);
        }
        lemma_digits_value_nonneg(p);
    }
}

/// Reads an unsigned decimal number that must not exceed `max`.
pub fn parse_unsigned(cs: &[char], max: u64) -> (r: Option<u64>)
    ensures
        r is Some <==> (unsigned_value(cs@) matches Some(v) && v <= max),
        r matches Some(v) ==> Some(v as int) == unsigned_value(cs@),
{
    let len = cs.len();
    let first: usize = if len > 0 && cs[0] == '+' { 1 } else { 0 };
    let ghost ds = sign_stripped(cs@);
    assert(ds =~= cs@.subrange(first as int, len as int));
    if first >= len {
        return None;
    }
    let mut v: u64 = 0;
    let mut k: usize = first;
    let mut overflow = false;
    assert(cs@.subrange(first as int, first as int) =~= Seq::<char>::empty());
    while k < len
        invariant
            len == cs@.len(),
            first <= k <= len,
            ds == cs@.subrange(first as int, len as int),
            ds == sign_stripped(cs@),
            forall|i: int| first <= i < k ==> is_digit(#[trigger] cs@[i]),
            !overflow ==> v == digits_value(cs@.subrange(first as int, k as int)),
            !overflow ==> v <= max,
            overflow ==> digits_value(cs@.subrange(first as int, k as int)) > max,
        decreases len - k,
    {
        let c = cs[k];
        if !('0' <= c && c <= '9') {
            assert(ds[k - first] == cs@[k as int]);
            assert(!is_digit(ds[k - first]));
            assert(!all_digits(ds));
            return None;
        }
        let d: u64 = (c as u32 - '0' as u32) as u64;
        let ghost prev = cs@.subrange(first as int, k as int);
        let ghost next = cs@.subrange(first as int, k + 1);
        assert(next.subrange(0, next.len() - 1) =~= prev);
        proof {
            assert forall|i: int| 0 <= i < prev.len() implies is_digit(#[trigger] prev[i]) by {
                assert(prev[i] == cs@[first + i]);
            }
            lemma_digits_value_nonneg(prev);
        }
        if !overflow {
            if d > max || v > (max - d) / 10 {
                overflow = true;
                assert(digits_value(next) > max) by (nonlinear_arith)
                    requires
                        digits_value(next) == v * 10 + d,
                        d > max || v > (max - d) / 10,
                        v >= 0,
                        d <= 9,
                ;
            } else {
                assert(v * 10 + d <= max) by (nonlinear_arith)
                    requires
                        v <= (max - d) / 10,
                        d <= max,
                ;
                v = v * 10 + d;
            }
        } else {
            assert(digits_value(next) > max) by (nonlinear_arith)
                requires
                    digits_value(next) == digits_value(prev) * 10 + d,
                    digits_value(prev) > max,
                    d >= 0,
            ;
        }
        k = k + 1;
    }
    assert(cs@.subrange(first as int, len as int) == ds);
    if overflow {
        None
    } else {
        Some(v)
    }
}

/// The decimal digit character for `d < 10`.
pub open spec fn digit_char(d: int) -> char {
    seq!['0', '1', '2', '3', '4', '5', '6', '7', '8', '9'][d]
}

/// The decimal representation of `n`, without leading zeros.
pub open spec fn decimal(n: nat) -> Seq<char>
    decreases n,
{
    if n < 10 {
        seq![digit_char(n as int)]
    } else {
        decimal(n / 10) + seq![digit_char((n % 10) as int)]
    }
}

/// Appends the decimal representation of `n`.
pub fn push_decimal(out: &mut Vec<char>, n: u64)
    ensures
        final(out)@ == old(out)@ + decimal(n as nat),
    decreases n,
{
    let digits: [char; 10] = ['0', '1', '2', '3', '4', '5', '6', '7', '8', '9'];
    assert(digits@ =~= seq!['0', '1', '2', '3', '4', '5', '6', '7', '8', '9']);
    if n >= 10 {
        push_decimal(out, n / 10);
    }
    out.push(digits[(n % 10) as usize]);
    assert(out@ =~= old(out)@ + decimal(n as nat));
}

fn push_chars(out: &mut Vec<char>, cs: &[char])
    ensures
        final(out)@ == old(out)@ + cs@,
{
    let mut i: usize = 0;
    while i < cs.len()
        invariant
            i <= cs@.len(),
            out@ == old(out)@ + cs@.subrange(0, i as int),
        decreases cs@.len() - i,
    {
        out.push(cs[i]);
        i = i + 1;
        assert(out@ =~= old(out)@ + cs@.subrange(0, i as int));
    }
    assert(cs@.subrange(0, cs@.len() as int) =~= cs@);
}

fn chars_eq(a: &Vec<char>, b: &[char]) -> (r: bool)
    ensures
        r == (a@ == b@),
{
    if a.len() != b.len() {
        return false;
    }
    let mut i: usize = 0;
    while i < a.len()
        invariant
            a@.len() == b@.len(),
            i <= a@.len(),
            forall|j: int| 0 <= j < i ==> a@[j] == b@[j],
        decreases a@.len() - i,
    {
        if a[i] != b[i] {
            return false;
        }
        i = i + 1;
    }
    assert(a@ =~= b@);
    true
}

/// The stop condition a `kind:value` string describes: `time:<seconds>`
/// (60 frames a second), `time:nsfe`, `frames:<count>` or `loops:<count>`.
pub open spec fn stop_condition_of(cs: Seq<char>) -> Result<StopCondition, StopConditionError> {
    let parts = split_chars(cs, ':');
    if parts.len() != 2 {
        Err(StopConditionError::InvalidFormat)
    } else if parts[0] == seq!['t', 'i', 'm', 'e'] {
        if parts[1] == seq!['n', 's', 'f', 'e'] {
            Ok(StopCondition::NsfeLength)
        } else {
            match unsigned_value(parts[1]) {
                Some(v) => if v * 60 <= u64::MAX {
                    Ok(StopCondition::Frames((v * 60) as u64))
                } else {
                    Err(StopConditionError::InvalidNumber)
                },
                None => Err(StopConditionError::InvalidNumber),
            }
        }
    } else if parts[0] == seq!['f', 'r', 'a', 'm', 'e', 's'] {
        match unsigned_value(parts[1]) {
            Some(v) => if v <= u64::MAX {
                Ok(StopCondition::Frames(v as u64))
            } else {
                Err(StopConditionError::InvalidNumber)
            },
            None => Err(StopConditionError::InvalidNumber),
        }
    } else if parts[0] == seq!['l', 'o', 'o', 'p', 's'] {
        match unsigned_value(parts[1]) {
            Some(v) => if v <= usize::MAX {
                Ok(StopCondition::Loops(v as usize))
            } else {
                Err(StopConditionError::InvalidNumber)
            },
            None => Err(StopConditionError::InvalidNumber),
        }
    } else {
        Err(StopConditionError::UnknownType)
    }
}

/// The `kind:value` text of a stop condition: whole seconds are written as
/// `time:<seconds>`.
pub open spec fn stop_condition_text(c: StopCondition) -> Seq<char> {
    match c {
        StopCondition::Frames(n) => if n % 60 == 0 {
            seq!['t', 'i', 'm', 'e', ':'] + decimal((n / 60) as nat)
        } else {
            seq!['f', 'r', 'a', 'm', 'e', 's', ':'] + decimal(n as nat)
        },
        StopCondition::Loops(n) => seq!['l', 'o', 'o', 'p', 's', ':'] + decimal(n as nat),
        StopCondition::NsfeLength => seq!['t', 'i', 'm', 'e', ':', 'n', 's', 'f', 'e'],
    }
}

impl StopCondition {
    /// Reads a stop condition; see `stop_condition_of`.
    pub fn parse(s: &str) -> (r: Result<StopCondition, StopConditionError>)
        ensures
            r == stop_condition_of(s@),
    {
        let cs = chars_of(s);
        let parts = split_on(&cs, ':');
        let ghost views = parts@.map_values(|p: Vec<char>| p@);
        assert(views.len() == parts@.len());
        if parts.len() != 2 {
            return Err(StopConditionError::InvalidFormat);
        }
        assert(views[0] == parts@[0]@ && views[1] == parts@[1]@);
        let kind = &parts[0];
        let value = parts[1].as_slice();
        let time: [char; 4] = ['t', 'i', 'm', 'e'];
        let nsfe: [char; 4] = ['n', 's', 'f', 'e'];
        let frames: [char; 6] = ['f', 'r', 'a', 'm', 'e', 's'];
        let loops: [char; 5] = ['l', 'o', 'o', 'p', 's'];
        assert(time@ =~= seq!['t', 'i', 'm', 'e']);
        assert(nsfe@ =~= seq!['n', 's', 'f', 'e']);
        assert(frames@ =~= seq!['f', 'r', 'a', 'm', 'e', 's']);
        assert(loops@ =~= seq!['l', 'o', 'o', 'p', 's']);
        if chars_eq(kind, time.as_slice()) {
            if chars_eq(&parts[1], nsfe.as_slice()) {
                Ok(StopCondition::NsfeLength)
            } else {
                match parse_unsigned(value, u64::MAX / 60) {
                    Some(v) => Ok(StopCondition::Frames(v * 60)),
                    None => {
                        proof {
                            if let Some(v) = unsigned_value(value@) {
                                if v * 60 <= u64::MAX {
                                    assert(v <= u64::MAX / 60);
                                }
                            }
                        }
                        Err(StopConditionError::InvalidNumber)
                    },
                }
            }
        } else if chars_eq(kind, frames.as_slice()) {
            match parse_unsigned(value, u64::MAX) {
                Some(v) => Ok(StopCondition::Frames(v)),
                None => Err(StopConditionError::InvalidNumber),
            }
        } else if chars_eq(kind, loops.as_slice()) {
            match parse_unsigned(value, usize::MAX as u64) {
                Some(v) => Ok(StopCondition::Loops(v as usize)),
                None => Err(StopConditionError::InvalidNumber),
            }
        } else {
            Err(StopConditionError::UnknownType)
        }
    }

    /// The `kind:value` text; see `stop_condition_text`.
    pub fn to_text(&self) -> (r: String)
        ensures
            r@ == stop_condition_text(*self),
    {
        let mut out: Vec<char> = Vec::new();
        match *self {
            StopCondition::Frames(n) => {
                if n % 60 == 0 {
                    push_chars(&mut out, ['t', 'i', 'm', 'e', ':'].as_slice());
                    push_decimal(&mut out, n / 60);
                } else {
                    push_chars(&mut out, ['f', 'r', 'a', 'm', 'e', 's', ':'].as_slice());
                    push_decimal(&mut out, n);
                }
            },
            StopCondition::Loops(n) => {
                push_chars(&mut out, ['l', 'o', 'o', 'p', 's', ':'].as_slice());
                push_decimal(&mut out, n as u64);
            },
            StopCondition::NsfeLength => {
                push_chars(&mut out, ['t', 'i', 'm', 'e', ':', 'n', 's', 'f', 'e'].as_slice());
            },
        }
        proof {
            let t = stop_condition_text(*self);
            assert(out@ =~= t);
        }
        string_from_chars(&out)
    }
}

impl std::str::FromStr for StopCondition {
    type Err = StopConditionError;

    fn from_str(s: &str) -> Result<StopCondition, StopConditionError> {
        StopCondition::parse(s)
    }
}

/// Layout of the raw audio samples handed to the encoder.
#[derive(Clone, Copy, PartialEq, Eq, Structural, Debug)]
pub enum SampleFormat {
    U8,
    S16,
    S32,
    S64,
    F32,
    F64,
    U8P,
    S16P,
    S32P,
    S64P,
    FLTP,
    DBLP,
}

/// Everything a render is configured with that the library reads.
#[derive(Clone, Debug)]
pub struct RendererOptions {
    pub input_path: String,
    pub output_path: String,
    pub track_index: u8,
    pub stop_condition: StopCondition,
    pub fadeout_length: u64,
    pub famicom: bool,
    pub high_quality: bool,
    pub multiplexing: bool,
    pub sample_rate: u32,
    pub config_import_path: Option<String>,
}

impl Default for RendererOptions {
    /// Five minutes, a three-second fade, NES filtering at high quality,
    /// 44.1 kHz.
    fn default() -> (r: Self)
        ensures
            r.input_path@.len() == 0,
            r.output_path@.len() == 0,
            r.track_index == 0,
            r.stop_condition == StopCondition::Frames(18000),
            r.fadeout_length == 180,
            !r.famicom,
            r.high_quality,
            !r.multiplexing,
            r.sample_rate == 44100,
            r.config_import_path is None,
    {
        RendererOptions {
            input_path: String::new(),
            output_path: String::new(),
            track_index: 0,
            stop_condition: StopCondition::Frames(300 * FRAME_RATE),
            fadeout_length: 180,
            famicom: false,
            high_quality: true,
            multiplexing: false,
            sample_rate: 44100,
            config_import_path: None,
        }
    }
}

} // verus!
