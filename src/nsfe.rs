//! NSFe chunks: splitting, decoding, the metadata they carry, and
//! conversion of an NSFe file to an NSF2 image.
use crate::text::utf8_to_string;
use vstd::prelude::*;
use vstd::utf8::{decode_utf8, valid_utf8};

verus! {

/// Why NSFe data could not be read.
#[derive(Clone, Copy, PartialEq, Eq, Structural, Debug)]
pub enum NsfeError {
    MalformedHeader,
    ChunkHeaderTruncated,
    ChunkTruncated,
    InvalidU16Array,
    InvalidI32Array,
    InvalidString,
    MissingVrc7Flag,
    Vrc7RhythmWithoutYm2413,
    Vrc7InvalidLength,
    MissingInfo,
    MissingData,
    InfoTooShort,
}

impl NsfeError {
    /// A readable description of the error.
    pub fn message(&self) -> (r: &'static str)
        ensures
            r@ == (match *self {
                NsfeError::MalformedHeader => "Malformed header"@,
                NsfeError::ChunkHeaderTruncated => "Not enough data left for next NSFe chunk!"@,
                NsfeError::ChunkTruncated => "NSFe chunk is too short"@,
                NsfeError::InvalidU16Array => "NSFe u16 array has invalid length"@,
                NsfeError::InvalidI32Array => "NSFe i32 array has invalid length"@,
                NsfeError::InvalidString => "NSFe string array contains invalid data"@,
                NsfeError::MissingVrc7Flag => "VRC7 section missing YM2413 flag"@,
                NsfeError::Vrc7RhythmWithoutYm2413 => "VRC7 section specifies rhythm instruments in non-YM2413 mode"@,
                NsfeError::Vrc7InvalidLength => "VRC7 section has invalid length"@,
                NsfeError::MissingInfo => "Missing INFO chunk"@,
                NsfeError::MissingData => "Missing DATA chunk"@,
                NsfeError::InfoTooShort => "INFO chunk is too short"@,
            }),
    {
        match self {
            NsfeError::MalformedHeader => {
                proof {
                    reveal_strlit("Malformed header");
                }
                "Malformed header"
            },
            NsfeError::ChunkHeaderTruncated => {
                proof {
                    reveal_strlit("Not enough data left for next NSFe chunk!");
                }
                "Not enough data left for next NSFe chunk!"
            },
            NsfeError::ChunkTruncated => {
                proof {
                    reveal_strlit("NSFe chunk is too short");
                }
                "NSFe chunk is too short"
            },
            NsfeError::InvalidU16Array => {
                proof {
                    reveal_strlit("NSFe u16 array has invalid length");
                }
                "NSFe u16 array has invalid length"
            },
            NsfeError::InvalidI32Array => {
                proof {
                    reveal_strlit("NSFe i32 array has invalid length");
                }
                "NSFe i32 array has invalid length"
            },
            NsfeError::InvalidString => {
                proof {
                    reveal_strlit("NSFe string array contains invalid data");
                }
                "NSFe string array contains invalid data"
            },
            NsfeError::MissingVrc7Flag => {
                proof {
                    reveal_strlit("VRC7 section missing YM2413 flag");
                }
                "VRC7 section missing YM2413 flag"
            },
            NsfeError::Vrc7RhythmWithoutYm2413 => {
                proof {
                    reveal_strlit("VRC7 section specifies rhythm instruments in non-YM2413 mode");
                }
                "VRC7 section specifies rhythm instruments in non-YM2413 mode"
            },
            NsfeError::Vrc7InvalidLength => {
                proof {
                    reveal_strlit("VRC7 section has invalid length");
                }
                "VRC7 section has invalid length"
            },
            NsfeError::MissingInfo => {
                proof {
                    reveal_strlit("Missing INFO chunk");
                }
                "Missing INFO chunk"
            },
            NsfeError::MissingData => {
                proof {
                    reveal_strlit("Missing DATA chunk");
                }
                "Missing DATA chunk"
            },
            NsfeError::InfoTooShort => {
                proof {
                    reveal_strlit("INFO chunk is too short");
                }
                "INFO chunk is too short"
            },
        }
    }
}

/// The little-endian 16-bit value at `i`.
pub open spec fn le_u16(d: Seq<u8>, i: int) -> int {
    d[i] + d[i + 1] * 256
}

/// The little-endian 32-bit value at `i`.
pub open spec fn le_u32(d: Seq<u8>, i: int) -> int {
    d[i] + d[i + 1] * 256 + d[i + 2] * 65536 + d[i + 3] * 16777216
}

/// The chunks of an NSFe body: each is a 32-bit little-endian length, a
/// four-character code and that many bytes of data. `None` when the data
/// ends inside a chunk.
pub open spec fn chunks_of(data: Seq<u8>) -> Option<Seq<(Seq<u8>, Seq<u8>)>>
    decreases data.len(),
{
    if data.len() == 0 {
        Some(Seq::empty())
    } else if data.len() < 8 {
        None
    } else {
        let n = le_u32(data, 0);
        if n > data.len() - 8 {
            None
        } else {
            match chunks_of(data.subrange(8 + n, data.len() as int)) {
                Some(rest) => Some(seq![(data.subrange(4, 8), data.subrange(8, 8 + n))] + rest),
                None => None,
            }
        }
    }
}

/// The views of extracted chunks.
pub open spec fn raw_views(v: Seq<([u8; 4], Vec<u8>)>) -> Seq<(Seq<u8>, Seq<u8>)> {
    v.map_values(|c: ([u8; 4], Vec<u8>)| (c.0@, c.1@))
}

/// A copy of `data[start..end]`.
pub fn copy_range(data: &[u8], start: usize, end: usize) -> (r: Vec<u8>)
    requires
        start <= end <= data@.len(),
    ensures
        r@ == data@.subrange(start as int, end as int),
{
    let mut r: Vec<u8> = Vec::new();
    let mut i: usize = start;
    while i < end
        invariant
            start <= i <= end,
            end <= data@.len(),
            r@ == data@.subrange(start as int, i as int),
        decreases end - i,
    {
        r.push(data[i]);
        i = i + 1;
        assert(r@ =~= data@.subrange(start as int, i as int));
    }
    r
}

fn read_le_u32(d: &[u8], i: usize) -> (r: u32)
    requires
        i + 4 <= d@.len(),
    ensures
        r == le_u32(d@, i as int),
{
    d[i] as u32 + d[i + 1] as u32 * 256 + d[i + 2] as u32 * 65536 + d[i + 3] as u32 * 16777216
}

/// Splits an NSFe body into its chunks; see `chunks_of`.
pub fn extract_fourcc_chunks(data: &[u8]) -> (r: Result<Vec<([u8; 4], Vec<u8>)>, NsfeError>)
    ensures
        match r {
            Ok(v) => chunks_of(data@) == Some(raw_views(v@)),
            Err(e) => chunks_of(data@) is None && (e == NsfeError::ChunkHeaderTruncated || e == NsfeError::ChunkTruncated),
        },
{
    let len = data.len();
    let mut result: Vec<([u8; 4], Vec<u8>)> = Vec::new();
    let mut pos: usize = 0;
    assert(data@.subrange(0, len as int) =~= data@);
    while pos < len
        invariant
            len == data@.len(),
            pos <= len,
            chunks_of(data@) == (match chunks_of(data@.subrange(pos as int, len as int)) {
                Some(rest) => Some(raw_views(result@) + rest),
                None => None,
            }),
        decreases len - pos,
    {
        let rest: Ghost<Seq<u8>> = Ghost(data@.subrange(pos as int, len as int));
        if len - pos < 8 {
            return Err(NsfeError::ChunkHeaderTruncated);
        }
        let n: u32 = read_le_u32(data, pos);
        assert(le_u32(rest@, 0) == le_u32(data@, pos as int));
        if n as usize > len - pos - 8 {
            return Err(NsfeError::ChunkTruncated);
        }
        let four_cc: [u8; 4] = [data[pos + 4], data[pos + 5], data[pos + 6], data[pos + 7]];
        let body = copy_range(data, pos + 8, pos + 8 + n as usize);
        let next: usize = pos + 8 + n as usize;
        proof {
            assert(four_cc@ =~= rest@.subrange(4, 8));
            assert(body@ =~= rest@.subrange(8, 8 + n));
            assert(rest@.subrange(8 + n, rest@.len() as int) =~= data@.subrange(next as int, len as int));
        }
        let ghost before = result@;
        result.push((four_cc, body));
        proof {
            assert(raw_views(result@) =~= raw_views(before) + seq![(four_cc@, body@)]);
            match chunks_of(data@.subrange(next as int, len as int)) {
                Some(tail) => {
                    assert(raw_views(before) + (seq![(four_cc@, body@)] + tail) =~= raw_views(result@) + tail);
                },
                None => {},
            }
        }
        pos = next;
    }
    assert(data@.subrange(len as int, len as int) =~= Seq::<u8>::empty());
    assert(raw_views(result@) + Seq::<(Seq<u8>, Seq<u8>)>::empty() =~= raw_views(result@));
    Ok(result)
}

/// The pieces of `d[start..]` separated by zero bytes, scanning from `k`
/// (the current piece runs from `start`).
pub open spec fn split_scan(d: Seq<u8>, start: int, k: int) -> Seq<Seq<u8>>
    decreases d.len() - k,
{
    if k >= d.len() {
        seq![d.subrange(start, d.len() as int)]
    } else if d[k] == 0 {
        seq![d.subrange(start, k)] + split_scan(d, k + 1, k + 1)
    } else {
        split_scan(d, start, k + 1)
    }
}

/// The pieces of `d` separated by zero bytes (always at least one).
pub open spec fn zero_split(d: Seq<u8>) -> Seq<Seq<u8>> {
    split_scan(d, 0, 0)
}

/// Splits `d` at every zero byte; see `zero_split`.
pub fn split_at_zeros(d: &[u8]) -> (r: Vec<Vec<u8>>)
    ensures
        r@.map_values(|p: Vec<u8>| p@) == zero_split(d@),
{
    let len = d.len();
    let mut pieces: Vec<Vec<u8>> = Vec::new();
    let mut start: usize = 0;
    let mut k: usize = 0;
    while k < len
        invariant
            len == d@.len(),
            start <= k <= len,
            zero_split(d@) == pieces@.map_values(|p: Vec<u8>| p@) + split_scan(d@, start as int, k as int),
        decreases len - k,
    {
        if d[k] == 0 {
            let piece = copy_range(d, start, k);
            let ghost before = pieces@;
            pieces.push(piece);
            proof {
                assert(pieces@.map_values(|p: Vec<u8>| p@) =~= before.map_values(|p: Vec<u8>| p@) + seq![piece@]);
                assert(before.map_values(|p: Vec<u8>| p@) + (seq![piece@] + split_scan(d@, k + 1, k + 1))
                    =~= pieces@.map_values(|p: Vec<u8>| p@) + split_scan(d@, k + 1, k + 1));
            }
            start = k + 1;
        }
        k = k + 1;
    }
    let piece = copy_range(d, start, len);
    let ghost before = pieces@;
    pieces.push(piece);
    assert(pieces@.map_values(|p: Vec<u8>| p@) =~= before.map_values(|p: Vec<u8>| p@) + seq![piece@]);
    pieces
}

/// The 16-bit little-endian values of `d`.
pub open spec fn u16s_of(d: Seq<u8>) -> Seq<u16> {
    Seq::new((d.len() / 2) as nat, |i: int| le_u16(d, 2 * i) as u16)
}

/// The 32-bit little-endian signed values of `d`.
pub open spec fn i32s_of(d: Seq<u8>) -> Seq<i32> {
    Seq::new((d.len() / 4) as nat, |i: int| (le_u32(d, 4 * i) as u32) as i32)
}

/// Reads `d` as an array of little-endian `u16`; its length must be even.
pub fn chunk_data_as_u16_vec(d: &[u8]) -> (r: Result<Vec<u16>, NsfeError>)
    ensures
        d@.len() % 2 == 0 ==> r == Ok::<Vec<u16>, NsfeError>(r->Ok_0) && r->Ok_0@ == u16s_of(d@),
        d@.len() % 2 != 0 ==> r == Err::<Vec<u16>, NsfeError>(NsfeError::InvalidU16Array),
{
    if d.len() % 2 != 0 {
        return Err(NsfeError::InvalidU16Array);
    }
    let len = d.len();
    let n = len / 2;
    let mut v: Vec<u16> = Vec::new();
    let mut i: usize = 0;
    while i < n
        invariant
            len == d@.len(),
            n == d@.len() / 2,
            i <= n,
            v@ == u16s_of(d@).subrange(0, i as int),
        decreases n - i,
    {
        let x: u16 = (d[2 * i] as u16) + (d[2 * i + 1] as u16) * 256;
        v.push(x);
        i = i + 1;
        assert(v@ =~= u16s_of(d@).subrange(0, i as int));
    }
    assert(v@ =~= u16s_of(d@));
    Ok(v)
}

/// Reads `d` as an array of little-endian `i32`; its length must be a
/// multiple of 4.
pub fn chunk_data_as_i32_vec(d: &[u8]) -> (r: Result<Vec<i32>, NsfeError>)
    ensures
        d@.len() % 4 == 0 ==> r == Ok::<Vec<i32>, NsfeError>(r->Ok_0) && r->Ok_0@ == i32s_of(d@),
        d@.len() % 4 != 0 ==> r == Err::<Vec<i32>, NsfeError>(NsfeError::InvalidI32Array),
{
    if d.len() % 4 != 0 {
        return Err(NsfeError::InvalidI32Array);
    }
    let len = d.len();
    let n = len / 4;
    let mut v: Vec<i32> = Vec::new();
    let mut i: usize = 0;
    while i < n
        invariant
            len == d@.len(),
            n == d@.len() / 4,
            i <= n,
            v@ == i32s_of(d@).subrange(0, i as int),
        decreases n - i,
    {
        let x: u32 = read_le_u32(d, 4 * i);
        v.push(#[verifier::truncate] (x as i32));
        i = i + 1;
        assert(v@ =~= i32s_of(d@).subrange(0, i as int));
    }
    assert(v@ =~= i32s_of(d@));
    Ok(v)
}

/// Every zero-separated piece of `d` is valid UTF-8.
pub open spec fn strings_valid(d: Seq<u8>) -> bool {
    forall|i: int| 0 <= i < zero_split(d).len() ==> valid_utf8(#[trigger] zero_split(d)[i])
}

/// `v` holds the decoded zero-separated pieces of `d`.
pub open spec fn strings_match(v: Seq<String>, d: Seq<u8>) -> bool {
    &&& v.len() == zero_split(d).len()
    &&& forall|i: int| 0 <= i < v.len() ==> (#[trigger] v[i])@ == decode_utf8(zero_split(d)[i])
}

/// Reads `d` as zero-separated UTF-8 strings.
pub fn chunk_data_as_string_vec(d: &[u8]) -> (r: Result<Vec<String>, NsfeError>)
    ensures
        r is Ok <==> strings_valid(d@),
        r matches Ok(v) ==> strings_match(v@, d@),
        r matches Err(e) ==> e == NsfeError::InvalidString,
{
    let pieces = split_at_zeros(d);
    let ghost views = pieces@.map_values(|p: Vec<u8>| p@);
    let mut out: Vec<String> = Vec::new();
    let mut i: usize = 0;
    while i < pieces.len()
        invariant
            views == zero_split(d@),
            views == pieces@.map_values(|p: Vec<u8>| p@),
            i <= pieces@.len(),
            out@.len() == i,
            forall|j: int| 0 <= j < i ==> valid_utf8(#[trigger] views[j]),
            forall|j: int| 0 <= j < i ==> (#[trigger] out@[j])@ == decode_utf8(views[j]),
        decreases pieces@.len() - i,
    {
        assert(views[i as int] == pieces@[i as int]@);
        match utf8_to_string(pieces[i].as_slice()) {
            Ok(s) => {
                out.push(s);
            },
            Err(_) => {
                return Err(NsfeError::InvalidString);
            },
        }
        i = i + 1;
    }
    Ok(out)
}

/// One decoded NSFe chunk.
#[derive(Clone, Debug)]
pub enum NsfeChunk {
    Playlist(Vec<usize>),
    SoundEffects(Vec<usize>),
    Time(Vec<i32>),
    Fadeout(Vec<i32>),
    TrackLabels(Vec<String>),
    TrackAuthors(Vec<String>),
    Author { title: String, artist: String, copyright: String, ripper: String },
    Text(String),
    Info(Vec<u8>),
    Data(Vec<u8>),
    BankInit(Vec<u8>),
    NSF2Flags(u8),
    Rate(Vec<u16>),
    VRC7 { use_ym2413: bool, patches: Option<[u8; 120]>, rhythm_patches: Option<[u8; 24]> },
}

/// The four-character code made of these bytes.
pub open spec fn fcc(a: u8, b: u8, c: u8, d: u8) -> Seq<u8> {
    seq![a, b, c, d]
}

pub open spec fn fcc_plst() -> Seq<u8> { fcc(0x70, 0x6C, 0x73, 0x74) }
pub open spec fn fcc_psfx() -> Seq<u8> { fcc(0x70, 0x73, 0x66, 0x78) }
pub open spec fn fcc_time() -> Seq<u8> { fcc(0x74, 0x69, 0x6D, 0x65) }
pub open spec fn fcc_fade() -> Seq<u8> { fcc(0x66, 0x61, 0x64, 0x65) }
pub open spec fn fcc_tlbl() -> Seq<u8> { fcc(0x74, 0x6C, 0x62, 0x6C) }
pub open spec fn fcc_taut() -> Seq<u8> { fcc(0x74, 0x61, 0x75, 0x74) }
pub open spec fn fcc_auth() -> Seq<u8> { fcc(0x61, 0x75, 0x74, 0x68) }
pub open spec fn fcc_text() -> Seq<u8> { fcc(0x74, 0x65, 0x78, 0x74) }
pub open spec fn fcc_info() -> Seq<u8> { fcc(0x49, 0x4E, 0x46, 0x4F) }
pub open spec fn fcc_data() -> Seq<u8> { fcc(0x44, 0x41, 0x54, 0x41) }
pub open spec fn fcc_bank() -> Seq<u8> { fcc(0x42, 0x41, 0x4E, 0x4B) }
pub open spec fn fcc_nsf2() -> Seq<u8> { fcc(0x4E, 0x53, 0x46, 0x32) }
pub open spec fn fcc_rate() -> Seq<u8> { fcc(0x52, 0x41, 0x54, 0x45) }
pub open spec fn fcc_vrc7() -> Seq<u8> { fcc(0x56, 0x52, 0x43, 0x37) }
pub open spec fn fcc_nend() -> Seq<u8> { fcc(0x4E, 0x45, 0x4E, 0x44) }

/// A chunk kind that the metadata reader decodes.
pub open spec fn known_fcc(f: Seq<u8>) -> bool {
    f == fcc_plst() || f == fcc_psfx() || f == fcc_time() || f == fcc_fade() || f == fcc_tlbl()
        || f == fcc_taut() || f == fcc_auth() || f == fcc_text() || f == fcc_info() || f == fcc_data()
        || f == fcc_bank() || f == fcc_nsf2() || f == fcc_rate() || f == fcc_vrc7()
}

/// The chunks that the metadata reader decodes: those of a known kind,
/// up to the first `NEND` chunk.
pub open spec fn kept(cs: Seq<(Seq<u8>, Seq<u8>)>) -> Seq<(Seq<u8>, Seq<u8>)>
    decreases cs.len(),
{
    if cs.len() == 0 {
        Seq::empty()
    } else if cs[0].0 == fcc_nend() {
        Seq::empty()
    } else if known_fcc(cs[0].0) {
        seq![cs[0]] + kept(cs.subrange(1, cs.len() as int))
    } else {
        kept(cs.subrange(1, cs.len() as int))
    }
}

/// Placeholder text for a missing author field.
pub open spec fn default_field() -> Seq<char> {
    seq!['<', '?', '>']
}

/// The `i`-th zero-separated string of `d`, or the placeholder.
pub open spec fn string_or_default(d: Seq<u8>, i: int) -> Seq<char> {
    if i < zero_split(d).len() {
        decode_utf8(zero_split(d)[i])
    } else {
        default_field()
    }
}

/// Decoding a chunk of kind `f` with data `d` succeeds.
pub open spec fn chunk_ok(f: Seq<u8>, d: Seq<u8>) -> bool {
    if f == fcc_time() || f == fcc_fade() {
        d.len() % 4 == 0
    } else if f == fcc_rate() {
        d.len() % 2 == 0
    } else if f == fcc_tlbl() || f == fcc_taut() || f == fcc_auth() || f == fcc_text() {
        strings_valid(d)
    } else if f == fcc_vrc7() {
        d.len() == 1 || d.len() == 129 || (d.len() == 153 && d[0] != 0)
    } else {
        true
    }
}

/// Track numbers (from 1) for a list of 0-based track indices.
pub open spec fn track_numbers(d: Seq<u8>) -> Seq<usize> {
    d.map_values(|t: u8| (t + 1) as usize)
}

/// `c` is the decoding of a chunk of kind `f` with data `d`.
pub open spec fn chunk_matches(c: NsfeChunk, f: Seq<u8>, d: Seq<u8>) -> bool {
    match c {
        NsfeChunk::Playlist(v) => f == fcc_plst() && v@ == track_numbers(d),
        NsfeChunk::SoundEffects(v) => f == fcc_psfx() && v@ == track_numbers(d),
        NsfeChunk::Time(v) => f == fcc_time() && v@ == i32s_of(d),
        NsfeChunk::Fadeout(v) => f == fcc_fade() && v@ == i32s_of(d),
        NsfeChunk::TrackLabels(v) => f == fcc_tlbl() && strings_match(v@, d),
        NsfeChunk::TrackAuthors(v) => f == fcc_taut() && strings_match(v@, d),
        NsfeChunk::Author { title, artist, copyright, ripper } => {
            &&& f == fcc_auth()
            &&& title@ == string_or_default(d, 0)
            &&& artist@ == string_or_default(d, 1)
            &&& copyright@ == string_or_default(d, 2)
            &&& ripper@ == string_or_default(d, 3)
        },
        NsfeChunk::Text(t) => f == fcc_text() && t@ == string_or_default(d, 0),
        NsfeChunk::Info(v) => f == fcc_info() && v@ == d,
        NsfeChunk::Data(v) => f == fcc_data() && v@ == d,
        NsfeChunk::BankInit(v) => f == fcc_bank() && v@ == d,
        NsfeChunk::NSF2Flags(x) => f == fcc_nsf2() && x == (if d.len() > 0 { d[0] } else { 0u8 }),
        NsfeChunk::Rate(v) => f == fcc_rate() && v@ == u16s_of(d),
        NsfeChunk::VRC7 { use_ym2413, patches, rhythm_patches } => {
            &&& f == fcc_vrc7()
            &&& use_ym2413 == (d[0] != 0)
            &&& (d.len() == 1 ==> patches is None && rhythm_patches is None)
            &&& (d.len() > 1 ==> (patches matches Some(p) && p@ == d.subrange(9, 129)))
            &&& (d.len() == 129 ==> rhythm_patches is None)
            &&& (d.len() == 153 ==> (rhythm_patches matches Some(p) && p@ == d.subrange(129, 153)))
        },
    }
}

fn fcc_is(f: &[u8; 4], a: u8, b: u8, c: u8, d: u8) -> (r: bool)
    ensures
        r == (f@ == fcc(a, b, c, d)),
{
    let r = f[0] == a && f[1] == b && f[2] == c && f[3] == d;
    proof {
        if r {
            assert(f@ =~= fcc(a, b, c, d));
        }
    }
    r
}

fn array_120(d: &[u8], start: usize) -> (r: [u8; 120])
    requires
        start + 120 <= d@.len(),
    ensures
        r@ == d@.subrange(start as int, start + 120),
{
    let len = d.len();
    let mut a: [u8; 120] = [0u8; 120];
    let mut i: usize = 0;
    while i < 120
        invariant
            len == d@.len(),
            i <= 120,
            start + 120 <= d@.len(),
            forall|j: int| 0 <= j < i ==> a@[j] == d@[start + j],
        decreases 120 - i,
    {
        a[i] = d[start + i];
        i = i + 1;
    }
    assert(a@ =~= d@.subrange(start as int, start + 120));
    a
}

fn array_24(d: &[u8], start: usize) -> (r: [u8; 24])
    requires
        start + 24 <= d@.len(),
    ensures
        r@ == d@.subrange(start as int, start + 24),
{
    let len = d.len();
    let mut a: [u8; 24] = [0u8; 24];
    let mut i: usize = 0;
    while i < 24
        invariant
            len == d@.len(),
            i <= 24,
            start + 24 <= d@.len(),
            forall|j: int| 0 <= j < i ==> a@[j] == d@[start + j],
        decreases 24 - i,
    {
        a[i] = d[start + i];
        i = i + 1;
    }
    assert(a@ =~= d@.subrange(start as int, start + 24));
    a
}

fn track_number_vec(d: &[u8]) -> (r: Vec<usize>)
    ensures
        r@ == track_numbers(d@),
{
    let mut v: Vec<usize> = Vec::new();
    let mut i: usize = 0;
    while i < d.len()
        invariant
            i <= d@.len(),
            v@ == track_numbers(d@).subrange(0, i as int),
        decreases d@.len() - i,
    {
        v.push(1 + d[i] as usize);
        i = i + 1;
        assert(v@ =~= track_numbers(d@).subrange(0, i as int));
    }
    assert(v@ =~= track_numbers(d@));
    v
}

fn string_at(v: &Vec<String>, i: usize) -> (r: String)
    ensures
        r@ == (if i < v@.len() { v@[i as int]@ } else { default_field() }),
{
    if i < v.len() {
        v[i].clone()
    } else {
        proof { reveal_strlit("<?>"); }
        "<?>".to_owned()
    }
}

/// Decodes one chunk of a known kind.
pub fn parse_chunk(four_cc: &[u8; 4], d: &Vec<u8>) -> (r: Result<NsfeChunk, NsfeError>)
    requires
        known_fcc(four_cc@),
    ensures
        r is Ok <==> chunk_ok(four_cc@, d@),
        r matches Ok(c) ==> chunk_matches(c, four_cc@, d@),
{
    let ds = d.as_slice();
    assert(ds@.subrange(0, ds@.len() as int) =~= ds@);
    if fcc_is(four_cc, 0x70, 0x6C, 0x73, 0x74) {
        Ok(NsfeChunk::Playlist(track_number_vec(ds)))
    } else if fcc_is(four_cc, 0x70, 0x73, 0x66, 0x78) {
        Ok(NsfeChunk::SoundEffects(track_number_vec(ds)))
    } else if fcc_is(four_cc, 0x74, 0x69, 0x6D, 0x65) {
        let v = chunk_data_as_i32_vec(ds)?;
        Ok(NsfeChunk::Time(v))
    } else if fcc_is(four_cc, 0x66, 0x61, 0x64, 0x65) {
        let v = chunk_data_as_i32_vec(ds)?;
        Ok(NsfeChunk::Fadeout(v))
    } else if fcc_is(four_cc, 0x74, 0x6C, 0x62, 0x6C) {
        let v = chunk_data_as_string_vec(ds)?;
        Ok(NsfeChunk::TrackLabels(v))
    } else if fcc_is(four_cc, 0x74, 0x61, 0x75, 0x74) {
        let v = chunk_data_as_string_vec(ds)?;
        Ok(NsfeChunk::TrackAuthors(v))
    } else if fcc_is(four_cc, 0x61, 0x75, 0x74, 0x68) {
        let strings = chunk_data_as_string_vec(ds)?;
        let title = string_at(&strings, 0);
        let artist = string_at(&strings, 1);
        let copyright = string_at(&strings, 2);
        let ripper = string_at(&strings, 3);
        Ok(NsfeChunk::Author { title, artist, copyright, ripper })
    } else if fcc_is(four_cc, 0x74, 0x65, 0x78, 0x74) {
        let strings = chunk_data_as_string_vec(ds)?;
        Ok(NsfeChunk::Text(string_at(&strings, 0)))
    } else if fcc_is(four_cc, 0x49, 0x4E, 0x46, 0x4F) {
        Ok(NsfeChunk::Info(copy_range(ds, 0, ds.len())))
    } else if fcc_is(four_cc, 0x44, 0x41, 0x54, 0x41) {
        Ok(NsfeChunk::Data(copy_range(ds, 0, ds.len())))
    } else if fcc_is(four_cc, 0x42, 0x41, 0x4E, 0x4B) {
        Ok(NsfeChunk::BankInit(copy_range(ds, 0, ds.len())))
    } else if fcc_is(four_cc, 0x4E, 0x53, 0x46, 0x32) {
        Ok(NsfeChunk::NSF2Flags(if ds.len() > 0 { ds[0] } else { 0 }))
    } else if fcc_is(four_cc, 0x52, 0x41, 0x54, 0x45) {
        let v = chunk_data_as_u16_vec(ds)?;
        Ok(NsfeChunk::Rate(v))
    } else {
        if ds.len() == 0 {
            return Err(NsfeError::MissingVrc7Flag);
        }
        let use_ym2413 = ds[0] != 0;
        let len = ds.len();
        if len == 1 {
            Ok(NsfeChunk::VRC7 { use_ym2413, patches: None, rhythm_patches: None })
        } else if len == 129 {
            Ok(NsfeChunk::VRC7 { use_ym2413, patches: Some(array_120(ds, 9)), rhythm_patches: None })
        } else if len == 153 {
            if use_ym2413 {
                Ok(NsfeChunk::VRC7 {
                    use_ym2413,
                    patches: Some(array_120(ds, 9)),
                    rhythm_patches: Some(array_24(ds, 129)),
                })
            } else {
                Err(NsfeError::Vrc7RhythmWithoutYm2413)
            }
        } else {
            Err(NsfeError::Vrc7InvalidLength)
        }
    }
}

/// Every chunk in `ks` decodes.
pub open spec fn all_ok(ks: Seq<(Seq<u8>, Seq<u8>)>) -> bool {
    forall|i: int| 0 <= i < ks.len() ==> chunk_ok(#[trigger] ks[i].0, ks[i].1)
}

/// `v` holds, in order, the decodings of the chunks `ks`.
pub open spec fn parsed_as(v: Seq<NsfeChunk>, ks: Seq<(Seq<u8>, Seq<u8>)>) -> bool {
    &&& v.len() == ks.len()
    &&& forall|i: int| 0 <= i < v.len() ==> chunk_matches(#[trigger] v[i], ks[i].0, ks[i].1)
}

/// The decoded chunks of an NSFe body, when the body splits into chunks and
/// every chunk that is read decodes.
pub open spec fn metadata_chunks(data: Seq<u8>) -> Option<Seq<(Seq<u8>, Seq<u8>)>> {
    match chunks_of(data) {
        Some(cs) => if all_ok(kept(cs)) { Some(kept(cs)) } else { None },
        None => None,
    }
}

/// Decodes the chunks of an NSFe body, up to `NEND`; chunks of unknown kind
/// are skipped.
pub fn parse_nsfe_metadata(data: &[u8]) -> (r: Result<Vec<NsfeChunk>, NsfeError>)
    ensures
        r is Ok <==> metadata_chunks(data@) is Some,
        r matches Ok(v) ==> parsed_as(v@, metadata_chunks(data@)->Some_0),
{
    let cs = extract_fourcc_chunks(data)?;
    let ghost model = raw_views(cs@);
    let n = cs.len();
    let mut out: Vec<NsfeChunk> = Vec::new();
    let ghost mut prefix: Seq<(Seq<u8>, Seq<u8>)> = Seq::empty();
    let mut i: usize = 0;
    assert(model.subrange(0, n as int) =~= model);
    while i < n
        invariant
            n == cs@.len(),
            model == raw_views(cs@),
            chunks_of(data@) == Some(model),
            i <= n,
            kept(model) == prefix + kept(model.subrange(i as int, n as int)),
            parsed_as(out@, prefix),
            all_ok(prefix),
        decreases n - i,
    {
        let ghost rest = model.subrange(i as int, n as int);
        assert(rest[0] == model[i as int]);
        assert(rest.subrange(1, rest.len() as int) =~= model.subrange(i + 1, n as int));
        let entry = &cs[i];
        let four_cc = &entry.0;
        assert(model[i as int] == (four_cc@, entry.1@));
        if fcc_is(four_cc, 0x4E, 0x45, 0x4E, 0x44) {
            assert(prefix + Seq::<(Seq<u8>, Seq<u8>)>::empty() =~= prefix);
            return Ok(out);
        }
        if fcc_is(four_cc, 0x70, 0x6C, 0x73, 0x74) || fcc_is(four_cc, 0x70, 0x73, 0x66, 0x78)
            || fcc_is(four_cc, 0x74, 0x69, 0x6D, 0x65) || fcc_is(four_cc, 0x66, 0x61, 0x64, 0x65)
            || fcc_is(four_cc, 0x74, 0x6C, 0x62, 0x6C) || fcc_is(four_cc, 0x74, 0x61, 0x75, 0x74)
            || fcc_is(four_cc, 0x61, 0x75, 0x74, 0x68) || fcc_is(four_cc, 0x74, 0x65, 0x78, 0x74)
            || fcc_is(four_cc, 0x49, 0x4E, 0x46, 0x4F) || fcc_is(four_cc, 0x44, 0x41, 0x54, 0x41)
            || fcc_is(four_cc, 0x42, 0x41, 0x4E, 0x4B) || fcc_is(four_cc, 0x4E, 0x53, 0x46, 0x32)
            || fcc_is(four_cc, 0x52, 0x41, 0x54, 0x45) || fcc_is(four_cc, 0x56, 0x52, 0x43, 0x37) {
            match parse_chunk(four_cc, &entry.1) {
                Ok(c) => {
                    proof {
                        assert(kept(rest) == seq![model[i as int]] + kept(model.subrange(i + 1, n as int)));
                        assert(prefix + (seq![model[i as int]] + kept(model.subrange(i + 1, n as int)))
                            =~= (prefix + seq![model[i as int]]) + kept(model.subrange(i + 1, n as int)));
                    }
                    let ghost old_out = out@;
                    out.push(c);
                    proof {
                        let np = prefix + seq![model[i as int]];
                        assert forall|j: int| 0 <= j < out@.len() implies chunk_matches(#[trigger] out@[j], np[j].0, np[j].1) by {
                            if j < old_out.len() {
                                assert(out@[j] == old_out[j]);
                            }
                        }
                        assert forall|j: int| 0 <= j < np.len() implies chunk_ok(#[trigger] np[j].0, np[j].1) by {
                            if j < prefix.len() {
                                assert(np[j] == prefix[j]);
                            }
                        }
                        prefix = np;
                    }
                },
                Err(e) => {
                    proof {
                        assert(kept(rest) == seq![model[i as int]] + kept(model.subrange(i + 1, n as int)));
                        let k = kept(model);
                        assert(k[prefix.len() as int] == model[i as int]);
                        assert(!chunk_ok(k[prefix.len() as int].0, k[prefix.len() as int].1));
                    }
                    return Err(e);
                },
            }
        } else {
            assert(kept(rest) == kept(model.subrange(i + 1, n as int)));
        }
        i = i + 1;
    }
    assert(model.subrange(n as int, n as int) =~= Seq::<(Seq<u8>, Seq<u8>)>::empty());
    assert(prefix + Seq::<(Seq<u8>, Seq<u8>)>::empty() =~= prefix);
    Ok(out)
}

/// Frames of the NTSC machine in `ms` milliseconds, rounded down; a negative
/// time counts as 0. The frame rate is 1789772.7272727 / 29780.5 Hz.
pub open spec fn ms_to_frames(ms: i32) -> int {
    if ms <= 0 {
        0
    } else {
        (ms as int * 17897727272727) / 297805000000000
    }
}

fn frames_of_ms(ms: i32) -> (r: usize)
    ensures
        r == ms_to_frames(ms),
{
    if ms <= 0 {
        0
    } else {
        let num: u128 = ms as u128 * 17897727272727u128;
        let q: u128 = num / 297805000000000u128;
        proof {
            vstd::arithmetic::div_mod::lemma_fundamental_div_mod(num as int, 297805000000000);
            assert(q < 0x1_0000_0000) by (nonlinear_arith)
                requires
                    num as int == 297805000000000 * (q as int) + (num as int) % 297805000000000,
                    (num as int) % 297805000000000 >= 0,
                    num as int == ms as int * 17897727272727,
                    ms as int <= 0x7FFF_FFFF,
            ;
        }
        q as usize
    }
}

/// Per-track metadata.
#[derive(Clone, Debug)]
pub struct NsfeTrack {
    pub label: Option<String>,
    pub author: Option<String>,
    pub duration: Option<usize>,
    pub fadeout: Option<usize>,
}

impl NsfeTrack {
    pub fn new() -> (r: Self)
        ensures
            r.label is None,
            r.author is None,
            r.duration is None,
            r.fadeout is None,
    {
        NsfeTrack { label: None, author: None, duration: None, fadeout: None }
    }
}

/// The number of per-track entries that a chunk carries (0 for chunks that
/// carry none).
pub open spec fn track_entries(c: NsfeChunk) -> int {
    match c {
        NsfeChunk::Time(v) => v@.len() as int,
        NsfeChunk::Fadeout(v) => v@.len() as int,
        NsfeChunk::TrackLabels(v) => v@.len() as int,
        NsfeChunk::TrackAuthors(v) => v@.len() as int,
        _ => 0,
    }
}

/// The chunk kinds that the metadata getters look up.
pub open spec fn chunk_pred(kind: int, index: int, c: NsfeChunk) -> bool {
    if kind == 0 {
        c is Time && has_track(c, index)
    } else if kind == 1 {
        c is Fadeout && has_track(c, index)
    } else if kind == 2 {
        c is TrackLabels && has_track(c, index)
    } else if kind == 3 {
        c is TrackAuthors && has_track(c, index)
    } else if kind == 4 {
        c is Author
    } else {
        c is VRC7
    }
}

/// The position of the last of the first `n` chunks that satisfies
/// `chunk_pred(kind, index, _)`, or -1.
pub open spec fn last_where(cs: Seq<NsfeChunk>, kind: int, index: int, n: int) -> int
    decreases n,
{
    if n <= 0 {
        -1
    } else if chunk_pred(kind, index, cs[n - 1]) {
        n - 1
    } else {
        last_where(cs, kind, index, n - 1)
    }
}

/// Metadata read from an NSFe body (or an NSF2 metadata block). Where
/// several chunks give the same item, the last one wins.
pub struct NsfeMetadata {
    pub chunks: Vec<NsfeChunk>,
}

/// The chunk carries an entry for track `index` (counted from 1).
pub open spec fn has_track(c: NsfeChunk, index: int) -> bool {
    1 <= index <= track_entries(c)
}

impl NsfeMetadata {
    /// Reads the metadata chunks of `data`; see `parse_nsfe_metadata`.
    pub fn from(data: &[u8]) -> (r: Result<Self, NsfeError>)
        ensures
            r is Ok <==> metadata_chunks(data@) is Some,
            r matches Ok(m) ==> parsed_as(m.chunks@, metadata_chunks(data@)->Some_0),
    {
        let chunks = parse_nsfe_metadata(data)?;
        Ok(NsfeMetadata { chunks })
    }

    /// The index of the last chunk of the given lookup kind for track
    /// `index`; see `chunk_pred`.
    pub open spec fn last(&self, kind: int, index: int) -> int {
        last_where(self.chunks@, kind, index, self.chunks@.len() as int)
    }

    fn find_last(&self, kind: u8, index: usize) -> (r: Option<usize>)
        requires
            kind < 6,
        ensures
            r is Some <==> self.last(kind as int, index as int) >= 0,
            r matches Some(i) ==> i == self.last(kind as int, index as int) && i < self.chunks@.len()
                && chunk_pred(kind as int, index as int, self.chunks@[i as int]),
    {
        let mut n: usize = self.chunks.len();
        while n > 0
            invariant
                kind < 6,
                n <= self.chunks@.len(),
                self.last(kind as int, index as int) == last_where(self.chunks@, kind as int, index as int, n as int),
            decreases n,
        {
            let c = &self.chunks[n - 1];
            let hit = match c {
                NsfeChunk::Time(v) => kind == 0 && index >= 1 && index <= v.len(),
                NsfeChunk::Fadeout(v) => kind == 1 && index >= 1 && index <= v.len(),
                NsfeChunk::TrackLabels(v) => kind == 2 && index >= 1 && index <= v.len(),
                NsfeChunk::TrackAuthors(v) => kind == 3 && index >= 1 && index <= v.len(),
                NsfeChunk::Author { .. } => kind == 4,
                NsfeChunk::VRC7 { .. } => kind == 5,
                _ => false,
            };
            proof {
                let ghost c0 = self.chunks@[n - 1];
                if kind == 0 {
                    assert(hit == chunk_pred(0, index as int, c0));
                } else if kind == 1 {
                    assert(hit == chunk_pred(1, index as int, c0));
                } else if kind == 2 {
                    assert(hit == chunk_pred(2, index as int, c0));
                } else if kind == 3 {
                    assert(hit == chunk_pred(3, index as int, c0));
                } else if kind == 4 {
                    assert(hit == chunk_pred(4, index as int, c0));
                } else {
                    assert(hit == chunk_pred(5, index as int, c0));
                }
            }
            if hit {
                return Some(n - 1);
            }
            n = n - 1;
        }
        None
    }

    /// The album title of the last author chunk.
    pub fn title(&self) -> (r: Option<String>)
        ensures
            ({
                let i = self.last(4, 0);
                &&& r is Some <==> i >= 0
                &&& r matches Some(t) ==> t@ == self.chunks@[i]->Author_title@
            }),
    {
        match self.find_last(4, 0) {
            Some(i) => match &self.chunks[i] {
                NsfeChunk::Author { title, .. } => Some(title.clone()),
                _ => None,
            },
            None => None,
        }
    }

    /// The artist of the last author chunk.
    pub fn artist(&self) -> (r: Option<String>)
        ensures
            ({
                let i = self.last(4, 0);
                &&& r is Some <==> i >= 0
                &&& r matches Some(t) ==> t@ == self.chunks@[i]->Author_artist@
            }),
    {
        match self.find_last(4, 0) {
            Some(i) => match &self.chunks[i] {
                NsfeChunk::Author { artist, .. } => Some(artist.clone()),
                _ => None,
            },
            None => None,
        }
    }

    /// The copyright of the last author chunk.
    pub fn copyright(&self) -> (r: Option<String>)
        ensures
            ({
                let i = self.last(4, 0);
                &&& r is Some <==> i >= 0
                &&& r matches Some(t) ==> t@ == self.chunks@[i]->Author_copyright@
            }),
    {
        match self.find_last(4, 0) {
            Some(i) => match &self.chunks[i] {
                NsfeChunk::Author { copyright, .. } => Some(copyright.clone()),
                _ => None,
            },
            None => None,
        }
    }

    /// The ripper of the last author chunk.
    pub fn ripper(&self) -> (r: Option<String>)
        ensures
            ({
                let i = self.last(4, 0);
                &&& r is Some <==> i >= 0
                &&& r matches Some(t) ==> t@ == self.chunks@[i]->Author_ripper@
            }),
    {
        match self.find_last(4, 0) {
            Some(i) => match &self.chunks[i] {
                NsfeChunk::Author { ripper, .. } => Some(ripper.clone()),
                _ => None,
            },
            None => None,
        }
    }

    /// The VRC7 patch set of the last VRC7 chunk, if that chunk has one.
    pub fn vrc7_patches(&self) -> (r: Option<[u8; 120]>)
        ensures
            ({
                let i = self.last(5, 0);
                &&& i < 0 ==> r is None
                &&& i >= 0 ==> r == self.chunks@[i]->VRC7_patches
            }),
    {
        match self.find_last(5, 0) {
            Some(i) => match &self.chunks[i] {
                NsfeChunk::VRC7 { patches, .. } => *patches,
                _ => None,
            },
            None => None,
        }
    }

    /// The duration in frames that the last time chunk covering track
    /// `index` (from 1) gives, if any.
    pub open spec fn duration_of(&self, index: int) -> Option<int> {
        let i = self.last(0, index);
        if i >= 0 { Some(ms_to_frames(self.chunks@[i]->Time_0@[index - 1])) } else { None }
    }

    /// The fade-out in frames that the last fade chunk covering track
    /// `index` gives, if any.
    pub open spec fn fadeout_of(&self, index: int) -> Option<int> {
        let i = self.last(1, index);
        if i >= 0 { Some(ms_to_frames(self.chunks@[i]->Fadeout_0@[index - 1])) } else { None }
    }

    /// The label that the last label chunk covering track `index` gives.
    pub open spec fn label_of(&self, index: int) -> Option<Seq<char>> {
        let i = self.last(2, index);
        if i >= 0 { Some(self.chunks@[i]->TrackLabels_0@[index - 1]@) } else { None }
    }

    /// The author that the last track-author chunk covering track `index`
    /// gives.
    pub open spec fn author_of(&self, index: int) -> Option<Seq<char>> {
        let i = self.last(3, index);
        if i >= 0 { Some(self.chunks@[i]->TrackAuthors_0@[index - 1]@) } else { None }
    }

    pub fn track_duration(&self, index: usize) -> (r: Option<usize>)
        ensures
            r is Some <==> self.duration_of(index as int) is Some,
            r matches Some(d) ==> Some(d as int) == self.duration_of(index as int),
    {
        match self.find_last(0, index) {
            Some(i) => match &self.chunks[i] {
                NsfeChunk::Time(v) => Some(frames_of_ms(v[index - 1])),
                _ => None,
            },
            None => None,
        }
    }

    pub fn track_fadeout(&self, index: usize) -> (r: Option<usize>)
        ensures
            r is Some <==> self.fadeout_of(index as int) is Some,
            r matches Some(d) ==> Some(d as int) == self.fadeout_of(index as int),
    {
        match self.find_last(1, index) {
            Some(i) => match &self.chunks[i] {
                NsfeChunk::Fadeout(v) => Some(frames_of_ms(v[index - 1])),
                _ => None,
            },
            None => None,
        }
    }

    pub fn track_title(&self, index: usize) -> (r: Option<String>)
        ensures
            r is Some <==> self.label_of(index as int) is Some,
            r matches Some(t) ==> Some(t@) == self.label_of(index as int),
    {
        match self.find_last(2, index) {
            Some(i) => match &self.chunks[i] {
                NsfeChunk::TrackLabels(v) => Some(v[index - 1].clone()),
                _ => None,
            },
            None => None,
        }
    }

    pub fn track_author(&self, index: usize) -> (r: Option<String>)
        ensures
            r is Some <==> self.author_of(index as int) is Some,
            r matches Some(t) ==> Some(t@) == self.author_of(index as int),
    {
        match self.find_last(3, index) {
            Some(i) => match &self.chunks[i] {
                NsfeChunk::TrackAuthors(v) => Some(v[index - 1].clone()),
                _ => None,
            },
            None => None,
        }
    }

    /// Whether some chunk carries an entry for track `index` (from 1).
    pub open spec fn has_track_entry(&self, index: int) -> bool {
        exists|i: int| 0 <= i < self.chunks@.len() && has_track(#[trigger] self.chunks@[i], index)
    }

    /// The metadata of track `index` (from 1), if any chunk mentions it.
    pub fn track(&self, index: usize) -> (r: Option<NsfeTrack>)
        ensures
            r is Some <==> self.has_track_entry(index as int),
            r matches Some(t) ==> {
                &&& t.duration is Some <==> self.duration_of(index as int) is Some
                &&& t.duration matches Some(d) ==> Some(d as int) == self.duration_of(index as int)
                &&& t.fadeout is Some <==> self.fadeout_of(index as int) is Some
                &&& t.fadeout matches Some(d) ==> Some(d as int) == self.fadeout_of(index as int)
                &&& t.label is Some <==> self.label_of(index as int) is Some
                &&& t.label matches Some(s) ==> Some(s@) == self.label_of(index as int)
                &&& t.author is Some <==> self.author_of(index as int) is Some
                &&& t.author matches Some(s) ==> Some(s@) == self.author_of(index as int)
            },
    {
        let mut found = false;
        let mut i: usize = 0;
        while i < self.chunks.len()
            invariant
                i <= self.chunks@.len(),
                !found ==> forall|j: int| 0 <= j < i ==> !has_track(#[trigger] self.chunks@[j], index as int),
                found ==> self.has_track_entry(index as int),
            decreases self.chunks@.len() - i,
        {
            let entries: usize = match &self.chunks[i] {
                NsfeChunk::Time(v) => v.len(),
                NsfeChunk::Fadeout(v) => v.len(),
                NsfeChunk::TrackLabels(v) => v.len(),
                NsfeChunk::TrackAuthors(v) => v.len(),
                _ => 0,
            };
            if index >= 1 && index <= entries {
                assert(has_track(self.chunks@[i as int], index as int));
                found = true;
            }
            i = i + 1;
        }
        if !found {
            return None;
        }
        Some(NsfeTrack {
            label: self.track_title(index),
            author: self.track_author(index),
            duration: self.track_duration(index),
            fadeout: self.track_fadeout(index),
        })
    }
}

/// The data of the first chunk of kind `f` before any `NEND` chunk.
pub open spec fn first_before_end(cs: Seq<(Seq<u8>, Seq<u8>)>, f: Seq<u8>) -> Option<Seq<u8>>
    decreases cs.len(),
{
    if cs.len() == 0 {
        None
    } else if cs[0].0 == fcc_nend() {
        None
    } else if cs[0].0 == f {
        Some(cs[0].1)
    } else {
        first_before_end(cs.subrange(1, cs.len() as int), f)
    }
}

/// The bytes of the placeholder text `<?>`.
pub open spec fn default_field_bytes() -> Seq<u8> {
    seq![0x3Cu8, 0x3F, 0x3E]
}

/// The bytes of author field `k` from the first author chunk, or the
/// placeholder.
pub open spec fn author_field_bytes(auth: Option<Seq<u8>>, k: int) -> Seq<u8> {
    match auth {
        Some(d) => if k < zero_split(d).len() { zero_split(d)[k] } else { default_field_bytes() },
        None => default_field_bytes(),
    }
}

/// A text field of the NSF header: at most 31 bytes, zero-padded to 32.
pub open spec fn pad32(b: Seq<u8>) -> Seq<u8> {
    Seq::new(32, |i: int| if i < b.len() && i < 31 { b[i] } else { 0u8 })
}

/// `b` cut or zero-padded to 8 bytes.
pub open spec fn resize8(b: Seq<u8>) -> Seq<u8> {
    Seq::new(8, |i: int| if i < b.len() { b[i] } else { 0u8 })
}

/// The two little-endian bytes of `v`.
pub open spec fn le16_bytes(v: int) -> Seq<u8> {
    seq![(v % 256) as u8, ((v / 256) % 256) as u8]
}

/// The four little-endian bytes of `v`.
pub open spec fn le32_bytes(v: int) -> Seq<u8> {
    seq![(v % 256) as u8, ((v / 256) % 256) as u8, ((v / 65536) % 256) as u8, ((v / 16777216) % 256) as u8]
}

/// Rate `k` of a rate chunk, or the default.
pub open spec fn rate_or(rates: Option<Seq<u8>>, k: int, default: int) -> int {
    match rates {
        Some(d) => if k < u16s_of(d).len() { u16s_of(d)[k] as int } else { default },
        None => default,
    }
}

/// A chunk that the NSF2 image carries over as extended metadata.
pub open spec fn carried_over(f: Seq<u8>) -> bool {
    f != fcc_info() && f != fcc_data() && f != fcc_bank() && f != fcc_nsf2()
}

/// The extended-metadata block: every chunk but `INFO`, `DATA`, `BANK` and
/// `NSF2`, re-encoded as length, code and data.
pub open spec fn carried_chunks(cs: Seq<(Seq<u8>, Seq<u8>)>) -> Seq<u8>
    decreases cs.len(),
{
    if cs.len() == 0 {
        Seq::empty()
    } else {
        let head = if carried_over(cs[0].0) { le32_bytes(cs[0].1.len() as int) + cs[0].0 + cs[0].1 } else { Seq::empty() };
        head + carried_chunks(cs.subrange(1, cs.len() as int))
    }
}

/// The 128-byte NSF2 header built from the NSFe chunks `cs`, whose `INFO`
/// chunk is `info` and `DATA` chunk is `rom`.
pub open spec fn nsf2_header(cs: Seq<(Seq<u8>, Seq<u8>)>, info: Seq<u8>, rom: Seq<u8>) -> Seq<u8> {
    let auth = first_before_end(cs, fcc_auth());
    let rates = first_before_end(cs, fcc_rate());
    let bank = match first_before_end(cs, fcc_bank()) { Some(b) => b, None => Seq::empty() };
    let flags: u8 = match first_before_end(cs, fcc_nsf2()) {
        Some(d) => if d.len() > 0 { d[0] } else { 0u8 },
        None => 0u8,
    };
    let start: u8 = (((if info.len() > 9 { info[9] as int } else { 0 }) + 1) % 256) as u8;
    seq![0x4Eu8, 0x45, 0x53, 0x4D, 0x1A, 2u8, info[8], start]
        + info.subrange(0, 6)
        + pad32(author_field_bytes(auth, 0))
        + pad32(author_field_bytes(auth, 1))
        + pad32(author_field_bytes(auth, 2))
        + le16_bytes(rate_or(rates, 0, 16639))
        + resize8(bank)
        + le16_bytes(rate_or(rates, 1, 19997))
        + seq![info[6], info[7], flags | 0x80]
        + le32_bytes(rom.len() as int).subrange(0, 3)
}

/// The NSF2 image of an NSFe file's body: header, program, extended
/// metadata. `None` when the body does not decode, lacks an `INFO` or
/// `DATA` chunk, or its `INFO` chunk is shorter than 9 bytes.
pub open spec fn nsf2_of(body: Seq<u8>) -> Option<Seq<u8>> {
    match chunks_of(body) {
        None => None,
        Some(cs) => if !all_ok(kept(cs)) {
            None
        } else {
            match (first_before_end(cs, fcc_info()), first_before_end(cs, fcc_data())) {
                (Some(info), Some(rom)) => if info.len() < 9 {
                    None
                } else {
                    Some(nsf2_header(cs, info, rom) + rom + carried_chunks(cs))
                },
                _ => None,
            }
        },
    }
}

/// The magic `NSFE`.
pub open spec fn nsfe_magic() -> Seq<u8> {
    seq![0x4Eu8, 0x53, 0x46, 0x45]
}

/// `data` starts with the NSFe magic.
pub open spec fn has_nsfe_magic(data: Seq<u8>) -> bool {
    data.len() >= 4 && data.subrange(0, 4) == nsfe_magic()
}

fn find_first(cs: &Vec<([u8; 4], Vec<u8>)>, a: u8, b: u8, c: u8, d: u8) -> (r: Option<usize>)
    ensures
        r is Some <==> first_before_end(raw_views(cs@), fcc(a, b, c, d)) is Some,
        r matches Some(i) ==> i < cs@.len() && first_before_end(raw_views(cs@), fcc(a, b, c, d)) == Some(cs@[i as int].1@),
{
    let ghost model = raw_views(cs@);
    let n = cs.len();
    let mut i: usize = 0;
    assert(model.subrange(0, n as int) =~= model);
    while i < n
        invariant
            n == cs@.len(),
            model == raw_views(cs@),
            i <= n,
            first_before_end(model, fcc(a, b, c, d)) == first_before_end(model.subrange(i as int, n as int), fcc(a, b, c, d)),
        decreases n - i,
    {
        let ghost rest = model.subrange(i as int, n as int);
        assert(rest[0] == model[i as int]);
        assert(rest.subrange(1, rest.len() as int) =~= model.subrange(i + 1, n as int));
        let f = &cs[i].0;
        if fcc_is(f, 0x4E, 0x45, 0x4E, 0x44) {
            return None;
        }
        if fcc_is(f, a, b, c, d) {
            return Some(i);
        }
        i = i + 1;
    }
    None
}

fn push_all(out: &mut Vec<u8>, src: &[u8])
    ensures
        final(out)@ == old(out)@ + src@,
{
    let mut i: usize = 0;
    while i < src.len()
        invariant
            i <= src@.len(),
            out@ == old(out)@ + src@.subrange(0, i as int),
        decreases src@.len() - i,
    {
        out.push(src[i]);
        i = i + 1;
        assert(out@ =~= old(out)@ + src@.subrange(0, i as int));
    }
    assert(src@.subrange(0, src@.len() as int) =~= src@);
}

fn push_padded(out: &mut Vec<u8>, src: &[u8])
    ensures
        final(out)@ == old(out)@ + pad32(src@),
{
    let mut i: usize = 0;
    while i < 32
        invariant
            i <= 32,
            out@ == old(out)@ + pad32(src@).subrange(0, i as int),
        decreases 32 - i,
    {
        out.push(if i < src.len() && i < 31 { src[i] } else { 0 });
        i = i + 1;
        assert(out@ =~= old(out)@ + pad32(src@).subrange(0, i as int));
    }
    assert(pad32(src@).subrange(0, 32) =~= pad32(src@));
}

fn push_le16(out: &mut Vec<u8>, v: u16)
    ensures
        final(out)@ == old(out)@ + le16_bytes(v as int),
{
    out.push((v % 256) as u8);
    out.push((v / 256) as u8);
    assert(out@ =~= old(out)@ + le16_bytes(v as int));
}

fn push_le32(out: &mut Vec<u8>, v: u32, count: usize)
    requires
        count <= 4,
    ensures
        final(out)@ == old(out)@ + le32_bytes(v as int).subrange(0, count as int),
{
    let bytes: [u8; 4] = [(v % 256) as u8, ((v / 256) % 256) as u8, ((v / 65536) % 256) as u8, ((v / 16777216) % 256) as u8];
    assert(bytes@ =~= le32_bytes(v as int));
    push_all(out, bytes.as_slice().split_at(count).0);
}

fn author_field(auth: Option<&Vec<u8>>, k: usize) -> (r: Vec<u8>)
    ensures
        r@ == author_field_bytes(
            match auth {
                Some(d) => Some(d@),
                None => None,
            },
            k as int,
        ),
{
    match auth {
        Some(d) => {
            let pieces = split_at_zeros(d.as_slice());
            assert(pieces@.map_values(|p: Vec<u8>| p@).len() == pieces@.len());
            if k < pieces.len() {
                assert(pieces@.map_values(|p: Vec<u8>| p@)[k as int] == pieces@[k as int]@);
                copy_range(pieces[k].as_slice(), 0, pieces[k].len())
            } else {
                let r = vec![0x3Cu8, 0x3F, 0x3E];
                assert(r@ =~= default_field_bytes());
                r
            }
        },
        None => {
            let r = vec![0x3Cu8, 0x3F, 0x3E];
            assert(r@ =~= default_field_bytes());
            r
        },
    }
}

fn push_carried(out: &mut Vec<u8>, cs: &Vec<([u8; 4], Vec<u8>)>)
    requires
        forall|i: int| 0 <= i < cs@.len() ==> (#[trigger] cs@[i]).1@.len() < 0x1_0000_0000,
    ensures
        final(out)@ == old(out)@ + carried_chunks(raw_views(cs@)),
{
    let ghost model = raw_views(cs@);
    let n = cs.len();
    let mut i: usize = 0;
    assert(model.subrange(0, n as int) =~= model);
    assert(old(out)@ + Seq::<u8>::empty() =~= old(out)@);
    while i < n
        invariant
            n == cs@.len(),
            model == raw_views(cs@),
            i <= n,
            forall|j: int| 0 <= j < cs@.len() ==> (#[trigger] cs@[j]).1@.len() < 0x1_0000_0000,
            old(out)@ + carried_chunks(model) == out@ + carried_chunks(model.subrange(i as int, n as int)),
        decreases n - i,
    {
        let ghost rest = model.subrange(i as int, n as int);
        assert(rest[0] == model[i as int]);
        assert(rest.subrange(1, rest.len() as int) =~= model.subrange(i + 1, n as int));
        let ghost before = out@;
        let entry = &cs[i];
        let f = &entry.0;
        let skip = fcc_is(f, 0x49, 0x4E, 0x46, 0x4F) || fcc_is(f, 0x44, 0x41, 0x54, 0x41)
            || fcc_is(f, 0x42, 0x41, 0x4E, 0x4B) || fcc_is(f, 0x4E, 0x53, 0x46, 0x32);
        if !skip {
            assert(entry.1@.len() < 0x1_0000_0000);
            push_le32(out, entry.1.len() as u32, 4);
            push_all(out, f.as_slice());
            push_all(out, entry.1.as_slice());
            assert(le32_bytes(entry.1.len() as int).subrange(0, 4) =~= le32_bytes(entry.1.len() as int));
            assert(out@ =~= before + (le32_bytes(entry.1@.len() as int) + f@ + entry.1@));
        } else {
            assert(out@ =~= before + Seq::<u8>::empty());
        }
        proof {
            let head = if carried_over(model[i as int].0) {
                le32_bytes(model[i as int].1.len() as int) + model[i as int].0 + model[i as int].1
            } else {
                Seq::empty()
            };
            assert(carried_chunks(rest) == head + carried_chunks(model.subrange(i + 1, n as int)));
            assert(before + (head + carried_chunks(model.subrange(i + 1, n as int)))
                =~= (before + head) + carried_chunks(model.subrange(i + 1, n as int)));
        }
        i = i + 1;
    }
    assert(model.subrange(n as int, n as int) =~= Seq::<(Seq<u8>, Seq<u8>)>::empty());
    assert(out@ + Seq::<u8>::empty() =~= out@);
}

/// Chunk lengths come from 32-bit fields.
proof fn lemma_chunk_lengths(data: Seq<u8>)
    requires
        chunks_of(data) is Some,
    ensures
        forall|i: int| 0 <= i < chunks_of(data)->Some_0.len() ==> (#[trigger] chunks_of(data)->Some_0[i]).1.len() < 0x1_0000_0000,
    decreases data.len(),
{
    if data.len() > 0 {
        let n = le_u32(data, 0);
        let tail = data.subrange(8 + n, data.len() as int);
        lemma_chunk_lengths(tail);
        let cs = chunks_of(data)->Some_0;
        assert forall|i: int| 0 <= i < cs.len() implies (#[trigger] cs[i]).1.len() < 0x1_0000_0000 by {
            if i > 0 {
                assert(cs[i] == chunks_of(tail)->Some_0[i - 1]);
            }
        }
    }
}

/// The two rates of the first rate chunk, with their defaults.
fn rate_values(cs: &Vec<([u8; 4], Vec<u8>)>) -> (r: (u16, u16))
    requires
        all_ok(kept(raw_views(cs@))),
    ensures
        r.0 == rate_or(first_before_end(raw_views(cs@), fcc_rate()), 0, 16639),
        r.1 == rate_or(first_before_end(raw_views(cs@), fcc_rate()), 1, 19997),
{
    let ghost model = raw_views(cs@);
    let ghost rate_chunk = first_before_end(model, fcc_rate());
    match find_first(cs, 0x52, 0x41, 0x54, 0x45) {
        Some(i) => {
            proof {
                // a rate chunk that is read decoded, so its length is even
                lemma_first_is_kept(model, fcc_rate());
                let ks = kept(model);
                let k = choose|k: int| 0 <= k < ks.len() && ks[k] == (fcc_rate(), rate_chunk->Some_0);
                assert(chunk_ok(ks[k].0, ks[k].1));
            }
            match chunk_data_as_u16_vec(cs[i].1.as_slice()) {
                Ok(v) => (if v.len() > 0 { v[0] } else { 16639 }, if v.len() > 1 { v[1] } else { 19997 }),
                Err(_) => (16639, 19997),
            }
        },
        None => (16639, 19997),
    }
}

/// The bank-switch bytes of the first bank chunk, cut or padded to 8.
fn bank_bytes(cs: &Vec<([u8; 4], Vec<u8>)>) -> (r: Vec<u8>)
    ensures
        r@ == resize8(
            match first_before_end(raw_views(cs@), fcc_bank()) {
                Some(b) => b,
                None => Seq::empty(),
            },
        ),
{
    let bank: Vec<u8> = match find_first(cs, 0x42, 0x41, 0x4E, 0x4B) {
        Some(i) => copy_range(cs[i].1.as_slice(), 0, cs[i].1.len()),
        None => Vec::new(),
    };
    assert(bank@.subrange(0, bank@.len() as int) =~= bank@);
    let mut out: Vec<u8> = Vec::new();
    let mut k: usize = 0;
    while k < 8
        invariant
            k <= 8,
            out@ == resize8(bank@).subrange(0, k as int),
        decreases 8 - k,
    {
        out.push(if k < bank.len() { bank[k] } else { 0 });
        k = k + 1;
        assert(out@ =~= resize8(bank@).subrange(0, k as int));
    }
    assert(resize8(bank@).subrange(0, 8) =~= resize8(bank@));
    out
}

/// The NSF2 flags of the first flags chunk, or 0.
fn nsf2_flags(cs: &Vec<([u8; 4], Vec<u8>)>) -> (r: u8)
    ensures
        r == (match first_before_end(raw_views(cs@), fcc_nsf2()) {
            Some(d) => if d.len() > 0 { d[0] } else { 0u8 },
            None => 0u8,
        }),
{
    match find_first(cs, 0x4E, 0x53, 0x46, 0x32) {
        Some(i) => if cs[i].1.len() > 0 { cs[i].1[0] } else { 0 },
        None => 0,
    }
}

/// Builds the NSF2 header for the chunks `cs`, with `INFO` chunk `info`
/// and `DATA` chunk `rom`; see `nsf2_header`.
fn build_nsf2_header(cs: &Vec<([u8; 4], Vec<u8>)>, info: &Vec<u8>, rom: &Vec<u8>) -> (out: Vec<u8>)
    requires
        info@.len() >= 9,
        rom@.len() < 0x1_0000_0000,
        all_ok(kept(raw_views(cs@))),
    ensures
        out@ == nsf2_header(raw_views(cs@), info@, rom@),
{
    let ghost model = raw_views(cs@);
    let auth: Option<&Vec<u8>> = match find_first(cs, 0x61, 0x75, 0x74, 0x68) {
        Some(i) => Some(&cs[i].1),
        None => None,
    };
    let ghost auth_model: Option<Seq<u8>> = match auth {
        Some(d) => Some(d@),
        None => None,
    };
    assert(auth_model == first_before_end(model, fcc_auth()));
    let title = author_field(auth, 0);
    let artist = author_field(auth, 1);
    let copyright = author_field(auth, 2);
    let (rate0, rate1) = rate_values(cs);
    let bank = bank_bytes(cs);
    let flags = nsf2_flags(cs);
    let mut out: Vec<u8> = Vec::new();
    let start: u8 = if info.len() > 9 { ((info[9] as u16 + 1) % 256) as u8 } else { 1 };
    let head: [u8; 8] = [0x4E, 0x45, 0x53, 0x4D, 0x1A, 2, info[8], start];
    assert(head@ =~= seq![0x4Eu8, 0x45, 0x53, 0x4D, 0x1A, 2u8, info@[8], start]);
    push_all(&mut out, head.as_slice());
    let info_head = info.as_slice().split_at(6).0;
    assert(info_head@ == info@.subrange(0, 6));
    push_all(&mut out, info_head);
    push_padded(&mut out, title.as_slice());
    push_padded(&mut out, artist.as_slice());
    push_padded(&mut out, copyright.as_slice());
    push_le16(&mut out, rate0);
    push_all(&mut out, bank.as_slice());
    push_le16(&mut out, rate1);
    let tail: [u8; 3] = [info[6], info[7], flags | 0x80];
    assert(tail@ =~= seq![info@[6], info@[7], flags | 0x80]);
    push_all(&mut out, tail.as_slice());
    push_le32(&mut out, rom.len() as u32, 3);
    assert(out@ =~= nsf2_header(model, info@, rom@));
    out
}

/// Converts an NSFe file into an NSF2 image (see `nsf2_of`), or says why it
/// cannot.
pub fn nsfe_to_nsf2(data: &[u8]) -> (r: Result<Vec<u8>, NsfeError>)
    ensures
        !has_nsfe_magic(data@) ==> r == Err::<Vec<u8>, NsfeError>(NsfeError::MalformedHeader),
        has_nsfe_magic(data@) ==> {
            let body = data@.subrange(4, data@.len() as int);
            &&& r is Ok <==> nsf2_of(body) is Some
            &&& r matches Ok(v) ==> v@ == nsf2_of(body)->Some_0
        },
{
    if data.len() < 4 || !(data[0] == 0x4E && data[1] == 0x53 && data[2] == 0x46 && data[3] == 0x45) {
        proof {
            if data@.len() >= 4 && data@.subrange(0, 4) == nsfe_magic() {
                assert(data@[0] == data@.subrange(0, 4)[0]);
                assert(data@[1] == data@.subrange(0, 4)[1]);
                assert(data@[2] == data@.subrange(0, 4)[2]);
                assert(data@[3] == data@.subrange(0, 4)[3]);
            }
        }
        return Err(NsfeError::MalformedHeader);
    }
    assert(data@.subrange(0, 4) =~= nsfe_magic());
    let body_vec = copy_range(data, 4, data.len());
    let body = body_vec.as_slice();
    let cs = extract_fourcc_chunks(body)?;
    let _parsed = parse_nsfe_metadata(body)?;
    let ghost model = raw_views(cs@);
    proof {
        lemma_chunk_lengths(body@);
        assert forall|i: int| 0 <= i < cs@.len() implies (#[trigger] cs@[i]).1@.len() < 0x1_0000_0000 by {
            assert(model[i] == (cs@[i].0@, cs@[i].1@));
        }
    }
    let info_idx = match find_first(&cs, 0x49, 0x4E, 0x46, 0x4F) {
        Some(i) => i,
        None => {
            return Err(NsfeError::MissingInfo);
        },
    };
    let rom_idx = match find_first(&cs, 0x44, 0x41, 0x54, 0x41) {
        Some(i) => i,
        None => {
            return Err(NsfeError::MissingData);
        },
    };
    let info = &cs[info_idx].1;
    let rom = &cs[rom_idx].1;
    if info.len() < 9 {
        return Err(NsfeError::InfoTooShort);
    }
    proof {
        assert(rom@.len() < 0x1_0000_0000);
    }
    let mut out = build_nsf2_header(&cs, info, rom);
    push_all(&mut out, rom.as_slice());
    push_carried(&mut out, &cs);
    Ok(out)
}

/// A chunk found before the end marker is among the chunks that are read.
proof fn lemma_first_is_kept(cs: Seq<(Seq<u8>, Seq<u8>)>, f: Seq<u8>)
    requires
        known_fcc(f),
        first_before_end(cs, f) is Some,
    ensures
        exists|i: int| 0 <= i < kept(cs).len() && kept(cs)[i] == (f, first_before_end(cs, f)->Some_0),
    decreases cs.len(),
{
    let rest = cs.subrange(1, cs.len() as int);
    if cs[0].0 == f {
        assert(kept(cs) == seq![cs[0]] + kept(rest));
        assert(kept(cs)[0] == (f, first_before_end(cs, f)->Some_0));
    } else {
        lemma_first_is_kept(rest, f);
        let i = choose|i: int| 0 <= i < kept(rest).len() && kept(rest)[i] == (f, first_before_end(rest, f)->Some_0);
        if known_fcc(cs[0].0) {
            assert(kept(cs) == seq![cs[0]] + kept(rest));
            assert(kept(cs)[i + 1] == kept(rest)[i]);
        } else {
            assert(kept(cs) == kept(rest));
            assert(kept(cs)[i] == kept(rest)[i]);
        }
    }
}

} // verus!
