//! NSF images: header fields, text fields, driver detection.
use crate::nsfe::{has_nsfe_magic, nsf2_of, nsfe_to_nsf2, metadata_chunks, parsed_as, NsfeError, NsfeMetadata};
use crate::text::{decode_shift_jis, shift_jis_of, utf8_to_string};
use vstd::prelude::*;
use vstd::utf8::{decode_utf8, valid_utf8};

verus! {

/// `needle` occurs in `haystack` starting at `i`.
pub open spec fn occurs_at(haystack: Seq<u8>, needle: Seq<u8>, i: int) -> bool {
    &&& 0 <= i
    &&& i + needle.len() <= haystack.len()
    &&& haystack.subrange(i, i + needle.len()) == needle
}

/// `needle` occurs somewhere in `haystack`.
pub open spec fn contains(haystack: Seq<u8>, needle: Seq<u8>) -> bool {
    exists|i: int| occurs_at(haystack, needle, i)
}

/// The position of the first occurrence of `needle` in `haystack`, if any.
pub fn find_subsequence(haystack: &[u8], needle: &[u8]) -> (r: Option<usize>)
    requires
        needle@.len() > 0,
    ensures
        r matches Some(i) ==> occurs_at(haystack@, needle@, i as int)
            && forall|j: int| 0 <= j < i ==> !occurs_at(haystack@, needle@, j),
        r is None <==> !contains(haystack@, needle@),
{
    let n = needle.len();
    if n > haystack.len() {
        assert(forall|j: int| !occurs_at(haystack@, needle@, j));
        return None;
    }
    let hl = haystack.len();
    let last = hl - n;
    let mut i: usize = 0;
    while i <= last
        invariant
            n == needle@.len(),
            last == haystack@.len() - n,
            hl == haystack@.len(),
            i <= last + 1,
            forall|j: int| 0 <= j < i ==> !occurs_at(haystack@, needle@, j),
        decreases last + 1 - i,
    {
        let mut k: usize = 0;
        while k < n && haystack[i + k] == needle[k]
            invariant
                n == needle@.len(),
                i <= last,
                last == haystack@.len() - n,
                i + n <= hl,
                hl == haystack@.len(),
                k <= n,
                forall|m: int| 0 <= m < k ==> haystack@[i + m] == needle@[m],
            decreases n - k,
        {
            k = k + 1;
        }
        if k == n {
            assert(haystack@.subrange(i as int, i + n) =~= needle@);
            assert(occurs_at(haystack@, needle@, i as int));
            return Some(i);
        }
        assert(haystack@.subrange(i as int, i + n)[k as int] != needle@[k as int]);
        i = i + 1;
    }
    assert forall|j: int| !occurs_at(haystack@, needle@, j) by {
        if 0 <= j && j + n <= haystack@.len() {
            assert(j < i);
        }
    }
    None
}

/// The family of music driver embedded in a module's program.
#[derive(Clone, Copy, PartialEq, Eq, Structural, Debug)]
pub enum NsfDriverType {
    Unknown,
    FTClassic,
    FT0CC,
    FTDn,
}

/// The ASCII signature "FTDRV".
pub open spec fn sig_classic() -> Seq<u8> {
    seq![0x46u8, 0x54, 0x44, 0x52, 0x56]
}

/// The ASCII signature "0CCFT".
pub open spec fn sig_0cc() -> Seq<u8> {
    seq![0x30u8, 0x43, 0x43, 0x46, 0x54]
}

/// The ASCII signature "DN-FT".
pub open spec fn sig_dn_upper() -> Seq<u8> {
    seq![0x44u8, 0x4E, 0x2D, 0x46, 0x54]
}

/// The ASCII signature "Dn-FT".
pub open spec fn sig_dn_mixed() -> Seq<u8> {
    seq![0x44u8, 0x6E, 0x2D, 0x46, 0x54]
}

/// The driver family whose signature the program image holds, tried in the
/// order classic, 0CC, Dn.
pub open spec fn driver_of(raw: Seq<u8>) -> NsfDriverType {
    if contains(raw, sig_classic()) {
        NsfDriverType::FTClassic
    } else if contains(raw, sig_0cc()) {
        NsfDriverType::FT0CC
    } else if contains(raw, sig_dn_upper()) || contains(raw, sig_dn_mixed()) {
        NsfDriverType::FTDn
    } else {
        NsfDriverType::Unknown
    }
}

/// Detects the driver family by its signature in the program image.
pub fn determine_driver_type(raw_bytes: &[u8]) -> (r: NsfDriverType)
    ensures
        r == driver_of(raw_bytes@),
{
    let classic: [u8; 5] = [0x46, 0x54, 0x44, 0x52, 0x56];
    let occ: [u8; 5] = [0x30, 0x43, 0x43, 0x46, 0x54];
    let dn_upper: [u8; 5] = [0x44, 0x4E, 0x2D, 0x46, 0x54];
    let dn_mixed: [u8; 5] = [0x44, 0x6E, 0x2D, 0x46, 0x54];
    assert(classic@ =~= sig_classic());
    assert(occ@ =~= sig_0cc());
    assert(dn_upper@ =~= sig_dn_upper());
    assert(dn_mixed@ =~= sig_dn_mixed());
    if find_subsequence(raw_bytes, classic.as_slice()).is_some() {
        NsfDriverType::FTClassic
    } else if find_subsequence(raw_bytes, occ.as_slice()).is_some() {
        NsfDriverType::FT0CC
    } else if find_subsequence(raw_bytes, dn_upper.as_slice()).is_some()
        || find_subsequence(raw_bytes, dn_mixed.as_slice()).is_some() {
        NsfDriverType::FTDn
    } else {
        NsfDriverType::Unknown
    }
}

/// Size of the NSF header.
pub const HEADER_LENGTH: usize = 0x80;

/// The NSF magic `NESM\x1A`.
pub open spec fn nsf_magic() -> Seq<u8> {
    seq![0x4Eu8, 0x45, 0x53, 0x4D, 0x1A]
}

/// The program image a file holds: the NSF2 conversion of an NSFe file,
/// else the bytes as they are.
pub open spec fn image_of(data: Seq<u8>) -> Option<Seq<u8>> {
    if has_nsfe_magic(data) {
        nsf2_of(data.subrange(4, data.len() as int))
    } else {
        Some(data)
    }
}

/// The end of a text field: the first zero byte within `max_len` bytes of
/// `offset`, as a length, or `max_len`.
pub open spec fn field_len(raw: Seq<u8>, offset: int, max_len: int, k: int) -> int
    decreases max_len - k,
{
    if k >= max_len {
        max_len
    } else if raw[offset + k] == 0 {
        k
    } else {
        field_len(raw, offset, max_len, k + 1)
    }
}

/// An NSF (or NSF2) image and the driver found in it.
pub struct Nsf {
    raw_bytes: Vec<u8>,
    memoized_driver_type: NsfDriverType,
}

impl Nsf {
    /// The driver was found in these very bytes.
    #[verifier::type_invariant]
    spec fn driver_found(&self) -> bool {
        self.memoized_driver_type == driver_of(self.raw_bytes@)
    }

    /// The image's bytes.
    pub closed spec fn raw(&self) -> Seq<u8> {
        self.raw_bytes@
    }

    /// The driver found when the image was read.
    pub closed spec fn memoized(&self) -> NsfDriverType {
        self.memoized_driver_type
    }

    /// Reads a file's bytes: an NSFe file is converted to NSF2 first.
    pub fn from(data: &[u8]) -> (r: Result<Nsf, NsfeError>)
        ensures
            r is Ok <==> image_of(data@) is Some,
            r matches Ok(n) ==> n.raw() == image_of(data@)->Some_0 && n.memoized() == driver_of(n.raw()),
            has_nsfe_magic(data@) && nsf2_of(data@.subrange(4, data@.len() as int)) is None ==> r is Err,
    {
        let is_nsfe = data.len() >= 4 && data[0] == 0x4E && data[1] == 0x53 && data[2] == 0x46 && data[3] == 0x45;
        proof {
            if is_nsfe {
                assert(data@.subrange(0, 4) =~= seq![0x4Eu8, 0x53, 0x46, 0x45]);
            } else if data@.len() >= 4 && data@.subrange(0, 4) == seq![0x4Eu8, 0x53, 0x46, 0x45] {
                assert(data@[0] == data@.subrange(0, 4)[0]);
                assert(data@[1] == data@.subrange(0, 4)[1]);
                assert(data@[2] == data@.subrange(0, 4)[2]);
                assert(data@[3] == data@.subrange(0, 4)[3]);
            }
        }
        let raw_bytes: Vec<u8> = if is_nsfe {
            nsfe_to_nsf2(data)?
        } else {
            crate::nsfe::copy_range(data, 0, data.len())
        };
        assert(data@.subrange(0, data@.len() as int) =~= data@);
        let memoized_driver_type = determine_driver_type(raw_bytes.as_slice());
        Ok(Nsf { raw_bytes, memoized_driver_type })
    }

    /// The image starts with the NSF magic.
    pub open spec fn valid(&self) -> bool {
        self.raw().len() >= 5 && self.raw().subrange(0, 5) == nsf_magic()
    }

    /// Whether the image starts with the NSF magic `NESM\x1A`.
    pub fn magic_valid(&self) -> (r: bool)
        ensures
            r == self.valid(),
    {
        let b = &self.raw_bytes;
        let r = b.len() >= 5 && b[0] == 0x4E && b[1] == 0x45 && b[2] == 0x53 && b[3] == 0x4D && b[4] == 0x1A;
        proof {
            if r {
                assert(self.raw().subrange(0, 5) =~= nsf_magic());
            } else if self.valid() {
                assert(self.raw()[0] == self.raw().subrange(0, 5)[0]);
                assert(self.raw()[1] == self.raw().subrange(0, 5)[1]);
                assert(self.raw()[2] == self.raw().subrange(0, 5)[2]);
                assert(self.raw()[3] == self.raw().subrange(0, 5)[3]);
                assert(self.raw()[4] == self.raw().subrange(0, 5)[4]);
            }
        }
        r
    }

    /// Whether the image holds the whole 128-byte header, which the header
    /// accessors (`version`, `songs`, `title`, ...) read.
    pub fn header_complete(&self) -> (r: bool)
        ensures
            r == (self.raw().len() >= HEADER_LENGTH),
    {
        self.raw_bytes.len() >= HEADER_LENGTH
    }

    /// The header byte at `offset`.
    fn header_byte(&self, offset: usize) -> (r: u8)
        requires
            offset < HEADER_LENGTH,
            self.raw().len() >= HEADER_LENGTH,
        ensures
            r == self.raw()[offset as int],
    {
        self.raw_bytes[offset]
    }

    pub fn version(&self) -> (r: u8)
        requires
            self.raw().len() >= HEADER_LENGTH,
        ensures
            r == self.raw()[5],
    {
        self.header_byte(5)
    }

    pub fn songs(&self) -> (r: u8)
        requires
            self.raw().len() >= HEADER_LENGTH,
        ensures
            r == self.raw()[6],
    {
        self.header_byte(6)
    }

    pub fn starting_song(&self) -> (r: u8)
        requires
            self.raw().len() >= HEADER_LENGTH,
        ensures
            r == self.raw()[7],
    {
        self.header_byte(7)
    }

    /// Whether bit `mask` of header byte `offset` is set.
    pub open spec fn flag(&self, offset: int, mask: u8) -> bool {
        self.raw()[offset] & mask != 0
    }

    pub fn vrc6(&self) -> (r: bool)
        requires
            self.raw().len() >= HEADER_LENGTH,
        ensures
            r == self.flag(0x7B, 0x01),
    {
        self.header_byte(0x7B) & 0x01 != 0
    }

    pub fn vrc7(&self) -> (r: bool)
        requires
            self.raw().len() >= HEADER_LENGTH,
        ensures
            r == self.flag(0x7B, 0x02),
    {
        self.header_byte(0x7B) & 0x02 != 0
    }

    pub fn fds(&self) -> (r: bool)
        requires
            self.raw().len() >= HEADER_LENGTH,
        ensures
            r == self.flag(0x7B, 0x04),
    {
        self.header_byte(0x7B) & 0x04 != 0
    }

    pub fn mmc5(&self) -> (r: bool)
        requires
            self.raw().len() >= HEADER_LENGTH,
        ensures
            r == self.flag(0x7B, 0x08),
    {
        self.header_byte(0x7B) & 0x08 != 0
    }

    pub fn n163(&self) -> (r: bool)
        requires
            self.raw().len() >= HEADER_LENGTH,
        ensures
            r == self.flag(0x7B, 0x10),
    {
        self.header_byte(0x7B) & 0x10 != 0
    }

    pub fn s5b(&self) -> (r: bool)
        requires
            self.raw().len() >= HEADER_LENGTH,
        ensures
            r == self.flag(0x7B, 0x20),
    {
        self.header_byte(0x7B) & 0x20 != 0
    }

    pub fn nsf2_irq(&self) -> (r: bool)
        requires
            self.raw().len() >= HEADER_LENGTH,
        ensures
            r == self.flag(0x7C, 0x10),
    {
        self.header_byte(0x7C) & 0x10 != 0
    }

    pub fn nsf2_nonreturning_init(&self) -> (r: bool)
        requires
            self.raw().len() >= HEADER_LENGTH,
        ensures
            r == self.flag(0x7C, 0x20),
    {
        self.header_byte(0x7C) & 0x20 != 0
    }

    pub fn nsf2_no_play_subroutine(&self) -> (r: bool)
        requires
            self.raw().len() >= HEADER_LENGTH,
        ensures
            r == self.flag(0x7C, 0x40),
    {
        self.header_byte(0x7C) & 0x40 != 0
    }

    pub fn nsf2_has_metadata(&self) -> (r: bool)
        requires
            self.raw().len() >= HEADER_LENGTH,
        ensures
            r == self.flag(0x7C, 0x80),
    {
        self.header_byte(0x7C) & 0x80 != 0
    }

    /// The driver found in an image that starts with the magic; `Unknown`
    /// otherwise.
    pub fn driver_type(&self) -> (r: NsfDriverType)
        ensures
            r == (if self.valid() { driver_of(self.raw()) } else { NsfDriverType::Unknown }),
    {
        proof {
            use_type_invariant(self);
        }
        if self.magic_valid() {
            self.memoized_driver_type
        } else {
            NsfDriverType::Unknown
        }
    }

    /// The NSF2 program length: the 24-bit little-endian value at 0x7D.
    pub open spec fn program_length(&self) -> int {
        self.raw()[0x7D] + self.raw()[0x7E] * 256 + self.raw()[0x7F] * 65536
    }

    fn nsf2_program_length(&self) -> (r: u32)
        requires
            self.raw().len() >= HEADER_LENGTH,
        ensures
            r == self.program_length(),
    {
        self.header_byte(0x7D) as u32 + self.header_byte(0x7E) as u32 * 256 + self.header_byte(0x7F) as u32 * 65536
    }

    /// Where the NSF2 metadata block starts, for a version-2 image that
    /// flags one.
    pub open spec fn metadata_offset(&self) -> Option<int> {
        if self.raw()[5] == 2 && self.flag(0x7C, 0x80) {
            Some(self.program_length() + HEADER_LENGTH)
        } else {
            None
        }
    }

    /// The NSF2 metadata block, when the image flags one that lies inside
    /// the image and decodes.
    pub fn nsfe_metadata(&self) -> (r: Option<NsfeMetadata>)
        requires
            self.raw().len() >= HEADER_LENGTH,
        ensures
            r is Some <==> (self.metadata_offset() matches Some(o) && o <= self.raw().len()
                && metadata_chunks(self.raw().subrange(o, self.raw().len() as int)) is Some),
            r matches Some(m) ==> parsed_as(
                m.chunks@,
                metadata_chunks(self.raw().subrange(self.metadata_offset()->Some_0, self.raw().len() as int))->Some_0,
            ),
    {
        if !(self.version() == 2 && self.nsf2_has_metadata()) {
            return None;
        }
        let offset: usize = self.nsf2_program_length() as usize + HEADER_LENGTH;
        if offset > self.raw_bytes.len() {
            return None;
        }
        let block = crate::nsfe::copy_range(self.raw_bytes.as_slice(), offset, self.raw_bytes.len());
        match NsfeMetadata::from(block.as_slice()) {
            Ok(d) => Some(d),
            Err(_) => None,
        }
    }

    /// The text field of at most `max_len` bytes at `offset`: decoded as
    /// Shift-JIS when that succeeds, else as UTF-8.
    pub open spec fn text_field(&self, offset: int, max_len: int) -> Option<Seq<char>> {
        let b = self.raw().subrange(offset, offset + field_len(self.raw(), offset, max_len, 0));
        if shift_jis_of(b) is Some {
            shift_jis_of(b)
        } else if valid_utf8(b) {
            Some(decode_utf8(b))
        } else {
            None
        }
    }

    fn parse_string(&self, offset: usize, max_len: usize) -> (r: Result<String, String>)
        requires
            offset + max_len <= self.raw().len(),
            max_len <= 0x100,
        ensures
            r is Ok <==> self.text_field(offset as int, max_len as int) is Some,
            r matches Ok(t) ==> Some(t@) == self.text_field(offset as int, max_len as int),
    {
        let len = self.raw_bytes.len();
        let mut end: usize = 0;
        while end < max_len && self.raw_bytes[offset + end] != 0
            invariant
                len == self.raw().len(),
                end <= max_len,
                offset + max_len <= self.raw().len(),
                self.raw_bytes@ == self.raw(),
                field_len(self.raw(), offset as int, max_len as int, 0) == field_len(self.raw(), offset as int, max_len as int, end as int),
            decreases max_len - end,
        {
            end = end + 1;
        }
        let field = crate::nsfe::copy_range(self.raw_bytes.as_slice(), offset, offset + end);
        if let Some(s) = decode_shift_jis(field.as_slice()) {
            return Ok(s);
        }
        utf8_to_string(field.as_slice())
    }

    /// The title field of the header.
    pub fn title(&self) -> (r: Result<String, String>)
        requires
            self.raw().len() >= HEADER_LENGTH,
        ensures
            r is Ok <==> self.text_field(0xE, 0x20) is Some,
            r matches Ok(t) ==> Some(t@) == self.text_field(0xE, 0x20),
    {
        self.parse_string(0xE, 0x20)
    }

    /// The artist field of the header.
    pub fn artist(&self) -> (r: Result<String, String>)
        requires
            self.raw().len() >= HEADER_LENGTH,
        ensures
            r is Ok <==> self.text_field(0x2E, 0x20) is Some,
            r matches Ok(t) ==> Some(t@) == self.text_field(0x2E, 0x20),
    {
        self.parse_string(0x2E, 0x20)
    }

    /// The copyright field of the header.
    pub fn copyright(&self) -> (r: Result<String, String>)
        requires
            self.raw().len() >= HEADER_LENGTH,
        ensures
            r is Ok <==> self.text_field(0x4E, 0x20) is Some,
            r matches Ok(t) ==> Some(t@) == self.text_field(0x4E, 0x20),
    {
        self.parse_string(0x4E, 0x20)
    }
}

/// The module text shown for a track: `(title, artist, album)`. With NSFe
/// metadata, the track's label and author come first, then the metadata's
/// title and artist, then the header's fields; the album is the metadata's
/// copyright, else the header's title field. The header fields that serve as
/// fallbacks must decode.
pub open spec fn module_text(nsf: Nsf, metadata: Option<NsfeMetadata>, track: int) -> Option<(Seq<char>, Seq<char>, Seq<char>)> {
    let title = nsf.text_field(0xE, 0x20);
    let artist = nsf.text_field(0x2E, 0x20);
    let copyright = nsf.text_field(0x4E, 0x20);
    match metadata {
        None => if title is Some && artist is Some && copyright is Some {
            Some((title->Some_0, artist->Some_0, copyright->Some_0))
        } else {
            None
        },
        Some(m) => if title is Some && artist is Some {
            let ti = m.last(4, 0);
            let t = match m.label_of(track) {
                Some(l) => l,
                None => if ti >= 0 { m.chunks@[ti]->Author_title@ } else { title->Some_0 },
            };
            let a = match m.author_of(track) {
                Some(l) => l,
                None => if ti >= 0 { m.chunks@[ti]->Author_artist@ } else { artist->Some_0 },
            };
            let c = if ti >= 0 { m.chunks@[ti]->Author_copyright@ } else { title->Some_0 };
            Some((t, a, c))
        } else {
            None
        },
    }
}

/// The module text for `track`; see `module_text`. The error is that of the
/// header field that did not decode.
pub fn module_metadata(nsf: &Nsf, metadata: Option<&NsfeMetadata>, track: usize) -> (r: Result<(String, String, String), String>)
    requires
        nsf.raw().len() >= HEADER_LENGTH,
    ensures
        r is Ok <==> module_text(*nsf, match metadata { Some(m) => Some(*m), None => None }, track as int) is Some,
        r matches Ok(v) ==> module_text(*nsf, match metadata { Some(m) => Some(*m), None => None }, track as int)
            == Some((v.0@, v.1@, v.2@)),
{
    match metadata {
        None => {
            let title = nsf.title()?;
            let artist = nsf.artist()?;
            let copyright = nsf.copyright()?;
            Ok((title, artist, copyright))
        },
        Some(m) => {
            let header_title = nsf.title()?;
            let header_artist = nsf.artist()?;
            let title = match m.track_title(track) {
                Some(t) => t,
                None => match m.title() {
                    Some(t) => t,
                    None => header_title.clone(),
                },
            };
            let artist = match m.track_author(track) {
                Some(a) => a,
                None => match m.artist() {
                    Some(a) => a,
                    None => header_artist,
                },
            };
            let copyright = match m.copyright() {
                Some(c) => c,
                None => header_title,
            };
            Ok((title, artist, copyright))
        },
    }
}

} // verus!
