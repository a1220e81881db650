use nsf_presenter::nsf::{determine_driver_type, find_subsequence, module_metadata, Nsf, NsfDriverType};
use nsf_presenter::nsfe::{
    chunk_data_as_i32_vec, chunk_data_as_string_vec, chunk_data_as_u16_vec, extract_fourcc_chunks,
    nsfe_to_nsf2, parse_nsfe_metadata, NsfeChunk, NsfeError, NsfeMetadata, NsfeTrack,
};

fn chunk(four_cc: &[u8; 4], data: &[u8]) -> Vec<u8> {
    let mut v = (data.len() as u32).to_le_bytes().to_vec();
    v.extend_from_slice(four_cc);
    v.extend_from_slice(data);
    v
}

fn sample_nsfe() -> Vec<u8> {
    let mut f = b"NSFE".to_vec();
    // load, init, play, PAL/NTSC, chips (FDS), songs, starting song
    f.extend(chunk(b"INFO", &[0x00, 0x80, 0x03, 0x80, 0x06, 0x80, 0x00, 0x04, 0x02, 0x00]));
    f.extend(chunk(b"DATA", b"xxFTDRVyy"));
    f.extend(chunk(b"auth", b"Title\0Artist\0Copy\0Ripper"));
    let mut times = Vec::new();
    times.extend_from_slice(&1000i32.to_le_bytes());
    times.extend_from_slice(&2000i32.to_le_bytes());
    f.extend(chunk(b"time", &times));
    f.extend(chunk(b"tlbl", b"First\0Second"));
    f.extend(chunk(b"NEND", &[]));
    f
}

fn padded(s: &[u8]) -> Vec<u8> {
    let mut v = s.to_vec();
    v.resize(32, 0);
    v
}

#[test]
fn subsequence_search() {
    assert_eq!(find_subsequence(b"hello world", b"o w"), Some(4));
    assert_eq!(find_subsequence(b"hello world", b"o"), Some(4));
    assert_eq!(find_subsequence(b"hello", b"xyz"), None);
    assert_eq!(find_subsequence(b"ab", b"abc"), None);
}

#[test]
fn driver_detection() {
    assert_eq!(determine_driver_type(b"..FTDRV.."), NsfDriverType::FTClassic);
    assert_eq!(determine_driver_type(b"..0CCFT.."), NsfDriverType::FT0CC);
    assert_eq!(determine_driver_type(b"..DN-FT.."), NsfDriverType::FTDn);
    assert_eq!(determine_driver_type(b"..Dn-FT.."), NsfDriverType::FTDn);
    assert_eq!(determine_driver_type(b"..0CCFT..FTDRV"), NsfDriverType::FTClassic);
    assert_eq!(determine_driver_type(b"nothing"), NsfDriverType::Unknown);
}

#[test]
fn plain_nsf_header() {
    let mut data = vec![0u8; 0x80];
    data[..5].copy_from_slice(b"NESM\x1A");
    data[5] = 1;
    data[6] = 12;
    data[7] = 3;
    data[0x0E..0x13].copy_from_slice(b"Hello");
    data[0x2E..0x31].copy_from_slice(b"Bob");
    data[0x7B] = 0x04 | 0x20;
    data.extend_from_slice(b"0CCFT");
    let nsf = Nsf::from(&data).unwrap();
    assert!(nsf.magic_valid());
    assert_eq!(nsf.version(), 1);
    assert_eq!(nsf.songs(), 12);
    assert_eq!(nsf.starting_song(), 3);
    assert!(nsf.fds());
    assert!(nsf.s5b());
    assert!(!nsf.vrc6());
    assert!(!nsf.nsf2_has_metadata());
    assert_eq!(nsf.driver_type(), NsfDriverType::FT0CC);
    assert_eq!(nsf.title().unwrap(), "Hello");
    assert_eq!(nsf.artist().unwrap(), "Bob");
    assert_eq!(nsf.copyright().unwrap(), "");
    assert!(nsf.nsfe_metadata().is_none());
}

#[test]
fn invalid_magic_has_unknown_driver() {
    let mut data = vec![0u8; 0x80];
    data.extend_from_slice(b"FTDRV");
    let nsf = Nsf::from(&data).unwrap();
    assert!(!nsf.magic_valid());
    assert_eq!(nsf.driver_type(), NsfDriverType::Unknown);
}

#[test]
fn nsfe_converts_to_nsf2() {
    let out = nsfe_to_nsf2(&sample_nsfe()).unwrap();
    let mut expected = b"NESM\x1A".to_vec();
    expected.extend_from_slice(&[2, 0x02, 0x01]);
    expected.extend_from_slice(&[0x00, 0x80, 0x03, 0x80, 0x06, 0x80]);
    expected.extend(padded(b"Title"));
    expected.extend(padded(b"Artist"));
    expected.extend(padded(b"Copy"));
    expected.extend_from_slice(&16639u16.to_le_bytes());
    expected.extend_from_slice(&[0; 8]);
    expected.extend_from_slice(&19997u16.to_le_bytes());
    expected.extend_from_slice(&[0x00, 0x04, 0x80]);
    expected.extend_from_slice(&[9, 0, 0]);
    assert_eq!(expected.len(), 0x80);
    expected.extend_from_slice(b"xxFTDRVyy");
    expected.extend(chunk(b"auth", b"Title\0Artist\0Copy\0Ripper"));
    let mut times = Vec::new();
    times.extend_from_slice(&1000i32.to_le_bytes());
    times.extend_from_slice(&2000i32.to_le_bytes());
    expected.extend(chunk(b"time", &times));
    expected.extend(chunk(b"tlbl", b"First\0Second"));
    expected.extend(chunk(b"NEND", &[]));
    assert_eq!(out, expected);
}

#[test]
fn nsfe_errors() {
    assert_eq!(nsfe_to_nsf2(b"NSF"), Err(NsfeError::MalformedHeader));
    assert_eq!(nsfe_to_nsf2(b"NESM\x1A"), Err(NsfeError::MalformedHeader));
    let mut no_info = b"NSFE".to_vec();
    no_info.extend(chunk(b"DATA", b"abc"));
    assert_eq!(nsfe_to_nsf2(&no_info), Err(NsfeError::MissingInfo));
    let mut no_data = b"NSFE".to_vec();
    no_data.extend(chunk(b"INFO", &[0; 10]));
    assert_eq!(nsfe_to_nsf2(&no_data), Err(NsfeError::MissingData));
    let mut short_info = b"NSFE".to_vec();
    short_info.extend(chunk(b"INFO", &[0; 8]));
    short_info.extend(chunk(b"DATA", b"abc"));
    assert_eq!(nsfe_to_nsf2(&short_info), Err(NsfeError::InfoTooShort));
    let mut truncated = b"NSFE".to_vec();
    truncated.extend_from_slice(&[10, 0, 0, 0, b'D', b'A', b'T', b'A', 1]);
    assert_eq!(nsfe_to_nsf2(&truncated), Err(NsfeError::ChunkTruncated));
    let mut bad_time = b"NSFE".to_vec();
    bad_time.extend(chunk(b"INFO", &[0; 10]));
    bad_time.extend(chunk(b"DATA", b"abc"));
    bad_time.extend(chunk(b"time", &[1, 2, 3]));
    assert_eq!(nsfe_to_nsf2(&bad_time), Err(NsfeError::InvalidI32Array));
}

#[test]
fn nsfe_loads_with_metadata() {
    let nsf = Nsf::from(&sample_nsfe()).unwrap();
    assert!(nsf.magic_valid());
    assert_eq!(nsf.version(), 2);
    assert_eq!(nsf.songs(), 2);
    assert_eq!(nsf.starting_song(), 1);
    assert!(nsf.fds());
    assert!(nsf.nsf2_has_metadata());
    assert_eq!(nsf.driver_type(), NsfDriverType::FTClassic);
    assert_eq!(nsf.title().unwrap(), "Title");
    let meta = nsf.nsfe_metadata().unwrap();
    assert_eq!(meta.title().unwrap(), "Title");
    assert_eq!(meta.artist().unwrap(), "Artist");
    assert_eq!(meta.copyright().unwrap(), "Copy");
    assert_eq!(meta.ripper().unwrap(), "Ripper");
    assert_eq!(meta.track_duration(1), Some(60));
    assert_eq!(meta.track_duration(2), Some(120));
    assert_eq!(meta.track_duration(3), None);
    assert_eq!(meta.track_title(2).unwrap(), "Second");
    assert_eq!(meta.track_author(1), None);
    assert_eq!(meta.track_fadeout(1), None);
    assert!(meta.vrc7_patches().is_none());
    let t = meta.track(1).unwrap();
    assert_eq!(t.duration, Some(60));
    assert_eq!(t.label.unwrap(), "First");
    assert!(meta.track(0).is_none());
    assert!(meta.track(3).is_none());
}

#[test]
fn later_chunks_win() {
    let mut body = Vec::new();
    body.extend(chunk(b"auth", b"A"));
    body.extend(chunk(b"auth", b"B\0C"));
    body.extend(chunk(b"NEND", &[]));
    body.extend(chunk(b"auth", b"ignored"));
    let meta = NsfeMetadata::from(&body).unwrap();
    assert_eq!(meta.title().unwrap(), "B");
    assert_eq!(meta.artist().unwrap(), "C");
    assert_eq!(meta.copyright().unwrap(), "<?>");
    assert_eq!(meta.chunks.len(), 2);
}

#[test]
fn vrc7_chunks() {
    let mut patches = vec![1u8];
    patches.extend_from_slice(&[0; 8]);
    patches.extend((0..120).map(|i| i as u8));
    let mut body = chunk(b"VRC7", &patches);
    body.extend(chunk(b"NEND", &[]));
    let meta = NsfeMetadata::from(&body).unwrap();
    let p = meta.vrc7_patches().unwrap();
    assert_eq!(p[0], 0);
    assert_eq!(p[119], 119);

    let mut rhythm = vec![0u8];
    rhythm.extend_from_slice(&[0; 152]);
    let bad = chunk(b"VRC7", &rhythm);
    assert!(matches!(parse_nsfe_metadata(&bad), Err(NsfeError::Vrc7RhythmWithoutYm2413)));
    let odd = chunk(b"VRC7", &[1, 2, 3]);
    assert!(matches!(parse_nsfe_metadata(&odd), Err(NsfeError::Vrc7InvalidLength)));
    let empty = chunk(b"VRC7", &[]);
    assert!(matches!(parse_nsfe_metadata(&empty), Err(NsfeError::MissingVrc7Flag)));
}

#[test]
fn chunk_arrays() {
    assert_eq!(chunk_data_as_u16_vec(&[1, 2, 3, 4]), Ok(vec![0x0201, 0x0403]));
    assert_eq!(chunk_data_as_u16_vec(&[1, 2, 3]), Err(NsfeError::InvalidU16Array));
    assert_eq!(chunk_data_as_i32_vec(&[0xFF, 0xFF, 0xFF, 0xFF]), Ok(vec![-1]));
    assert_eq!(chunk_data_as_i32_vec(&[1, 2]), Err(NsfeError::InvalidI32Array));
    assert_eq!(chunk_data_as_string_vec(b"a\0bc\0").unwrap(), vec!["a".to_string(), "bc".to_string(), "".to_string()]);
    assert_eq!(chunk_data_as_string_vec(&[0xFF]), Err(NsfeError::InvalidString));
}

#[test]
fn chunk_extraction() {
    let mut body = chunk(b"abcd", b"xyz");
    body.extend(chunk(b"efgh", &[]));
    let chunks = extract_fourcc_chunks(&body).unwrap();
    assert_eq!(chunks.len(), 2);
    assert_eq!(&chunks[0].0, b"abcd");
    assert_eq!(chunks[0].1, b"xyz".to_vec());
    assert_eq!(&chunks[1].0, b"efgh");
    assert_eq!(extract_fourcc_chunks(&[1, 2, 3]), Err(NsfeError::ChunkHeaderTruncated));
}

#[test]
fn playlist_chunk() {
    let body = chunk(b"plst", &[0, 2, 1]);
    let parsed = parse_nsfe_metadata(&body).unwrap();
    match &parsed[0] {
        NsfeChunk::Playlist(v) => assert_eq!(v, &vec![1, 3, 2]),
        _ => panic!("expected a playlist"),
    }
}

#[test]
fn fresh_track_is_empty() {
    let t = NsfeTrack::new();
    assert!(t.label.is_none() && t.author.is_none() && t.duration.is_none() && t.fadeout.is_none());
}

#[test]
fn shift_jis_title() {
    let mut data = vec![0u8; 0x80];
    data[..5].copy_from_slice(b"NESM\x1A");
    data[0x0E] = 0x82;
    data[0x0F] = 0xA0;
    data[0x2E] = 0x82;
    let nsf = Nsf::from(&data).unwrap();
    assert_eq!(nsf.title().unwrap(), "\u{3042}");
    // a lone lead byte is neither Shift-JIS nor UTF-8
    assert!(nsf.artist().is_err());
}

#[test]
fn module_text_prefers_track_metadata() {
    let nsf = Nsf::from(&sample_nsfe()).unwrap();
    let meta = nsf.nsfe_metadata();
    let (title, artist, album) = module_metadata(&nsf, meta.as_ref(), 2).unwrap();
    assert_eq!(title, "Second");
    assert_eq!(artist, "Artist");
    assert_eq!(album, "Copy");
    let (title, artist, album) = module_metadata(&nsf, None, 2).unwrap();
    assert_eq!((title.as_str(), artist.as_str(), album.as_str()), ("Title", "Artist", "Copy"));
}

#[test]
fn magic_alone_is_valid() {
    let nsf = Nsf::from(b"NESM\x1A").unwrap();
    assert!(nsf.magic_valid());
    assert!(!nsf.header_complete());
    let short = Nsf::from(b"NESM").unwrap();
    assert!(!short.magic_valid());
}
