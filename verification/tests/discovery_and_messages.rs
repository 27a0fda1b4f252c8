use phaselock::discovery::{
    parse_u8, peer_counts_from_txt, sanitize_instance_name, session_txt_records,
};
use phaselock::messages::{
    decode_length, encode_frame, encode_length, FrameHeaderError, MAX_MESSAGE_SIZE,
};
use phaselock::track_info::{resolve_track_info, TrackMetadata};

#[test]
fn test_sanitize_instance_name() {
    assert_eq!(sanitize_instance_name("My Session"), "My Session");
    assert_eq!(sanitize_instance_name("With.Dots"), "With-Dots");
    let long = "A".repeat(100);
    assert_eq!(sanitize_instance_name(&long).len(), 63);
}

#[test]
fn sanitize_keeps_multibyte_characters_whole() {
    // 21 three-byte characters are exactly 63 bytes.
    let s = "€".repeat(30);
    let r = sanitize_instance_name(&s);
    assert_eq!(r.len(), 63);
    assert_eq!(r.chars().count(), 21);
}

#[test]
fn sanitize_cuts_before_a_split_character() {
    // "a" then three-byte characters: byte 63 falls inside the 22nd one.
    let s = format!("a{}", "€".repeat(30));
    let r = sanitize_instance_name(&s);
    assert_eq!(r, format!("a{}", "€".repeat(20)));
    assert_eq!(r.len(), 61);
    let dotted = format!("x.{}", "é".repeat(40));
    let r = sanitize_instance_name(&dotted);
    assert_eq!(r, format!("x-{}", "é".repeat(30)));
    assert_eq!(r.len(), 62);
}

#[test]
fn txt_records_of_session() {
    let r = session_txt_records("Party", "Host", 3, 5);
    let expected: Vec<(String, String)> = vec![
        ("name".into(), "Party".into()),
        ("host".into(), "Host".into()),
        ("peers".into(), "3".into()),
        ("max_peers".into(), "5".into()),
    ];
    assert_eq!(r, expected);
    let r = session_txt_records("", "", 0, 255);
    assert_eq!(r[2].1, "0");
    assert_eq!(r[3].1, "255");
}

#[test]
fn parse_u8_like_std() {
    for s in ["0", "7", "255", "+12", "007", "256", "", "+", "-1", " 1", "1a", "1000"] {
        assert_eq!(parse_u8(s), s.parse::<u8>().ok(), "input {s:?}");
    }
}

#[test]
fn txt_counts_with_defaults() {
    assert_eq!(peer_counts_from_txt(Some("2"), Some("5")), (2, 5));
    assert_eq!(peer_counts_from_txt(None, None), (0, 5));
    assert_eq!(peer_counts_from_txt(Some("x"), Some("300")), (0, 5));
    assert_eq!(peer_counts_from_txt(Some("4"), Some("8")), (4, 8));
}

#[test]
fn test_framed_message_too_large() {
    let fake_len: u32 = MAX_MESSAGE_SIZE + 1;
    let header = fake_len.to_le_bytes();
    assert_eq!(decode_length(header), Err(FrameHeaderError::MessageTooLarge(fake_len)));
}

#[test]
fn frame_header_roundtrip() {
    for len in [0usize, 1, 255, 256, 65_536, MAX_MESSAGE_SIZE as usize] {
        let h = encode_length(len);
        assert_eq!(h, (len as u32).to_le_bytes());
        assert_eq!(decode_length(h), Ok(len as u32));
    }
}

#[test]
fn frame_is_header_then_payload() {
    let payload = vec![9u8, 8, 7];
    let frame = encode_frame(&payload);
    assert_eq!(frame, vec![3, 0, 0, 0, 9, 8, 7]);
}

#[test]
fn track_info_from_tags() {
    let m = TrackMetadata { title: Some("Song".into()), artist: Some("Band".into()) };
    assert_eq!(resolve_track_info(&m, "x.mp3"), ("Song".to_string(), "Band".to_string()));
}

#[test]
fn track_info_from_file_name() {
    let m = TrackMetadata::default();
    assert_eq!(
        resolve_track_info(&m, "Daft Punk - One More Time.mp3"),
        ("One More Time".to_string(), "Daft Punk".to_string())
    );
    assert_eq!(resolve_track_info(&m, "plain.MP3"), ("plain".to_string(), "Unknown".to_string()));
    assert_eq!(resolve_track_info(&m, " - x.mp3"), (" - x".to_string(), "Unknown".to_string()));
}

#[test]
fn track_info_unknown_tags_ignored() {
    let m = TrackMetadata { title: Some("UNKNOWN".into()), artist: Some("Artist".into()) };
    assert_eq!(
        resolve_track_info(&m, "A - B.mp3"),
        ("B".to_string(), "Artist".to_string())
    );
    let m = TrackMetadata { title: Some("".into()), artist: None };
    assert_eq!(resolve_track_info(&m, "nodash"), ("nodash".to_string(), "Unknown".to_string()));
}

// ── ID3 tags ────────────────────────────────────────────────────────────────

use phaselock::track_info::{classify_tags, parse_mp3_metadata, pick_track_metadata, tag_kind, TagKind};

fn id3_text_frame(id: &[u8; 4], text: &str) -> Vec<u8> {
    let mut f = id.to_vec();
    f.extend(((text.len() + 1) as u32).to_be_bytes());
    f.extend([0u8, 0]);
    f.push(0); // ISO-8859-1
    f.extend(text.as_bytes());
    f
}

fn tiny_mp3(title: &str, artist: &str) -> Vec<u8> {
    let mut frames = id3_text_frame(b"TIT2", title);
    frames.extend(id3_text_frame(b"TPE1", artist));
    let size = frames.len() as u32;
    let mut data = b"ID3".to_vec();
    data.extend([3u8, 0, 0]);
    data.extend([
        ((size >> 21) & 0x7f) as u8,
        ((size >> 14) & 0x7f) as u8,
        ((size >> 7) & 0x7f) as u8,
        (size & 0x7f) as u8,
    ]);
    data.extend(frames);
    for _ in 0..20 {
        let mut fr = vec![0u8; 417];
        fr[0] = 0xFF;
        fr[1] = 0xFB;
        fr[2] = 0x90;
        fr[3] = 0x00;
        data.extend(fr);
    }
    data
}

#[test]
fn parse_mp3_metadata_reads_id3_tags() {
    let m = parse_mp3_metadata(&tiny_mp3("Hello", "World"));
    assert_eq!(m.title.as_deref(), Some("Hello"));
    assert_eq!(m.artist.as_deref(), Some("World"));
}

#[test]
fn parse_mp3_metadata_of_garbage_is_empty() {
    let m = parse_mp3_metadata(&[1u8, 2, 3, 4, 5]);
    assert!(m.title.is_none());
    assert!(m.artist.is_none());
}

#[test]
fn pick_metadata_rules() {
    let first = vec![
        (TagKind::Title, "One".to_string()),
        (TagKind::Artist, "".to_string()),
        (TagKind::Title, "Two".to_string()),
        (TagKind::Artist, "A1".to_string()),
        (TagKind::Artist, "A2".to_string()),
        (TagKind::Title, "".to_string()),
    ];
    let m = pick_track_metadata(&first, &Vec::new());
    assert_eq!(m.title.as_deref(), Some("Two"));
    assert_eq!(m.artist.as_deref(), Some("A1"));

    let second = vec![
        (TagKind::Other, "x".to_string()),
        (TagKind::Title, "T1".to_string()),
        (TagKind::Title, "T2".to_string()),
        (TagKind::Artist, "B".to_string()),
    ];
    let m = pick_track_metadata(&vec![(TagKind::Artist, "Z".to_string())], &second);
    assert_eq!(m.title.as_deref(), Some("T1"));
    assert_eq!(m.artist.as_deref(), Some("Z"));
    let m = pick_track_metadata(&Vec::new(), &Vec::new());
    assert!(m.title.is_none() && m.artist.is_none());
}

#[test]
fn tag_kinds_from_key_names() {
    assert_eq!(tag_kind("Some(TrackTitle)"), TagKind::Title);
    assert_eq!(tag_kind("Some(Artist)"), TagKind::Artist);
    assert_eq!(tag_kind("Some(AlbumArtist)"), TagKind::Artist);
    assert_eq!(tag_kind("Some(Album)"), TagKind::Other);
    assert_eq!(tag_kind("None"), TagKind::Other);
    let raw = vec![("Some(TrackTitle)".to_string(), "T".to_string()), ("None".to_string(), "x".to_string())];
    assert_eq!(
        classify_tags(&raw),
        vec![(TagKind::Title, "T".to_string()), (TagKind::Other, "x".to_string())]
    );
}
