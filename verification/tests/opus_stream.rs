use ord::metadata::{structured, TagValue};
use ord::opus::{artist, raw_tags, title};

fn crc32(data: &[u8]) -> u32 {
    let mut crc: u32 = 0;
    for &byte in data {
        crc ^= (byte as u32) << 24;
        for _ in 0..8 {
            crc = if crc & 0x8000_0000 != 0 { (crc << 1) ^ 0x04c1_1db7 } else { crc << 1 };
        }
    }
    crc
}

fn page(header_type: u8, granule: u64, sequence: u32, packet: &[u8]) -> Vec<u8> {
    page_of(0x1234_5678, header_type, granule, sequence, packet)
}

fn page_of(serial: u32, header_type: u8, granule: u64, sequence: u32, packet: &[u8]) -> Vec<u8> {
    assert!(packet.len() < 255);
    let mut page = Vec::new();
    page.extend_from_slice(b"OggS");
    page.push(0);
    page.push(header_type);
    page.extend_from_slice(&granule.to_le_bytes());
    page.extend_from_slice(&serial.to_le_bytes());
    page.extend_from_slice(&sequence.to_le_bytes());
    page.extend_from_slice(&[0, 0, 0, 0]);
    page.push(1);
    page.push(packet.len() as u8);
    page.extend_from_slice(packet);
    let crc = crc32(&page);
    page[22..26].copy_from_slice(&crc.to_le_bytes());
    page
}

fn opus_stream(comments: &[&str]) -> Vec<u8> {
    let mut head = Vec::new();
    head.extend_from_slice(b"OpusHead");
    head.push(1);
    head.push(1);
    head.extend_from_slice(&312u16.to_le_bytes());
    head.extend_from_slice(&48000u32.to_le_bytes());
    head.extend_from_slice(&0i16.to_le_bytes());
    head.push(0);

    let mut tags = Vec::new();
    tags.extend_from_slice(b"OpusTags");
    let vendor = b"test";
    tags.extend_from_slice(&(vendor.len() as u32).to_le_bytes());
    tags.extend_from_slice(vendor);
    tags.extend_from_slice(&(comments.len() as u32).to_le_bytes());
    for comment in comments {
        tags.extend_from_slice(&(comment.len() as u32).to_le_bytes());
        tags.extend_from_slice(comment.as_bytes());
    }

    let mut stream = page(0x02, 0, 0, &head);
    stream.extend(page(0x00, 0, 1, &tags));
    stream.extend(page(0x04, 960, 2, &[0xf8, 0xff, 0xfe]));
    stream
}

#[test]
fn title_and_artist_read_from_opus_tags() {
    let stream = opus_stream(&["TITLE=  comingsoon ", "ARTIST=Someone", "METADATA_BLOCK_PICTURE=AAAA"]);
    assert_eq!(title(&stream).as_deref(), Some("comingsoon"));
    assert_eq!(artist(&stream).as_deref(), Some("Someone"));
    let tags = raw_tags(&stream);
    assert_eq!(tags.len(), 2);
    assert!(tags.iter().all(|(key, _)| !key.to_ascii_uppercase().contains("PICTURE")));
}

#[test]
fn structured_groups_opus_tags() {
    let stream = opus_stream(&["TITLE=Song", "Encoder=lib", "ARTIST=a", "artist=b"]);
    let map = structured(&stream).unwrap();
    let keys: Vec<&str> = map.iter().map(|(k, _)| k.as_str()).collect();
    assert_eq!(keys, vec!["title", "artist", "encoder"]);
    match &map[1].1 {
        TagValue::Array(values) => assert_eq!(values, &vec!["a".to_string(), "b".to_string()]),
        TagValue::Text(_) => panic!("expected two artists"),
    }
}

#[test]
fn title_extracts_simple_title_tag() {
    let stream = opus_stream(&["title=comingsoon"]);
    assert_eq!(title(&stream).as_deref(), Some("comingsoon"));
}

#[test]
fn raw_tags_excludes_pictures() {
    let stream = opus_stream(&["title=comingsoon", "METADATA_BLOCK_PICTURE=AAAA", "coverpicture=BBBB"]);
    assert!(!raw_tags(&stream).iter().any(|(key, _)| ord::opus::is_picture_tag(key)));
    assert_eq!(raw_tags(&stream).len(), 1);
}

#[test]
fn vorbis_streams_and_unmarked_bodies_are_not_probed() {
    let stream = opus_stream(&["title=x"]);
    assert!(ord::opus::is_probed_input(&stream));
    assert!(!ord::opus::is_probed_input(b"xOggS"));
    let mut ident = b"\x01vorbis".to_vec();
    ident.extend_from_slice(&[0; 23]);
    let vorbis = page(0x02, 0, 0, &ident);
    assert!(!ord::opus::is_probed_input(&vorbis));
    assert!(title(&vorbis).is_none());
}

#[test]
fn vorbis_bytes_inside_an_opus_comment_are_read() {
    let stream = opus_stream(&["title=x", "comment=\x01vorbis \x7fFLAC"]);
    assert!(ord::opus::is_probed_input(&stream));
    assert_eq!(title(&stream).as_deref(), Some("x"));
}

#[test]
fn structured_equals_metadata_of_raw_tags() {
    let stream = opus_stream(&["TITLE=Song", "zeta=1", "Encoder=lib", "ARTIST=a", "artist=b", "alpha=2"]);
    let direct = structured(&stream).unwrap();
    let via_tags = ord::metadata::from_tags(raw_tags(&stream)).unwrap();
    let flatten = |m: &Vec<(String, TagValue)>| -> Vec<(String, Vec<String>)> {
        m.iter()
            .map(|(k, v)| match v {
                TagValue::Text(t) => (k.clone(), vec![t.clone()]),
                TagValue::Array(a) => (k.clone(), a.clone()),
            })
            .collect()
    };
    assert_eq!(flatten(&direct), flatten(&via_tags));
    let keys: Vec<&str> = direct.iter().map(|(k, _)| k.as_str()).collect();
    assert_eq!(keys, vec!["title", "artist", "alpha", "encoder", "zeta"]);
}

#[test]
fn chained_streams_are_not_probed() {
    let stream = opus_stream(&["title=x"]);
    let mut chained = stream.clone();
    chained.extend(page_of(0x0bad_f00d, 0x02, 0, 0, b"OpusHead"));
    assert!(!ord::opus::is_probed_input(&chained));
    assert!(title(&chained).is_none());
    let mut same = stream.clone();
    same.extend(page(0x04, 1920, 3, &[0xf8, 0xff, 0xfe]));
    assert!(ord::opus::is_probed_input(&same));
    assert_eq!(title(&same).as_deref(), Some("x"));
}

#[test]
fn multiplexed_streams_begun_together_are_read() {
    let full = opus_stream(&["title=together"]);
    // The Opus identification page, then a second stream's first page, then the rest.
    let first_len = 27 + 1 + usize::from(full[27]);
    let mut body = full[..first_len].to_vec();
    body.extend(page_of(0x0000_0042, 0x02, 0, 0, b"other stream"));
    body.extend_from_slice(&full[first_len..]);
    body.extend(page_of(0x0000_0042, 0x04, 0, 1, b"end"));
    assert!(ord::opus::is_probed_input(&body));
    assert_eq!(title(&body).as_deref(), Some("together"));
}

fn crc8(data: &[u8]) -> u8 {
    let mut crc: u8 = 0;
    for &byte in data {
        crc ^= byte;
        for _ in 0..8 {
            crc = if crc & 0x80 != 0 { (crc << 1) ^ 0x07 } else { crc << 1 };
        }
    }
    crc
}

fn flac_stream(comments: &[&str]) -> Vec<u8> {
    let mut body = b"fLaC".to_vec();
    body.extend_from_slice(&[0x00, 0x00, 0x00, 34]);
    body.extend_from_slice(&4096u16.to_be_bytes());
    body.extend_from_slice(&4096u16.to_be_bytes());
    body.extend_from_slice(&[0; 6]);
    let packed: u64 = (44_100u64 << 44) | (1u64 << 41) | (15u64 << 36);
    body.extend_from_slice(&packed.to_be_bytes());
    body.extend_from_slice(&[0; 16]);
    let mut block = Vec::new();
    block.extend_from_slice(&4u32.to_le_bytes());
    block.extend_from_slice(b"test");
    block.extend_from_slice(&(comments.len() as u32).to_le_bytes());
    for comment in comments {
        block.extend_from_slice(&(comment.len() as u32).to_le_bytes());
        block.extend_from_slice(comment.as_bytes());
    }
    body.push(0x84);
    body.extend_from_slice(&(block.len() as u32).to_be_bytes()[1..]);
    body.extend_from_slice(&block);
    let mut frame = vec![0xff, 0xf8, 0xc0, 0x10, 0x00];
    frame.push(crc8(&frame));
    body.extend_from_slice(&frame);
    body.extend_from_slice(&[0; 32]);
    body
}

#[test]
fn native_flac_tags_are_read() {
    let body = flac_stream(&["TITLE=lossless", "ARTIST=someone"]);
    assert!(ord::opus::is_probed_input(&body));
    assert_eq!(title(&body).as_deref(), Some("lossless"));
    assert_eq!(artist(&body).as_deref(), Some("someone"));
}
