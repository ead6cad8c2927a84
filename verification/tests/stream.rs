use http::header::{HeaderMap, HeaderValue};
use icy_metadata::stream::replay;

fn announcing(interval: usize) -> HeaderMap {
    let mut headers = HeaderMap::new();
    headers.insert("icy-metaint", HeaderValue::from_str(&interval.to_string()).unwrap());
    headers
}

fn block_of(text: &[u8], units: u8) -> Vec<u8> {
    let mut block = text.to_vec();
    block.resize(units as usize * 16, 0);
    block
}

fn frame(audio: &[u8], block: &[u8]) -> Vec<u8> {
    assert_eq!(block.len() % 16, 0);
    let mut bytes = audio.to_vec();
    bytes.push((block.len() / 16) as u8);
    bytes.extend_from_slice(block);
    bytes
}

fn titled(audio: &[u8], title: &str) -> Vec<u8> {
    let text = format!("StreamTitle='{}';StreamUrl='';", title);
    let units = (text.len() + 15) / 16;
    frame(audio, &block_of(text.as_bytes(), units as u8))
}

fn titles(expected: &[&str]) -> Vec<String> {
    expected.iter().map(|title| title.to_string()).collect()
}

#[test]
fn one_frame_with_a_title_gives_one_notification() {
    let block = block_of(b"StreamTitle='Song A - Artist';StreamUrl='';", 2);
    assert_eq!(block.len(), 32);
    let stream = frame(&[0u8; 8], &block);
    assert_eq!(stream.len(), 8 + 1 + 32);
    assert_eq!(stream[8], 2);
    assert_eq!(replay(announcing(8), &stream), titles(&["Song A - Artist"]));
}

#[test]
fn one_frame_with_a_title_and_room_for_the_url_gives_one_notification() {
    let block = block_of(b"StreamTitle='Song A - Artist';StreamUrl='';", 3);
    let stream = frame(&[0u8; 8], &block);
    assert_eq!(replay(announcing(8), &stream), titles(&["Song A - Artist"]));
}

#[test]
fn one_frame_with_a_title_that_runs_over_its_block_gives_one_notification() {
    let mut stream = vec![0u8; 8];
    stream.push(2);
    stream.extend_from_slice(b"StreamTitle='Song A - Artist';StreamUrl='';");
    assert_eq!(replay(announcing(8), &stream), titles(&["Song A - Artist"]));
}

#[test]
fn one_frame_with_an_empty_title_gives_no_notification() {
    let block = block_of(b"StreamTitle='';", 2);
    let stream = frame(&[0u8; 8], &block);
    assert_eq!(stream.len(), 8 + 1 + 32);
    assert_eq!(replay(announcing(8), &stream), titles(&[]));
}

#[test]
fn no_interval_gives_no_notification() {
    let stream = titled(&[0u8; 8], "Song A - Artist");
    assert_eq!(replay(HeaderMap::new(), &stream), titles(&[]));
    assert_eq!(replay(announcing(0), &stream), titles(&[]));
    assert_eq!(replay(announcing(0), b"StreamTitle='Song';"), titles(&[]));
}

#[test]
fn an_empty_body_gives_no_notification() {
    assert_eq!(replay(announcing(8), b""), titles(&[]));
}

#[test]
fn frames_give_their_titles_in_order() {
    let mut stream = titled(b"12345678", "First");
    stream.extend(titled(b"abcdefgh", "Second"));
    stream.extend(frame(b"ijklmnop", &[]));
    stream.extend(titled(b"qrstuvwx", "Third"));
    assert_eq!(replay(announcing(8), &stream), titles(&["First", "Second", "Third"]));
}

#[test]
fn a_title_that_comes_again_is_announced_again() {
    let mut stream = titled(b"1234", "Same");
    stream.extend(titled(b"5678", "Same"));
    assert_eq!(replay(announcing(4), &stream), titles(&["Same", "Same"]));
}

#[test]
fn malformed_blocks_are_passed_over() {
    let mut stream = titled(&[0u8; 8], "Before");
    stream.extend(frame(&[0u8; 8], &[0xFF; 16]));
    stream.extend(frame(&[0u8; 8], &block_of(b"StreamUrl='http://a';", 2)));
    stream.extend(frame(&[0u8; 8], &block_of(b"StreamTitle='Never closed", 2)));
    stream.extend(frame(&[0u8; 8], &block_of(b"StreamTitle='   ';", 2)));
    stream.extend(titled(&[0u8; 8], "After"));
    assert_eq!(replay(announcing(8), &stream), titles(&["Before", "After"]));
}

#[test]
fn audio_that_looks_like_metadata_is_skipped() {
    let audio = b"StreamTitle='Not a title';";
    let mut stream = titled(audio, "A title");
    stream.extend(frame(audio, &[]));
    assert_eq!(replay(announcing(audio.len()), &stream), titles(&["A title"]));
}

#[test]
fn a_stream_cut_off_in_the_audio_ends_in_silence() {
    let mut stream = titled(&[0u8; 8], "Whole");
    stream.extend_from_slice(&[0u8; 5]);
    assert_eq!(replay(announcing(8), &stream), titles(&["Whole"]));
}

#[test]
fn a_stream_cut_off_before_the_length_byte_ends_in_silence() {
    let mut stream = titled(&[0u8; 8], "Whole");
    stream.extend_from_slice(&[0u8; 8]);
    assert_eq!(replay(announcing(8), &stream), titles(&["Whole"]));
}

#[test]
fn a_stream_cut_off_in_a_block_ends_in_silence() {
    let mut stream = titled(&[0u8; 8], "Whole");
    let mut cut = titled(&[0u8; 8], "Cut off");
    cut.pop();
    stream.extend(cut);
    assert_eq!(replay(announcing(8), &stream), titles(&["Whole"]));
}

#[test]
fn a_long_interval_is_skipped_in_chunks() {
    let audio = vec![0x55u8; 10000];
    let mut stream = titled(&audio, "One");
    stream.extend(titled(&audio, "Two"));
    assert_eq!(replay(announcing(10000), &stream), titles(&["One", "Two"]));
}

#[test]
fn an_interval_of_one_chunk_and_its_neighbours_are_skipped() {
    for interval in [4095usize, 4096, 4097, 8192, 8193] {
        let audio = vec![0xAAu8; interval];
        let mut stream = titled(&audio, "Edge");
        stream.extend(titled(&audio, "Case"));
        assert_eq!(replay(announcing(interval), &stream), titles(&["Edge", "Case"]));
    }
}

#[test]
fn the_longest_block_is_read() {
    let title = "x".repeat(4080 - 15);
    let text = format!("StreamTitle='{}';", title);
    assert_eq!(text.len(), 4080);
    let stream = frame(&[1], text.as_bytes());
    assert_eq!(stream[1], 255);
    assert_eq!(replay(announcing(1), &stream), vec![title]);
}

#[test]
fn an_interval_of_one_byte_is_served() {
    let mut stream = titled(&[9], "a");
    stream.extend(frame(&[9], &[]));
    stream.extend(titled(&[9], "b"));
    assert_eq!(replay(announcing(1), &stream), titles(&["a", "b"]));
}

#[test]
fn titles_beyond_ascii_come_through() {
    let stream = titled(&[0u8; 16], "Café del Mar — 日本語");
    assert_eq!(replay(announcing(16), &stream), titles(&["Café del Mar — 日本語"]));
}

#[test]
fn the_headers_decide_how_the_body_is_framed() {
    let mut stream = titled(&[0u8; 8], "Eight");
    stream.extend(titled(&[0u8; 8], "Again"));
    assert_eq!(replay(announcing(8), &stream), titles(&["Eight", "Again"]));
    let mut headers = HeaderMap::new();
    headers.insert("icy-metaint", HeaderValue::from_static("eight"));
    assert_eq!(replay(headers, &stream), titles(&[]));
    let mut headers = HeaderMap::new();
    headers.insert("icy-br", HeaderValue::from_static("8"));
    assert_eq!(replay(headers, &stream), titles(&[]));
}

#[test]
fn frames_round_trip_through_a_task() {
    let blocks: [(&[u8], Option<&str>); 8] = [
        (b"StreamTitle='One';", Some("One")),
        (b"", None),
        (b"StreamTitle='';", None),
        (b"StreamTitle=' Two ';StreamUrl='http://example.com/two';", Some(" Two ")),
        (b"StreamTitle='\xFF';", None),
        (b"StreamUrl='';", None),
        (b"StreamTitle='Three", None),
        (b"StreamTitle='Four';", Some("Four")),
    ];
    for interval in [1usize, 7, 16, 4096, 5000] {
        let mut stream = Vec::new();
        let mut expected = Vec::new();
        for (i, (text, title)) in blocks.iter().enumerate() {
            let audio = vec![i as u8; interval];
            let units = (text.len() + 15) / 16;
            stream.extend(frame(&audio, &block_of(text, units as u8)));
            expected.extend(title.map(|title| title.to_string()));
        }
        assert_eq!(replay(announcing(interval), &stream), expected);
    }
}
