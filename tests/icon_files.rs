use dmi::{parse, parse_description, parse_metadata, Delay, Dmi, FormatError, IconFile, IconState};
use miniz_oxide::deflate::compress_to_vec_zlib;

const SIGNATURE: [u8; 8] = [0x89, b'P', b'N', b'G', 0x0d, 0x0a, 0x1a, 0x0a];

fn chunk(tag: &[u8; 4], payload: &[u8]) -> Vec<u8> {
    let mut out = Vec::new();
    out.extend_from_slice(&(payload.len() as u32).to_be_bytes());
    out.extend_from_slice(tag);
    out.extend_from_slice(payload);
    out.extend_from_slice(&[0, 0, 0, 0]);
    out
}

fn png(chunks: &[Vec<u8>]) -> Vec<u8> {
    let mut out = SIGNATURE.to_vec();
    out.extend_from_slice(&chunk(b"IHDR", &[0, 0, 0, 32, 0, 0, 0, 32, 8, 6, 0, 0, 0]));
    for c in chunks {
        out.extend_from_slice(c);
    }
    out.extend_from_slice(&chunk(b"IEND", &[]));
    out
}

fn ztxt(keyword: &[u8], text: &str) -> Vec<u8> {
    let mut payload = keyword.to_vec();
    payload.push(0);
    payload.push(0);
    payload.extend_from_slice(&compress_to_vec_zlib(text.as_bytes(), 6));
    chunk(b"zTXt", &payload)
}

fn text_chunk(keyword: &[u8], text: &str) -> Vec<u8> {
    let mut payload = keyword.to_vec();
    payload.push(0);
    payload.extend_from_slice(text.as_bytes());
    chunk(b"tEXt", &payload)
}

fn delays_text(delays: &[Delay]) -> String {
    let parts: Vec<String> = delays
        .iter()
        .map(|d| {
            if d.decimals == 0 {
                d.units.to_string()
            } else {
                let digits = format!("{:0width$}", d.units, width = d.decimals + 1);
                let (int_part, frac) = digits.split_at(digits.len() - d.decimals);
                format!("{}.{}", int_part, frac)
            }
        })
        .collect();
    parts.join(",")
}

fn encode(file: &IconFile) -> String {
    let mut out = String::from("# BEGIN DMI\n");
    out.push_str(&format!("version = {}\n", file.version));
    out.push_str(&format!("\twidth = {}\n\theight = {}\n", file.cell_width, file.cell_height));
    for s in &file.states {
        out.push_str(&format!("state = \"{}\"\n", s.name));
        out.push_str(&format!("\tdirs = {}\n\tframes = {}\n", s.direction_count, s.frame_count));
        if !s.frame_delays.is_empty() {
            out.push_str(&format!("\tdelay = {}\n", delays_text(&s.frame_delays)));
        }
        out.push_str(&format!("\tloop = {}\n", s.loop_count));
        out.push_str(&format!("\trewind = {}\n", if s.rewinds { 1 } else { 0 }));
    }
    out.push_str("# END DMI\n");
    out
}

fn state(name: &str) -> IconState {
    IconState {
        name: name.to_string(),
        direction_count: 1,
        frame_count: 1,
        rewinds: false,
        loop_count: 0,
        frame_delays: Vec::new(),
    }
}

fn header() -> &'static str {
    "# BEGIN DMI\nversion = 4.0\n\twidth = 32\n\theight = 32\n"
}

#[test]
fn no_description_chunk_is_reported() {
    let data = png(&[text_chunk(b"Software", "paint"), ztxt(b"Comment", "hello")]);
    assert_eq!(parse(&data).unwrap_err(), FormatError::NoDescriptionChunk);
    let bare = png(&[]);
    assert_eq!(parse(&bare).unwrap_err(), FormatError::NoDescriptionChunk);
}

#[test]
fn missing_signature_is_reported() {
    assert_eq!(parse(&[]).unwrap_err(), FormatError::BadSignature);
    assert_eq!(parse(&SIGNATURE[..7]).unwrap_err(), FormatError::BadSignature);
    let mut data = png(&[ztxt(b"Description", header())]);
    data[1] = b'Q';
    assert_eq!(parse(&data).unwrap_err(), FormatError::BadSignature);
    assert_eq!(parse(b"GIF89a, not a png at all").unwrap_err(), FormatError::BadSignature);
}

#[test]
fn round_trip_through_compressed_chunk() {
    let mut walk = state("walk");
    walk.direction_count = 4;
    walk.frame_count = 3;
    walk.frame_delays = vec![
        Delay { units: 1, decimals: 0 },
        Delay { units: 15, decimals: 1 },
        Delay { units: 2, decimals: 0 },
    ];
    walk.loop_count = 2;
    walk.rewinds = true;
    let mut idle = state("idle");
    idle.direction_count = 8;
    let file = IconFile {
        version: "4.0".to_string(),
        cell_width: 32,
        cell_height: 48,
        states: vec![idle, walk, state("")],
    };
    let data = png(&[text_chunk(b"Software", "paint"), ztxt(b"Description", &encode(&file))]);
    assert_eq!(parse(&data).unwrap(), file);
}

#[test]
fn delay_count_must_match_frames() {
    let text = format!("{}state = \"walk\"\n\tframes = 3\n\tdelay = 1,1\n", header());
    assert_eq!(parse_metadata(&text).unwrap_err(), FormatError::DelayMismatch(7));
    let later = format!("{}state = \"walk\"\n\tframes = 2\n\tdelay = 1,1\n\tframes = 3\n", header());
    assert_eq!(parse_metadata(&later).unwrap_err(), FormatError::DelayMismatch(8));
}

#[test]
fn state_without_fields_gets_defaults() {
    let text = format!("{}state = \"idle\"\n", header());
    let file = parse_metadata(&text).unwrap();
    assert_eq!(file.states, vec![state("idle")]);
    assert_eq!(file.version, "4.0");
    assert_eq!((file.cell_width, file.cell_height), (32, 32));
}

#[test]
fn six_directions_are_refused() {
    let text = format!("{}state = \"idle\"\n\tdirs = 6\n", header());
    assert_eq!(parse_metadata(&text).unwrap_err(), FormatError::InvalidDirection(6));
    let text = format!("{}state = \"idle\"\n\tdirs = four\n", header());
    assert_eq!(parse_metadata(&text).unwrap_err(), FormatError::InvalidDirection(6));
    for dirs in ["1", "4", "8"] {
        let text = format!("{}state = \"idle\"\n\tdirs = {}\n", header(), dirs);
        let file = parse_metadata(&text).unwrap();
        assert_eq!(file.states[0].direction_count.to_string(), dirs);
    }
}

#[test]
fn other_keyword_chunk_is_skipped() {
    let text = format!("{}state = \"idle\"\n", header());
    let data = png(&[ztxt(b"Software", "not this one"), ztxt(b"Description", &text)]);
    let file = parse(&data).unwrap();
    assert_eq!(file.states, vec![state("idle")]);
}

#[test]
fn namesake_states_are_kept_in_order() {
    let text = format!(
        "{}state = \"idle\"\n\tdirs = 4\nstate = \"idle\"\n\tframes = 2\nstate = \"\"\nstate = \"\"\n",
        header()
    );
    let file = parse_metadata(&text).unwrap();
    let mut first = state("idle");
    first.direction_count = 4;
    let mut second = state("idle");
    second.frame_count = 2;
    assert_eq!(file.states, vec![first, second, state(""), state("")]);
}

#[test]
fn raw_text_chunk_is_read() {
    let text = format!("{}state = \"idle\"\n", header());
    let data = png(&[text_chunk(b"Description", &text)]);
    assert_eq!(parse(&data).unwrap().states, vec![state("idle")]);
}

#[test]
fn new_reads_icon_file() {
    let text = format!("{}state = \"idle\"\n", header());
    let data = png(&[ztxt(b"Description", &text)]);
    assert_eq!(Dmi::new(data).unwrap().states, vec![state("idle")]);
}

#[test]
fn truncated_chunk_is_reported() {
    let mut data = SIGNATURE.to_vec();
    data.extend_from_slice(&[0, 0, 0, 20, b'I', b'H', b'D', b'R', 1, 2, 3]);
    assert_eq!(parse(&data).unwrap_err(), FormatError::Truncated);
    let mut short = SIGNATURE.to_vec();
    short.extend_from_slice(&[0, 0, 0]);
    assert_eq!(parse(&short).unwrap_err(), FormatError::Truncated);
}

#[test]
fn keyword_without_terminator_is_reported() {
    let payload = vec![b'a'; 100];
    let data = png(&[chunk(b"zTXt", &payload)]);
    assert_eq!(parse(&data).unwrap_err(), FormatError::MissingKeywordTerminator);
    let mut late = vec![b'a'; 79];
    late.push(0);
    let data = png(&[chunk(b"tEXt", &late)]);
    assert_eq!(parse(&data).unwrap_err(), FormatError::MissingKeywordTerminator);
}

#[test]
fn unknown_compression_is_reported() {
    let mut payload = b"Description".to_vec();
    payload.push(0);
    payload.push(1);
    payload.extend_from_slice(&compress_to_vec_zlib(header().as_bytes(), 6));
    let data = png(&[chunk(b"zTXt", &payload)]);
    assert_eq!(parse(&data).unwrap_err(), FormatError::UnsupportedCompression);
    let mut bare = b"Description".to_vec();
    bare.push(0);
    let data = png(&[chunk(b"zTXt", &bare)]);
    assert_eq!(parse(&data).unwrap_err(), FormatError::Truncated);
}

#[test]
fn corrupt_stream_is_reported() {
    let mut payload = b"Description".to_vec();
    payload.extend_from_slice(&[0, 0, 1, 2, 3, 4, 5]);
    let data = png(&[chunk(b"zTXt", &payload)]);
    assert_eq!(parse(&data).unwrap_err(), FormatError::DecompressionFailed);
}

#[test]
fn oversized_description_is_reported() {
    let big = vec![b'#'; 64 * 1024 * 1024 + 1];
    let mut payload = b"Description".to_vec();
    payload.extend_from_slice(&[0, 0]);
    payload.extend_from_slice(&compress_to_vec_zlib(&big, 1));
    let data = png(&[chunk(b"zTXt", &payload)]);
    assert_eq!(parse(&data).unwrap_err(), FormatError::DescriptionTooLarge);
}

#[test]
fn invalid_utf8_is_reported() {
    assert_eq!(parse_description(vec![b'a', 0xff, 0xfe]).unwrap_err(), FormatError::InvalidText);
    let mut payload = b"Description".to_vec();
    payload.extend_from_slice(&[0, 0xc3, 0x28]);
    let data = png(&[chunk(b"tEXt", &payload)]);
    assert_eq!(parse(&data).unwrap_err(), FormatError::InvalidText);
}

#[test]
fn grammar_errors_carry_line_numbers() {
    assert_eq!(parse_metadata("width = 32\nheight\n").unwrap_err(), FormatError::MalformedLine(2));
    assert_eq!(parse_metadata("width = 0\n").unwrap_err(), FormatError::InvalidValue(1));
    assert_eq!(parse_metadata("width = 70000\n").unwrap_err(), FormatError::InvalidValue(1));
    assert_eq!(
        parse_metadata("width = 1\nwidth = 2\n").unwrap_err(),
        FormatError::MisplacedField(2)
    );
    assert_eq!(
        parse_metadata("width = 1\nheight = 1\nstate = \"a\"\nheight = 2\n").unwrap_err(),
        FormatError::MisplacedField(4)
    );
    assert_eq!(parse_metadata("dirs = 4\n").unwrap_err(), FormatError::MisplacedField(1));
    assert_eq!(
        parse_metadata("width = 1\nheight = 1\nstate = idle\n").unwrap_err(),
        FormatError::InvalidValue(3)
    );
    assert_eq!(
        parse_metadata("width = 1\nheight = 1\nstate = \"a\"\nframes = 0\n").unwrap_err(),
        FormatError::InvalidValue(4)
    );
    assert_eq!(
        parse_metadata("width = 1\nheight = 1\nstate = \"a\"\nrewind = 2\n").unwrap_err(),
        FormatError::InvalidValue(4)
    );
    assert_eq!(
        parse_metadata("width = 1\nheight = 1\nstate = \"a\"\ndelay = x\n").unwrap_err(),
        FormatError::InvalidValue(4)
    );
    assert_eq!(parse_metadata("version = 4.0\nwidth = 32\n").unwrap_err(), FormatError::MissingDimensions);
}

#[test]
fn fields_overwrite_and_unknown_keys_pass() {
    let text = format!(
        "{}state = \"s\"\r\n\tdirs = 4\n\tdirs = 8\n\tmovement = 1\n\tfuture = yes\n\tframes = 2\n\tdelay = 0.5, 2.\n\tloop = 255\n\trewind = 1\n\n",
        header()
    );
    let file = parse_metadata(&text).unwrap();
    let s = &file.states[0];
    assert_eq!(s.name, "s");
    assert_eq!(s.direction_count, 8);
    assert_eq!(s.frame_count, 2);
    assert_eq!(
        s.frame_delays,
        vec![Delay { units: 5, decimals: 1 }, Delay { units: 2, decimals: 0 }]
    );
    assert_eq!(s.loop_count, 255);
    assert!(s.rewinds);
}

#[test]
fn empty_text_lacks_dimensions() {
    assert_eq!(parse_metadata("").unwrap_err(), FormatError::MissingDimensions);
    let file = parse_metadata("width = 1\nheight = 2").unwrap();
    assert_eq!(file.version, "");
    assert!(file.states.is_empty());
}
