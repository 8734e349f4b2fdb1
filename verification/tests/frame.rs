use mp3::frame::{Delivery, Frame, FrameReader, ScanState, HEADER_LEN};
use mp3::header::{parse_frame_header, Bitrate, FrameHeader, Layer};
use mp3::{HeaderError, Mp3Error};

// One frame: the header and a payload that is as long as the header says,
// filled with bytes that tell the frames and their positions apart.
fn frame_bytes(header: [u8; 4], seed: u8) -> Vec<u8> {
    let size = parse_frame_header(&header).unwrap().frame_size().unwrap();
    let mut bytes = header.to_vec();
    bytes.extend((0..size - 4).map(|i| (i as u8).wrapping_mul(31).wrapping_add(seed) & 0x7f));
    bytes
}

const H128: [u8; 4] = [0xff, 0xfb, 0x90, 0x00];
const H32: [u8; 4] = [0xff, 0xfb, 0x14, 0x00];
const H32_PADDED: [u8; 4] = [0xff, 0xfb, 0x16, 0x00];
const LAYER_ONE: [u8; 4] = [0xff, 0xff, 0x14, 0x00];
const FREE: [u8; 4] = [0xff, 0xfb, 0x00, 0x00];

fn header_of(bytes: [u8; 4]) -> FrameHeader {
    parse_frame_header(&bytes).unwrap()
}

fn frame(r: Result<Option<Frame>, Mp3Error>) -> Frame {
    match r {
        Ok(Some(frame)) => frame,
        Ok(None) => panic!("expected a frame, got the end"),
        Err(e) => panic!("expected a frame, got {:?}", e),
    }
}

fn is_end(r: Result<Option<Frame>, Mp3Error>) -> bool {
    matches!(r, Ok(None))
}

fn error(r: Result<Option<Frame>, Mp3Error>) -> Option<Mp3Error> {
    r.err()
}

#[test]
fn header_length() {
    assert_eq!(HEADER_LEN, 4);
}

#[test]
fn empty_stream_ends_at_once() {
    let mut reader = FrameReader::new(&[]);
    assert!(!reader.is_exhausted());
    assert!(is_end(reader.next_frame()));
    assert!(reader.is_exhausted());
    assert!(is_end(reader.next_frame()));
}

#[test]
fn one_frame_then_the_end() {
    let stream = frame_bytes(H128, 7);
    assert_eq!(stream.len(), 417);
    let mut reader = FrameReader::new(&stream);
    let first = frame(reader.next_frame());
    assert_eq!(*first.header(), header_of(H128));
    assert_eq!(first.data(), &stream[4..]);
    assert_eq!(first.data().len(), 413);
    assert!(!reader.is_exhausted());
    assert_eq!(reader.unread().len(), 0);
    assert!(is_end(reader.next_frame()));
    assert!(reader.is_exhausted());
}

#[test]
fn consecutive_frames_come_out_in_order() {
    let headers = [H128, H32, H32_PADDED, LAYER_ONE, H128, H32];
    let frames: Vec<Vec<u8>> =
        headers.iter().enumerate().map(|(i, h)| frame_bytes(*h, i as u8)).collect();
    let stream: Vec<u8> = frames.concat();
    let mut reader = FrameReader::new(&stream);
    let mut consumed = 0;
    for (i, bytes) in frames.iter().enumerate() {
        let got = frame(reader.next_frame());
        assert_eq!(*got.header(), header_of(headers[i]));
        assert_eq!(got.data(), &bytes[4..]);
        assert_eq!(HEADER_LEN + got.data().len(), got.header().frame_size().unwrap());
        consumed += got.header().frame_size().unwrap();
        assert_eq!(reader.unread().len(), stream.len() - consumed);
        assert_eq!(reader.unread(), &stream[consumed..]);
        assert!(!reader.is_exhausted());
    }
    assert!(is_end(reader.next_frame()));
    assert_eq!(consumed, stream.len());
    assert_eq!(consumed, 417 + 96 + 97 + 32 + 417 + 96);
    assert!(reader.is_exhausted());
}

#[test]
fn many_frames_are_counted() {
    let one = frame_bytes(H32, 3);
    let n = 500;
    let stream: Vec<u8> = one.iter().cloned().cycle().take(n * one.len()).collect();
    let mut reader = FrameReader::new(&stream);
    let mut count = 0;
    while let Some(got) = reader.next_frame().unwrap() {
        assert_eq!(got.data(), &one[4..]);
        count += 1;
    }
    assert_eq!(count, n);
    assert_eq!(reader.unread().len(), 0);
}

#[test]
fn two_leftover_bytes_are_truncated() {
    let mut stream = frame_bytes(H128, 1);
    stream.extend_from_slice(&frame_bytes(H32, 2));
    stream.extend_from_slice(&[0xff, 0xfb]);
    let mut reader = FrameReader::new(&stream);
    frame(reader.next_frame());
    frame(reader.next_frame());
    assert_eq!(reader.unread(), &[0xff, 0xfb]);
    assert_eq!(error(reader.next_frame()), Some(Mp3Error::Truncated));
    assert!(reader.is_exhausted());
}

#[test]
fn one_to_three_leftover_bytes_are_truncated() {
    for extra in 1..4 {
        let mut stream = frame_bytes(H32, 9);
        stream.extend_from_slice(&[0xff, 0xfb, 0x90][..extra]);
        let mut reader = FrameReader::new(&stream);
        frame(reader.next_frame());
        assert_eq!(error(reader.next_frame()), Some(Mp3Error::Truncated));
    }
    for len in 1..4 {
        let mut reader = FrameReader::new(&[0, 0, 0][..len]);
        assert_eq!(error(reader.next_frame()), Some(Mp3Error::Truncated));
    }
}

#[test]
fn short_payload_is_truncated() {
    let whole = frame_bytes(H128, 5);
    for len in [4, 5, 200, 416] {
        let mut reader = FrameReader::new(&whole[..len]);
        assert_eq!(error(reader.next_frame()), Some(Mp3Error::Truncated));
        assert!(reader.is_exhausted());
        // nothing was consumed
        assert_eq!(reader.unread().len(), len);
    }
}

#[test]
fn invalid_header_stops_the_scan() {
    let mut stream = frame_bytes(H32, 1);
    stream.extend_from_slice(&[0x00, 0x01, 0x02, 0x03, 0x04]);
    stream.extend_from_slice(&frame_bytes(H32, 2));
    let mut reader = FrameReader::new(&stream);
    frame(reader.next_frame());
    assert_eq!(
        error(reader.next_frame()),
        Some(Mp3Error::InvalidHeader(HeaderError::BadSync))
    );
    assert!(reader.is_exhausted());
    // no resynchronisation: the frame behind the bad bytes is never given
    assert!(is_end(reader.next_frame()));
    assert!(is_end(reader.next_frame()));
}

#[test]
fn each_header_error_is_passed_on() {
    let cases: [([u8; 4], HeaderError); 4] = [
        ([0xff, 0x1b, 0x90, 0x00], HeaderError::BadSync),
        ([0xff, 0xf9, 0x90, 0x00], HeaderError::BadLayer),
        ([0xff, 0xfb, 0xf0, 0x00], HeaderError::BadBitrate),
        ([0xff, 0xfb, 0x9c, 0x00], HeaderError::BadSamplingRate),
    ];
    for (bytes, e) in cases {
        let mut stream = bytes.to_vec();
        stream.extend_from_slice(&[0; 600]);
        let mut reader = FrameReader::new(&stream);
        assert_eq!(error(reader.next_frame()), Some(Mp3Error::InvalidHeader(e)));
    }
}

#[test]
fn free_format_is_unsupported() {
    let mut stream = FREE.to_vec();
    stream.extend_from_slice(&[0; 600]);
    let mut reader = FrameReader::new(&stream);
    assert_eq!(error(reader.next_frame()), Some(Mp3Error::UnsupportedFreeFormat));
    assert!(reader.is_exhausted());
    assert!(is_end(reader.next_frame()));
}

#[test]
fn payload_is_a_copy_of_the_stream() {
    // more than the 256 bytes that a payload holds in place, and fewer
    let long = frame_bytes(H128, 11);
    let short = frame_bytes(LAYER_ONE, 12);
    assert!(long.len() - 4 > 256 && short.len() - 4 < 256);
    let stream = [long.clone(), short.clone()].concat();
    let (first, second) = {
        let mut reader = FrameReader::new(&stream);
        (frame(reader.next_frame()), frame(reader.next_frame()))
    };
    drop(stream);
    assert_eq!(first.data(), &long[4..]);
    assert_eq!(second.data(), &short[4..]);
    assert_eq!(second.data().len(), 28);
    assert_eq!(second.header().layer(), Layer::LayerI);
    assert_eq!(first.header().bitrate(), Bitrate::Indexed(128));
    assert!(first.data() != &long[..413]);
}

#[test]
fn scan_state_starts_from_either_state() {
    assert!(!ScanState::Scanning.is_exhausted());
    assert!(ScanState::Exhausted.is_exhausted());
}

#[test]
fn header_read_of_nothing_is_the_clean_end() {
    let mut state = ScanState::Scanning;
    assert!(matches!(state.header_read(Delivery::Bytes(&[])), Ok(None)));
    assert_eq!(state, ScanState::Exhausted);
}

#[test]
fn header_read_of_a_failed_source_is_io() {
    let mut state = ScanState::Scanning;
    assert_eq!(state.header_read(Delivery::Failed).err(), Some(Mp3Error::Io));
    assert_eq!(state, ScanState::Exhausted);
}

#[test]
fn header_read_asks_for_the_payload() {
    let mut state = ScanState::Scanning;
    let (header, want) = state.header_read(Delivery::Bytes(&H128)).unwrap().unwrap();
    assert_eq!(header, header_of(H128));
    assert_eq!(want, 413);
    assert_eq!(state, ScanState::Scanning);
    let (_, want) = state.header_read(Delivery::Bytes(&H32_PADDED)).unwrap().unwrap();
    assert_eq!(want, 93);
}

#[test]
fn header_read_fails_on_a_short_or_bad_header() {
    let mut state = ScanState::Scanning;
    assert_eq!(state.header_read(Delivery::Bytes(&[0xff, 0xfb])).err(), Some(Mp3Error::Truncated));
    assert_eq!(state, ScanState::Exhausted);
    let mut state = ScanState::Scanning;
    assert_eq!(
        state.header_read(Delivery::Bytes(&[0xff, 0xf9, 0x90, 0x00])).err(),
        Some(Mp3Error::InvalidHeader(HeaderError::BadLayer))
    );
    assert_eq!(state, ScanState::Exhausted);
    let mut state = ScanState::Scanning;
    assert_eq!(
        state.header_read(Delivery::Bytes(&FREE)).err(),
        Some(Mp3Error::UnsupportedFreeFormat)
    );
    assert_eq!(state, ScanState::Exhausted);
}

#[test]
fn exhausted_state_answers_with_the_end() {
    let mut state = ScanState::Exhausted;
    assert!(matches!(state.header_read(Delivery::Bytes(&H128)), Ok(None)));
    assert!(matches!(state.header_read(Delivery::Failed), Ok(None)));
    assert!(matches!(state.payload_read(header_of(H128), Delivery::Bytes(&[0; 413])), Ok(None)));
    assert!(matches!(state.payload_read(header_of(H128), Delivery::Failed), Ok(None)));
    assert_eq!(state, ScanState::Exhausted);
}

#[test]
fn payload_read_makes_the_frame() {
    let bytes = frame_bytes(H32, 21);
    let mut state = ScanState::Scanning;
    let got = frame(state.payload_read(header_of(H32), Delivery::Bytes(&bytes[4..])));
    assert_eq!(got.data(), &bytes[4..]);
    assert_eq!(*got.header(), header_of(H32));
    assert_eq!(state, ScanState::Scanning);
}

#[test]
fn payload_read_takes_no_more_than_the_header_asks_for() {
    let mut bytes = frame_bytes(H32, 22);
    bytes.extend_from_slice(&[0xaa; 10]);
    let mut state = ScanState::Scanning;
    let got = frame(state.payload_read(header_of(H32), Delivery::Bytes(&bytes[4..])));
    assert_eq!(got.data(), &bytes[4..96]);
}

#[test]
fn payload_read_fails_on_a_short_or_failed_delivery() {
    let mut state = ScanState::Scanning;
    assert_eq!(
        error(state.payload_read(header_of(H32), Delivery::Bytes(&[0; 91]))),
        Some(Mp3Error::Truncated)
    );
    assert_eq!(state, ScanState::Exhausted);
    let mut state = ScanState::Scanning;
    assert_eq!(
        error(state.payload_read(header_of(H32), Delivery::Failed)),
        Some(Mp3Error::Io)
    );
    assert_eq!(state, ScanState::Exhausted);
    let mut state = ScanState::Scanning;
    assert_eq!(
        error(state.payload_read(header_of(FREE), Delivery::Bytes(&[0; 500]))),
        Some(Mp3Error::UnsupportedFreeFormat)
    );
    assert_eq!(state, ScanState::Exhausted);
}

#[test]
fn tag_then_frames_end_to_end() {
    let mut file = vec![b'I', b'D', b'3', 3, 0, 0, 0, 0, 0, 10];
    file.extend_from_slice(&[0x55; 10]);
    let frames = [frame_bytes(H128, 1), frame_bytes(H32, 2), frame_bytes(H128, 3)];
    for bytes in &frames {
        file.extend_from_slice(bytes);
    }
    let audio = mp3::trim_data(&file).unwrap();
    let mut reader = FrameReader::new(audio);
    let mut sizes = Vec::new();
    while let Some(got) = reader.next_frame().unwrap() {
        sizes.push(got.header().frame_size().unwrap());
    }
    assert_eq!(sizes, vec![417, 96, 417]);
}
