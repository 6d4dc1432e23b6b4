use rpmoci::digest::{Buffer, Sha256Writer, Sink, SinkError};
use rpmoci::gzip::{hand_on, GzipWriter, COMPRESSION_LEVEL};
use std::io::Read;

fn gunzip(stream: &[u8]) -> Vec<u8> {
    let mut plain = Vec::new();
    flate2::read::GzDecoder::new(stream).read_to_end(&mut plain).unwrap();
    plain
}

#[test]
fn compressed_stream_decodes_to_what_went_in() {
    let writer = GzipWriter::new(Buffer::new());
    let writer = writer.put(b"hello ").unwrap();
    let writer = writer.put(b"world").unwrap();
    let buffer = writer.finish().unwrap();
    let (_, stream) = buffer.drain();
    assert_eq!(gunzip(&stream), b"hello world");
    assert_eq!(&stream[..2], &[0x1f, 0x8b]);
}

#[test]
fn drained_pieces_make_the_stream() {
    let input: Vec<u8> = (0..200_000u32).map(|i| (i % 7 + i / 1000) as u8).collect();
    let mut writer = GzipWriter::new(Buffer::new());
    let mut stream = Vec::new();
    for chunk in input.chunks(10_000) {
        let (next, out) = writer.put(chunk).unwrap().drain();
        stream.extend_from_slice(&out);
        writer = next;
    }
    let (_, tail) = writer.finish().unwrap().drain();
    stream.extend_from_slice(&tail);
    assert_eq!(gunzip(&stream), input);
    assert!(stream.len() < input.len());
}

#[test]
fn nothing_compresses_to_an_empty_file() {
    let (_, stream) = GzipWriter::new(Buffer::new()).finish().unwrap().drain();
    assert!(!stream.is_empty());
    assert_eq!(gunzip(&stream), b"");
}

#[test]
fn layers_are_compressed_fast() {
    assert_eq!(COMPRESSION_LEVEL, 1);
}

#[test]
fn what_the_compressor_gave_is_handed_on() {
    let buffer = hand_on(Buffer::new(), Ok(vec![1, 2, 3])).unwrap();
    let buffer = hand_on(buffer, Ok(Vec::new())).unwrap();
    let buffer = hand_on(buffer, Ok(vec![4])).unwrap();
    assert_eq!(buffer.drain().1, vec![1, 2, 3, 4]);
}

#[test]
fn failed_compression_hands_nothing_on() {
    let failure = std::io::Error::new(std::io::ErrorKind::InvalidInput, "corrupt deflate stream");
    assert_eq!(hand_on(Buffer::new(), Err(failure)).err(), Some(SinkError::Compression));
    let failure = std::io::Error::new(std::io::ErrorKind::WriteZero, "no progress");
    let writer = Sha256Writer::new(Buffer::new());
    assert_eq!(hand_on(writer, Err(failure)).err(), Some(SinkError::Compression));
}

#[test]
fn compressor_over_a_used_sink_appends_its_stream() {
    let buffer = Buffer::new().put(b"head").unwrap();
    let writer = GzipWriter::new(buffer).put(b"hello world").unwrap();
    let (_, stream) = writer.finish().unwrap().drain();
    assert_eq!(&stream[..4], b"head");
    assert_eq!(gunzip(&stream[4..]), b"hello world");
    assert!(stream.len() >= 4 + 18);
}
