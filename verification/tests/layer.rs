use rpmoci::blob::MediaType;
use rpmoci::digest::{Buffer, Sha256Writer, Sink, SinkError};
use rpmoci::gzip::GzipWriter;
use rpmoci::blob::Descriptor;
use rpmoci::layer::{
    create_image_layer, removals, EntryKind, Layer, LayerBuilder, LayerError, FOLLOW_SYMLINKS,
};
use sha2::Digest;
use std::io::Read;

fn gunzip(blob: &[u8]) -> Vec<u8> {
    let mut plain = Vec::new();
    flate2::read::GzDecoder::new(blob).read_to_end(&mut plain).unwrap();
    plain
}

fn sha256_hex(data: &[u8]) -> String {
    sha2::Sha256::digest(data).iter().map(|b| format!("{:02x}", b)).collect()
}

fn sample(len: usize) -> Vec<u8> {
    (0..len).map(|i| (i * 31 % 251) as u8).collect()
}

#[test]
fn layer_has_both_digests() {
    let archive = sample(100_000);
    let (layer, blob) = create_image_layer(&archive).unwrap();
    assert_eq!(gunzip(&blob), archive);
    assert_eq!(layer.diff_id, format!("sha256:{}", sha256_hex(&archive)));
    assert_eq!(layer.descriptor.digest, format!("sha256:{}", sha256_hex(&blob)));
    assert_eq!(layer.descriptor.size, blob.len() as i64);
    assert!(layer.descriptor.size >= 18);
    assert_eq!(layer.descriptor.digest.len(), "sha256:".len() + 64);
    assert_eq!(layer.diff_id.len(), "sha256:".len() + 64);
    assert_eq!(layer.descriptor.media_type, MediaType::ImageLayerGzip);
    assert_eq!(layer.path, format!("blobs/sha256/{}", sha256_hex(&blob)));
}

#[test]
fn diff_id_of_a_known_archive() {
    let (layer, blob) = create_image_layer(b"hello layer").unwrap();
    assert_eq!(
        layer.diff_id,
        "sha256:f7c29f8fe34e77a4bc879afe7d1d475c3baa4d20111562eb65a4753a3630f37f"
    );
    assert_eq!(gunzip(&blob), b"hello layer");
    assert_ne!(blob, b"hello layer");
}

#[test]
fn empty_archive_is_a_layer() {
    let (layer, blob) = create_image_layer(b"").unwrap();
    assert_eq!(
        layer.diff_id,
        "sha256:e3b0c44298fc1c149afbf4c8996fb92427ae41e4649b934ca495991b7852b855"
    );
    assert!(!blob.is_empty());
    assert_eq!(gunzip(&blob), b"");
    assert_eq!(layer.descriptor.digest, format!("sha256:{}", sha256_hex(&blob)));
}

#[test]
fn pieces_give_the_layer_of_the_whole() {
    let archive = sample(300_000);
    let mut builder = LayerBuilder::new();
    let mut blob = Vec::new();
    for chunk in archive.chunks(4096) {
        let (next, out) = builder.write(chunk).unwrap();
        blob.extend_from_slice(&out);
        builder = next;
    }
    let (layer, tail) = builder.finish().unwrap();
    blob.extend_from_slice(&tail);
    assert_eq!(gunzip(&blob), archive);
    assert_eq!(layer.diff_id, format!("sha256:{}", sha256_hex(&archive)));
    assert_eq!(layer.descriptor.digest, format!("sha256:{}", sha256_hex(&blob)));
    assert_eq!(layer.descriptor.size, blob.len() as i64);
    assert_eq!(layer.path, format!("blobs/sha256/{}", sha256_hex(&blob)));
}

#[test]
fn same_archive_gives_the_same_layer() {
    let archive = sample(10_000);
    assert_eq!(create_image_layer(&archive).unwrap(), create_image_layer(&archive).unwrap());
}

#[test]
fn same_pieces_give_the_same_blob() {
    let archive = sample(50_000);
    let build = || {
        let mut builder = LayerBuilder::new();
        let mut blob = Vec::new();
        for chunk in archive.chunks(7000) {
            let (next, out) = builder.write(chunk).unwrap();
            blob.extend_from_slice(&out);
            builder = next;
        }
        let (layer, tail) = builder.finish().unwrap();
        blob.extend_from_slice(&tail);
        (layer, blob)
    };
    assert_eq!(build(), build());
}

#[test]
fn failed_pipeline_gives_no_layer() {
    assert_eq!(
        LayerBuilder::after_write(0, Err(SinkError::Compression)).err(),
        Some(LayerError::Compression)
    );
    assert_eq!(
        LayerBuilder::after_finish(0, "aa".to_string(), Err(SinkError::Compression)).err(),
        Some(LayerError::Compression)
    );
}

#[test]
fn what_waits_in_the_pipeline_is_handed_out() {
    let pipeline = Sha256Writer::new(GzipWriter::new(Sha256Writer::new(Buffer::new())));
    let (builder, head) = LayerBuilder::after_write(0, pipeline.put(b"hello layer")).ok().unwrap();
    let (layer, tail) = builder.finish().unwrap();
    let mut blob = head;
    blob.extend_from_slice(&tail);
    assert_eq!(gunzip(&blob), b"hello layer");
    assert_eq!(layer, create_image_layer(b"hello layer").unwrap().0);
}

#[test]
fn finished_writer_names_the_layer() {
    let writer = Sha256Writer::new(Buffer::new()).put(b"abc").unwrap();
    let (layer, tail) = LayerBuilder::after_finish(0, "aa".to_string(), Ok(writer)).unwrap();
    assert_eq!(tail, b"abc");
    assert_eq!(layer.diff_id, "sha256:aa");
    assert_eq!(
        layer.descriptor,
        Descriptor {
            digest: "sha256:ba7816bf8f01cfea414140de5dae2223b00361a396177a9cb410ff61f20015ad"
                .to_string(),
            media_type: MediaType::ImageLayerGzip,
            size: 3,
        }
    );
    assert_eq!(
        layer.path,
        "blobs/sha256/ba7816bf8f01cfea414140de5dae2223b00361a396177a9cb410ff61f20015ad"
    );
}

#[test]
fn drained_bytes_count_towards_the_size() {
    let writer = Sha256Writer::new(Buffer::new()).put(b"ab").unwrap();
    let (writer, first) = writer.drain();
    assert_eq!(first, b"ab");
    let writer = writer.put(b"c").unwrap();
    let (layer, tail) = LayerBuilder::after_finish(2, "aa".to_string(), Ok(writer)).unwrap();
    assert_eq!(tail, b"c");
    assert_eq!(layer.descriptor.size, 3);
}

#[test]
fn sockets_are_picked_and_nothing_else() {
    let kinds = [
        EntryKind::Directory,
        EntryKind::Socket,
        EntryKind::File,
        EntryKind::Symlink,
        EntryKind::Socket,
        EntryKind::Other,
    ];
    assert_eq!(removals(&kinds), vec![1, 4]);
    assert_eq!(removals(&[]), Vec::<usize>::new());
    assert_eq!(removals(&[EntryKind::File, EntryKind::Symlink]), Vec::<usize>::new());
    assert_eq!(removals(&[EntryKind::Socket]), vec![0]);
}

#[test]
fn links_are_not_followed() {
    assert!(!FOLLOW_SYMLINKS);
}

#[test]
fn layer_is_made_of_two_digests_and_a_size() {
    assert_eq!(
        Layer::new("aa", "bb", 7),
        Ok(Layer {
            descriptor: Descriptor {
                digest: "sha256:bb".to_string(),
                media_type: MediaType::ImageLayerGzip,
                size: 7,
            },
            diff_id: "sha256:aa".to_string(),
            path: "blobs/sha256/bb".to_string(),
        })
    );
    assert_eq!(Layer::new("aa", "bb", u64::MAX), Err(LayerError::TooLarge));
    assert_eq!(Layer::new("aa", "bb", i64::MAX as u64 + 1), Err(LayerError::TooLarge));
}
