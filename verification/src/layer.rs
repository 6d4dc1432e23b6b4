//! Layers: what is cleared from a root filesystem before it is archived, and the
//! pipeline that compresses the archive and hashes it before and after.

use vstd::prelude::*;
use crate::blob::{
    blob_path, blob_path_text, describe, digest_string, digest_text, Descriptor, DescriptorView,
    MediaType,
};
use crate::digest::{sha256_hex, Buffer, Sha256Writer, Sink, SinkError};
use crate::gzip::{gunzip, gzip_end, gzip_piece, gzip_stream, GzipWriter, COMPRESSION_LEVEL};

verus! {

/// Links in a root filesystem are archived as links, never as what they point to.
pub const FOLLOW_SYMLINKS: bool = false;

/// What an entry of a root filesystem is.
#[derive(Debug, Clone, Copy, PartialEq, Eq)]
pub enum EntryKind {
    File,
    Directory,
    Symlink,
    /// A Unix domain socket, which no archive can hold.
    Socket,
    /// A device, a pipe, or an entry whose kind could not be read.
    Other,
}

/// Whether an entry has to leave the root filesystem before it is archived.
pub open spec fn unarchivable(kind: EntryKind) -> bool {
    kind is Socket
}

/// The positions in `kinds` of the entries that `unarchivable` names, in order.
pub open spec fn removals_of(kinds: Seq<EntryKind>) -> Seq<usize>
    decreases kinds.len(),
{
    if kinds.len() == 0 {
        Seq::empty()
    } else if unarchivable(kinds.last()) {
        removals_of(kinds.drop_last()).push((kinds.len() - 1) as usize)
    } else {
        removals_of(kinds.drop_last())
    }
}

/// Picks from a walk of a root filesystem the entries to delete before it is
/// archived: the sockets, by their positions in the walk, and nothing else.
pub fn removals(kinds: &[EntryKind]) -> (picked: Vec<usize>)
    ensures
        picked@ == removals_of(kinds@),
{
    let mut picked: Vec<usize> = Vec::new();
    let mut i: usize = 0;
    while i < kinds.len()
        invariant
            i <= kinds.len(),
            picked@ == removals_of(kinds@.take(i as int)),
        decreases kinds.len() - i,
    {
        assert(kinds@.take(i + 1).drop_last() == kinds@.take(i as int));
        match kinds[i] {
            EntryKind::Socket => {
                picked.push(i);
            },
            _ => {},
        }
        i = i + 1;
    }
    assert(kinds@.take(i as int) == kinds@);
    picked
}

/// What `removals_of` picks is exactly the sockets: every position it names
/// holds one, every socket is named, and the positions rise.
pub proof fn lemma_removals(kinds: Seq<EntryKind>)
    requires
        kinds.len() <= usize::MAX,
    ensures
        forall|j: int|
            0 <= j < removals_of(kinds).len() ==> (#[trigger] removals_of(kinds)[j]) < kinds.len()
                && kinds[removals_of(kinds)[j] as int] is Socket,
        forall|i: int|
            0 <= i < kinds.len() && (#[trigger] kinds[i]) is Socket ==> removals_of(
                kinds,
            ).contains(i as usize),
        forall|j: int, k: int|
            0 <= j < k < removals_of(kinds).len() ==> (#[trigger] removals_of(kinds)[j]) < (
            #[trigger] removals_of(kinds)[k]),
    decreases kinds.len(),
{
    if kinds.len() > 0 {
        let front = kinds.drop_last();
        lemma_removals(front);
        let last = (kinds.len() - 1) as usize;
        let picked = removals_of(kinds);
        assert forall|i: int| 0 <= i < kinds.len() && (#[trigger] kinds[i]) is Socket implies picked.contains(
            i as usize,
        ) by {
            if i < front.len() {
                assert(front[i] == kinds[i]);
                let j = choose|j: int|
                    0 <= j < removals_of(front).len() && removals_of(front)[j] == i as usize;
                assert(picked[j] == i as usize);
            } else {
                assert(picked[picked.len() - 1] == last);
            }
        }
        assert forall|j: int| 0 <= j < picked.len() implies (#[trigger] picked[j]) < kinds.len()
            && kinds[picked[j] as int] is Socket by {
            if j < removals_of(front).len() {
                assert(picked[j] == removals_of(front)[j]);
                assert(front[picked[j] as int] == kinds[picked[j] as int]);
            }
        }
    }
}

/// A finished layer.
#[derive(Debug, Clone, PartialEq, Eq)]
pub struct Layer {
    /// The handle of the compressed blob.
    pub descriptor: Descriptor,
    /// The digest of the archive before compression, as image configurations
    /// record it.
    pub diff_id: String,
    /// Where the blob lies, relative to the root of the store.
    pub path: String,
}

impl Layer {
    /// The layer whose archive has the hexadecimal digest `diff_hex` and whose
    /// blob has the hexadecimal digest `blob_hex` and is `size` bytes long.
    pub fn new(diff_hex: &str, blob_hex: &str, size: u64) -> (r: Result<Layer, LayerError>)
        ensures
            size > i64::MAX ==> r == Err::<Layer, LayerError>(LayerError::TooLarge),
            size <= i64::MAX ==> r is Ok && {
                let layer = r->Ok_0;
                &&& layer.diff_id@ == digest_text(diff_hex@)
                &&& layer.descriptor@ == (DescriptorView {
                    digest: digest_text(blob_hex@),
                    media_type: MediaType::ImageLayerGzip,
                    size: size as int,
                })
                &&& layer.path@ == blob_path_text(blob_hex@)
            },
    {
        match describe(blob_hex, MediaType::ImageLayerGzip, size) {
            Ok(descriptor) => Ok(
                Layer { descriptor, diff_id: digest_string(diff_hex), path: blob_path(blob_hex) },
            ),
            Err(_) => Err(LayerError::TooLarge),
        }
    }
}

/// What holds of the layer whose archive is `plain` and whose blob is
/// `compressed`: the blob is a gzip file of the archive, with a header and a
/// trailer at least; the diff id is the digest of the archive; the descriptor
/// and the path hold the digest of the blob, and the descriptor its length.
/// Each digest has 64 hexadecimal digits.
pub open spec fn layer_of(layer: Layer, plain: Seq<u8>, compressed: Seq<u8>) -> bool {
    &&& gunzip(compressed) == Some(plain)
    &&& compressed.len() >= 18
    &&& sha256_hex(plain).len() == 64
    &&& sha256_hex(compressed).len() == 64
    &&& layer.diff_id@ == digest_text(sha256_hex(plain))
    &&& layer.descriptor@ == (DescriptorView {
        digest: digest_text(sha256_hex(compressed)),
        media_type: MediaType::ImageLayerGzip,
        size: compressed.len() as int,
    })
    &&& layer.path@ == blob_path_text(sha256_hex(compressed))
}

/// Why no layer came out.
#[derive(Debug, Clone, Copy, PartialEq, Eq)]
pub enum LayerError {
    /// The compressor reported a failure.
    Compression,
    /// The blob is longer than a descriptor's size can say.
    TooLarge,
}

/// The pipeline of a layer, from the archive to the blob: a digest writer, the
/// compressor under it, a second digest writer under that, and a buffer at the
/// bottom. Archive bytes go in at the top in any number of pieces; the bytes of
/// the blob come out piece by piece, to be stored in that order.
pub struct LayerBuilder {
    pipeline: Sha256Writer<GzipWriter<Sha256Writer<Buffer>>>,
    size: u64,
}

impl LayerBuilder {
    /// What has been handed out is counted, nothing waits in the pipeline,
    /// and each of its sinks holds only what came through the one above.
    #[verifier::type_invariant]
    spec fn counted(self) -> bool {
        &&& self.size == self.pipeline.handed_out().len()
        &&& self.pipeline.waiting().len() == 0
        &&& self.pipeline.in_step()
    }

    /// The pieces of the archive taken in so far, in order.
    pub closed spec fn pieces(&self) -> Seq<Seq<u8>> {
        self.pipeline.inner().pieces()
    }

    /// The archive bytes taken in so far.
    pub closed spec fn plain(&self) -> Seq<u8> {
        self.pipeline.written()
    }

    /// The blob bytes handed out so far.
    pub closed spec fn compressed(&self) -> Seq<u8> {
        self.pipeline.handed_out()
    }

    /// A pipeline through which nothing has passed.
    pub fn new() -> (builder: LayerBuilder)
        ensures
            builder.pieces() == Seq::<Seq<u8>>::empty(),
            builder.plain() == Seq::<u8>::empty(),
            builder.compressed() == Seq::<u8>::empty(),
    {
        let compressor = GzipWriter::new(Sha256Writer::new(Buffer::new()));
        assert(compressor.plain() =~= Seq::<u8>::empty());
        let pipeline = Sha256Writer::new(compressor);
        LayerBuilder { pipeline, size: 0 }
    }

    /// Takes the next piece of the archive and hands out the blob bytes that
    /// the compressor gives out for it, which may be none. Fails where the
    /// compressor does not take the piece, or where more bytes come out than
    /// can be counted.
    pub fn write(self, chunk: &[u8]) -> (r: Result<(LayerBuilder, Vec<u8>), LayerError>)
        ensures
            match gzip_piece(COMPRESSION_LEVEL, self.pieces(), chunk@) {
                None => r matches Err(LayerError::Compression),
                Some(out) => if self.compressed().len() + out.len() > u64::MAX {
                    r matches Err(LayerError::TooLarge)
                } else {
                    &&& r matches Ok((builder, given))
                    &&& given@ == out
                    &&& builder.pieces() == self.pieces().push(chunk@)
                    &&& builder.plain() == self.plain() + chunk@
                    &&& builder.compressed() == self.compressed() + out
                },
            },
            r matches Err(LayerError::TooLarge) ==> gzip_piece(
                COMPRESSION_LEVEL,
                self.pieces(),
                chunk@,
            ) matches Some(out) && out.len() <= usize::MAX,
    {
        proof {
            use_type_invariant(&self);
        }
        LayerBuilder::after_write(self.size, self.pipeline.put(chunk))
    }

    /// Takes the pipeline's answer to a piece of the archive. Where the
    /// pipeline took the piece, the bytes that wait at its bottom are handed
    /// out and counted, unless there are more of them than can be counted.
    ///
    /// `size` is the number of bytes that the pipeline has handed out.
    pub fn after_write(
        size: u64,
        outcome: Result<Sha256Writer<GzipWriter<Sha256Writer<Buffer>>>, SinkError>,
    ) -> (r: Result<(LayerBuilder, Vec<u8>), LayerError>)
        requires
            outcome matches Ok(pipeline) ==> size == pipeline.handed_out().len()
                && pipeline.in_step(),
        ensures
            outcome is Err ==> r matches Err(LayerError::Compression),
            outcome matches Ok(pipeline) ==> if size + pipeline.waiting().len() > u64::MAX {
                r matches Err(LayerError::TooLarge)
            } else {
                &&& r matches Ok((builder, given))
                &&& given@ == pipeline.waiting()
                &&& builder.pieces() == pipeline.inner().pieces()
                &&& builder.plain() == pipeline.written()
                &&& builder.compressed() == pipeline.handed_out() + given@
            },
            r matches Err(LayerError::TooLarge) ==> outcome matches Ok(pipeline)
                && pipeline.waiting().len() <= usize::MAX,
    {
        match outcome {
            Ok(pipeline) => {
                let (pipeline, given) = pipeline.drain();
                match size.checked_add(given.len() as u64) {
                    Some(size) => Ok((LayerBuilder { pipeline, size }, given)),
                    None => Err(LayerError::TooLarge),
                }
            },
            Err(_) => Err(LayerError::Compression),
        }
    }

    /// Ends the archive. Hands out the last bytes of the blob, and the layer:
    /// the digest of all archive bytes as its diff id, and the digest and the
    /// length of all blob bytes in its descriptor and its path. Fails where
    /// the compressor does not end its stream, or where the blob is longer
    /// than a descriptor's size can say.
    pub fn finish(self) -> (r: Result<(Layer, Vec<u8>), LayerError>)
        ensures
            match gzip_end(COMPRESSION_LEVEL, self.pieces()) {
                None => r matches Err(LayerError::Compression),
                Some(end) => if self.compressed().len() + end.len() > i64::MAX {
                    r matches Err(LayerError::TooLarge)
                } else {
                    &&& r matches Ok((layer, tail))
                    &&& tail@ == end
                    &&& layer_of(layer, self.plain(), self.compressed() + end)
                },
            },
    {
        proof {
            use_type_invariant(&self);
        }
        let (diff_hex, compressor) = self.pipeline.finish();
        let outcome = compressor.finish();
        proof {
            if outcome is Ok {
                let end = gzip_end(COMPRESSION_LEVEL, self.pieces())->Some_0;
                let writer = outcome->Ok_0;
                assert(writer.waiting() =~= end);
                assert(writer.accepted() =~= compressor.compressed() + end);
            }
        }
        LayerBuilder::after_finish(self.size, diff_hex, outcome)
    }

    /// Takes the compressor's answer to the end of the archive. Where the
    /// compressor ended its stream, the second digest writer under it has seen
    /// the whole blob: what was handed out before and what still waits. The
    /// layer is named after its digest, unless the blob is longer than a
    /// descriptor's size can say.
    ///
    /// `size` is the number of bytes that the writer has handed out, and
    /// `diff_hex` the hexadecimal digest of the archive.
    pub fn after_finish(
        size: u64,
        diff_hex: String,
        outcome: Result<Sha256Writer<Buffer>, SinkError>,
    ) -> (r: Result<(Layer, Vec<u8>), LayerError>)
        requires
            outcome matches Ok(writer) ==> size == writer.handed_out().len() && writer.in_step(),
        ensures
            outcome is Err ==> r matches Err(LayerError::Compression),
            outcome matches Ok(writer) ==> if writer.handed_out().len() + writer.waiting().len()
                > i64::MAX {
                r matches Err(LayerError::TooLarge)
            } else {
                &&& r matches Ok((layer, tail))
                &&& tail@ == writer.waiting()
                &&& writer.written() == writer.handed_out() + tail@
                &&& sha256_hex(writer.written()).len() == 64
                &&& layer.diff_id@ == digest_text(diff_hex@)
                &&& layer.descriptor@ == (DescriptorView {
                    digest: digest_text(sha256_hex(writer.written())),
                    media_type: MediaType::ImageLayerGzip,
                    size: writer.written().len() as int,
                })
                &&& layer.path@ == blob_path_text(sha256_hex(writer.written()))
            },
    {
        match outcome {
            Ok(writer) => {
                let (blob_hex, buffer) = writer.finish();
                let (_, tail) = buffer.drain();
                proof {
                    buffer.lemma_accepted();
                    assert(buffer.accepted() =~= writer.written());
                    assert(writer.waiting() == tail@);
                    assert(writer.written() == writer.handed_out() + tail@);
                    assert(writer.written().len() == size + tail@.len());
                }
                match size.checked_add(tail.len() as u64) {
                    Some(size) => match Layer::new(diff_hex.as_str(), blob_hex.as_str(), size) {
                        Ok(layer) => Ok((layer, tail)),
                        Err(e) => Err(e),
                    },
                    None => Err(LayerError::TooLarge),
                }
            },
            Err(_) => Err(LayerError::Compression),
        }
    }
}

/// Builds the layer of an archive that is held in memory: compresses it in one
/// piece and hashes it before and after in one pass. Hands back the layer and
/// the bytes of its blob, which are the gzip stream of the archive.
pub fn create_image_layer(archive: &[u8]) -> (r: Result<(Layer, Vec<u8>), LayerError>)
    ensures
        match gzip_stream(COMPRESSION_LEVEL, archive@) {
            Some(stream) => if stream.len() <= i64::MAX {
                &&& r matches Ok((layer, blob))
                &&& blob@ == stream
                &&& layer_of(layer, archive@, stream)
            } else {
                r matches Err(LayerError::TooLarge)
            },
            None => r matches Err(LayerError::Compression),
        },
{
    let start = LayerBuilder::new();
    assert(start.pieces().push(archive@) =~= seq![archive@]);
    match start.write(archive) {
        Ok((builder, head)) => match builder.finish() {
            Ok((layer, tail)) => {
                let ghost whole = builder.compressed() + tail@;
                let mut blob = head;
                let mut tail = tail;
                blob.append(&mut tail);
                assert(builder.plain() =~= archive@);
                assert(builder.compressed() =~= head@);
                assert(blob@ =~= whole);
                Ok((layer, blob))
            },
            Err(e) => Err(e),
        },
        Err(e) => Err(e),
    }
}

} // verus!
