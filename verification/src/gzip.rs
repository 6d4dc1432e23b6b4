//! The gzip compressor as a sink that hands its output on to another sink.

use vstd::prelude::*;
use crate::digest::{Sink, SinkError};

verus! {

/// The level at which layers are compressed: the fastest that compresses.
pub const COMPRESSION_LEVEL: u32 = 1;

/// `std::io::Error`, in which the encoder reports a failure.
#[verifier::external_type_specification]
#[verifier::external_body]
pub struct ExIoError(std::io::Error);

/// A streaming gzip encoder of the `flate2` crate, which collects its output
/// in memory until it is asked for.
#[verifier::external_body]
pub struct Encoder {
    state: flate2::write::GzEncoder<Vec<u8>>,
}

/// The level that an encoder was made with.
pub uninterp spec fn level_of(encoder: Encoder) -> u32;

/// The pieces that an encoder has taken since it was made, in order.
pub uninterp spec fn pieces(encoder: Encoder) -> Seq<Seq<u8>>;

/// The compressed bytes that an encoder has given out since it was made,
/// collected from it or not.
pub uninterp spec fn emitted(encoder: Encoder) -> Seq<u8>;

/// The compressed bytes that an encoder has given out and that have not been
/// collected from it.
pub uninterp spec fn held(encoder: Encoder) -> Seq<u8>;

/// What an encoder of the given level gives out when it takes `piece` after
/// the pieces `before`, where it takes it.
pub uninterp spec fn gzip_piece(level: u32, before: Seq<Seq<u8>>, piece: Seq<u8>) -> Option<
    Seq<u8>,
>;

/// What an encoder of the given level gives out to end its stream after it has
/// taken `pieces`, where it ends it.
pub uninterp spec fn gzip_end(level: u32, pieces: Seq<Seq<u8>>) -> Option<Seq<u8>>;

/// What a gzip stream decodes to, where it is a complete and sound one.
pub uninterp spec fn gunzip(stream: Seq<u8>) -> Option<Seq<u8>>;

/// The gzip stream of `plain`, compressed in one piece at the given level,
/// where the encoder takes the piece and ends the stream.
pub open spec fn gzip_stream(level: u32, plain: Seq<u8>) -> Option<Seq<u8>> {
    match (gzip_piece(level, Seq::empty(), plain), gzip_end(level, seq![plain])) {
        (Some(head), Some(end)) => Some(head + end),
        _ => None,
    }
}

/// `GzEncoder::new` of `flate2` over an empty `Vec`, with a level from 0 to 9:
/// an encoder that has taken in and given out nothing.
#[verifier::external_body]
fn encoder_new(level: u32) -> (encoder: Encoder)
    requires
        level <= 9,
    ensures
        level_of(encoder) == level,
        pieces(encoder) == Seq::<Seq<u8>>::empty(),
        emitted(encoder) == Seq::<u8>::empty(),
        held(encoder) == Seq::<u8>::empty(),
{
    Encoder { state: flate2::write::GzEncoder::new(Vec::new(), flate2::Compression::new(level)) }
}

/// `write_all` on a `GzEncoder` of `flate2`. Whether it succeeds, and what the
/// encoder then gives out, follows from its level, the pieces it took before
/// and this piece. Where it succeeds the encoder has taken all of `data`, and
/// what it gives out lies after what it held.
#[verifier::external_body]
fn encoder_write(encoder: &mut Encoder, data: &[u8]) -> (r: Result<(), std::io::Error>)
    ensures
        r is Ok <==> gzip_piece(level_of(*old(encoder)), pieces(*old(encoder)), data@) is Some,
        r is Ok ==> {
            let out = gzip_piece(level_of(*old(encoder)), pieces(*old(encoder)), data@)->Some_0;
            &&& level_of(*final(encoder)) == level_of(*old(encoder))
            &&& pieces(*final(encoder)) == pieces(*old(encoder)).push(data@)
            &&& emitted(*final(encoder)) == emitted(*old(encoder)) + out
            &&& held(*final(encoder)) == held(*old(encoder)) + out
        },
{
    std::io::Write::write_all(&mut encoder.state, data)
}

/// `GzEncoder::get_mut` of `flate2`, with the `Vec` underneath moved out and an
/// empty one left in its place: what the encoder held is collected, and the
/// encoder is otherwise as it was.
#[verifier::external_body]
fn encoder_take(encoder: &mut Encoder) -> (out: Vec<u8>)
    ensures
        out@ == held(*old(encoder)),
        held(*final(encoder)) == Seq::<u8>::empty(),
        level_of(*final(encoder)) == level_of(*old(encoder)),
        pieces(*final(encoder)) == pieces(*old(encoder)),
        emitted(*final(encoder)) == emitted(*old(encoder)),
{
    std::mem::take(encoder.state.get_mut())
}

/// `GzEncoder::finish` of `flate2`. Whether it succeeds, and what then ends
/// the stream, follows from the encoder's level and the pieces it took. Where
/// it succeeds, what is returned is what the encoder held and the end of the
/// stream; the whole stream is a gzip file of all that the encoder took, and
/// has at least the ten bytes of a header and the eight of a trailer.
#[verifier::external_body]
fn encoder_finish(encoder: Encoder) -> (r: Result<Vec<u8>, std::io::Error>)
    ensures
        r is Ok <==> gzip_end(level_of(encoder), pieces(encoder)) is Some,
        r matches Ok(out) ==> {
            let end = gzip_end(level_of(encoder), pieces(encoder))->Some_0;
            &&& out@ == held(encoder) + end
            &&& gunzip(emitted(encoder) + end) == Some(pieces(encoder).flatten())
            &&& emitted(encoder).len() + end.len() >= 18
        },
{
    encoder.state.finish()
}

/// Takes the compressor's answer to a call and hands the bytes that it gave
/// out to the sink underneath. Where the compressor failed, nothing is handed
/// on and the sink is gone.
pub fn hand_on<W: Sink>(writer: W, outcome: Result<Vec<u8>, std::io::Error>) -> (r: Result<
    W,
    SinkError,
>)
    ensures
        outcome is Err ==> r matches Err(SinkError::Compression),
        outcome matches Ok(out) ==> {
            &&& r is Ok <==> writer.takes(out@)
            &&& r matches Ok(w) ==> {
                &&& w.history() == writer.history().push(out@)
                &&& w.accepted() == writer.accepted() + out@
                &&& w.handed_out() == writer.handed_out()
                &&& w.waiting() == writer.waiting() + writer.gives(out@)
                &&& w.in_step() == writer.in_step()
            }
        },
{
    match outcome {
        Ok(out) => writer.put(out.as_slice()),
        Err(_) => Err(SinkError::Compression),
    }
}

/// A sink that compresses what it takes and hands the compressed bytes on to
/// the sink it wraps.
pub struct GzipWriter<W: Sink> {
    writer: W,
    encoder: Encoder,
    base: Ghost<Seq<u8>>,
}

impl<W: Sink> GzipWriter<W> {
    /// The encoder works at the level of layers and holds nothing back, and
    /// the sink underneath holds what it held when it was wrapped, and after
    /// it exactly what the encoder has given out.
    #[verifier::type_invariant]
    spec fn compressed_through(self) -> bool {
        &&& level_of(self.encoder) == COMPRESSION_LEVEL
        &&& held(self.encoder) == Seq::<u8>::empty()
        &&& self.writer.accepted() == self.base@ + emitted(self.encoder)
    }

    /// The sink underneath.
    pub closed spec fn inner(&self) -> W {
        self.writer
    }

    /// What the sink underneath had taken when it was wrapped.
    pub closed spec fn base(&self) -> Seq<u8> {
        self.base@
    }

    /// The pieces taken in, in order.
    pub closed spec fn pieces(&self) -> Seq<Seq<u8>> {
        pieces(self.encoder)
    }

    /// The plain bytes taken in.
    pub open spec fn plain(&self) -> Seq<u8> {
        self.pieces().flatten()
    }

    /// The compressed bytes handed on so far.
    pub closed spec fn compressed(&self) -> Seq<u8> {
        emitted(self.encoder)
    }

    /// Wraps a sink. Nothing has been taken in or handed on yet, whatever the
    /// sink has taken before.
    pub fn new(writer: W) -> (w: GzipWriter<W>)
        ensures
            w.inner() == writer,
            w.base() == writer.accepted(),
            w.pieces() == Seq::<Seq<u8>>::empty(),
            w.compressed() == Seq::<u8>::empty(),
    {
        GzipWriter {
            writer,
            encoder: encoder_new(COMPRESSION_LEVEL),
            base: Ghost(writer.accepted()),
        }
    }

    /// Ends the stream: the last compressed bytes go to the sink underneath,
    /// which is handed back. After what it held when it was wrapped, it then
    /// holds a gzip file of all that this writer took in.
    pub fn finish(self) -> (r: Result<W, SinkError>)
        ensures
            match gzip_end(COMPRESSION_LEVEL, self.pieces()) {
                None => r matches Err(SinkError::Compression),
                Some(end) => {
                    &&& r is Ok <==> self.inner().takes(end)
                    &&& r matches Ok(w) ==> {
                        &&& w.accepted() == self.base() + self.compressed() + end
                        &&& w.handed_out() == self.handed_out()
                        &&& w.waiting() == self.waiting() + self.inner().gives(end)
                        &&& w.in_step() == self.inner().in_step()
                        &&& gunzip(self.compressed() + end) == Some(self.plain())
                        &&& self.compressed().len() + end.len() >= 18
                    }
                },
            },
    {
        proof {
            use_type_invariant(&self);
        }
        let outcome = encoder_finish(self.encoder);
        proof {
            if outcome is Ok {
                let end = gzip_end(COMPRESSION_LEVEL, self.pieces())->Some_0;
                assert(outcome->Ok_0@ =~= end);
            }
        }
        hand_on(self.writer, outcome)
    }
}

impl<W: Sink> Sink for GzipWriter<W> {
    open spec fn history(&self) -> Seq<Seq<u8>> {
        self.pieces()
    }

    open spec fn accepted(&self) -> Seq<u8> {
        self.plain()
    }

    open spec fn handed_out(&self) -> Seq<u8> {
        self.inner().handed_out()
    }

    open spec fn waiting(&self) -> Seq<u8> {
        self.inner().waiting()
    }

    open spec fn in_step(&self) -> bool {
        self.base().len() == 0 && self.inner().in_step()
    }

    open spec fn takes(&self, data: Seq<u8>) -> bool {
        match gzip_piece(COMPRESSION_LEVEL, self.pieces(), data) {
            Some(out) => self.inner().takes(out),
            None => false,
        }
    }

    open spec fn gives(&self, data: Seq<u8>) -> Seq<u8> {
        match gzip_piece(COMPRESSION_LEVEL, self.pieces(), data) {
            Some(out) => self.inner().gives(out),
            None => Seq::empty(),
        }
    }

    /// Compresses `data` and hands on what the compressor gives out for it,
    /// which may be nothing yet.
    fn put(self, data: &[u8]) -> (r: Result<Self, SinkError>)
        ensures
            r matches Ok(sink) ==> sink.base() == self.base() && sink.compressed()
                == self.compressed() + gzip_piece(
                COMPRESSION_LEVEL,
                self.pieces(),
                data@,
            )->Some_0,
    {
        proof {
            use_type_invariant(&self);
        }
        let mut encoder = self.encoder;
        let outcome = match encoder_write(&mut encoder, data) {
            Ok(()) => Ok(encoder_take(&mut encoder)),
            Err(e) => Err(e),
        };
        proof {
            if outcome is Ok {
                let out = gzip_piece(COMPRESSION_LEVEL, self.pieces(), data@)->Some_0;
                assert(outcome->Ok_0@ =~= out);
                self.pieces().lemma_flatten_push(data@);
            }
        }
        match hand_on(self.writer, outcome) {
            Ok(writer) => {
                assert(writer.accepted() =~= self.base@ + emitted(encoder));
                Ok(GzipWriter { writer, encoder, base: self.base })
            },
            Err(e) => Err(e),
        }
    }

    fn drain(self) -> (r: (Self, Vec<u8>))
        ensures
            r.0.base() == self.base(),
            r.0.compressed() == self.compressed(),
    {
        proof {
            use_type_invariant(&self);
        }
        let (writer, bytes) = self.writer.drain();
        (GzipWriter { writer, encoder: self.encoder, base: self.base }, bytes)
    }
}

} // verus!
