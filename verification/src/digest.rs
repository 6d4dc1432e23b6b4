//! Byte sinks, and the writer that hashes what passes through it.
//!
//! A [`Sink`] takes bytes in order. [`Sha256Writer`] wraps any sink, hands every
//! byte on unchanged and keeps a running SHA-256 of what it handed on, so that
//! writers can be stacked and each level yields the digest of its own stream.

use vstd::prelude::*;
use crate::hex::{hex_encode, hex_of};

verus! {

/// The SHA-256 digest of `data`, as the `sha2` crate computes it.
pub uninterp spec fn sha256(data: Seq<u8>) -> Seq<u8>;

/// A running SHA-256 computation of the `sha2` crate.
#[verifier::external_body]
pub struct Hasher {
    state: sha2::Sha256,
}

/// The bytes that a hasher has taken in since it was made, in order.
pub uninterp spec fn absorbed(hasher: Hasher) -> Seq<u8>;

/// `Digest::new` of `sha2::Sha256`: a hasher that has taken in nothing.
#[verifier::external_body]
fn hasher_new() -> (hasher: Hasher)
    ensures
        absorbed(hasher) == Seq::<u8>::empty(),
{
    Hasher { state: sha2::Digest::new() }
}

/// `Digest::update` of `sha2::Sha256`: the hasher takes in `data` after what it
/// already holds.
#[verifier::external_body]
fn hasher_update(hasher: &mut Hasher, data: &[u8])
    ensures
        absorbed(*final(hasher)) == absorbed(*old(hasher)) + data@,
{
    sha2::Digest::update(&mut hasher.state, data);
}

/// `Digest::finalize` of `sha2::Sha256`: the 32 bytes of the digest of all that
/// the hasher took in.
#[verifier::external_body]
fn hasher_finalize(hasher: Hasher) -> (out: Vec<u8>)
    ensures
        out@ == sha256(absorbed(hasher)),
        out@.len() == 32,
{
    sha2::Digest::finalize(hasher.state).to_vec()
}

/// The digest of `data` as the store writes it: 64 lower-case hexadecimal digits.
pub open spec fn sha256_hex(data: Seq<u8>) -> Seq<char> {
    hex_of(sha256(data))
}

/// Why a sink did not take the bytes it was given.
#[derive(Debug, Clone, Copy, PartialEq, Eq)]
pub enum SinkError {
    /// The compressor reported a failure.
    Compression,
}

/// Something that takes bytes in order, piece by piece. Sinks stack: one may
/// hand what it takes, changed or not, to a sink underneath. What reaches the
/// bottom of a stack waits there until `drain` hands it out.
pub trait Sink: Sized {
    /// The pieces that the sink has taken since it was made, in order.
    spec fn history(&self) -> Seq<Seq<u8>>;

    /// Every byte the sink has taken since it was made.
    spec fn accepted(&self) -> Seq<u8>;

    /// Every byte that `drain` has handed out since the sink was made.
    spec fn handed_out(&self) -> Seq<u8>;

    /// The bytes that have reached the bottom of the stack and wait to be
    /// handed out.
    spec fn waiting(&self) -> Seq<u8>;

    /// Whether every sink of the stack had taken nothing when the sink above
    /// it was made, so that each holds only what came through the one above.
    spec fn in_step(&self) -> bool;

    /// Whether the sink takes `data` as its next piece.
    spec fn takes(&self, data: Seq<u8>) -> bool;

    /// The bytes that reach the bottom of the stack when the sink takes `data`
    /// as its next piece.
    spec fn gives(&self, data: Seq<u8>) -> Seq<u8>;

    /// Hands `data` to the sink. A sink that fails is gone with the call.
    fn put(self, data: &[u8]) -> (r: Result<Self, SinkError>)
        ensures
            r is Ok <==> self.takes(data@),
            r matches Ok(sink) ==> {
                &&& sink.history() == self.history().push(data@)
                &&& sink.accepted() == self.accepted() + data@
                &&& sink.handed_out() == self.handed_out()
                &&& sink.waiting() == self.waiting() + self.gives(data@)
                &&& sink.in_step() == self.in_step()
            },
    ;

    /// Hands out what has reached the bottom of the stack since the last call.
    fn drain(self) -> (r: (Self, Vec<u8>))
        ensures
            r.1@ == self.waiting(),
            r.0.waiting() == Seq::<u8>::empty(),
            r.0.history() == self.history(),
            r.0.accepted() == self.accepted(),
            r.0.handed_out() == self.handed_out() + r.1@,
            r.0.in_step() == self.in_step(),
    ;
}

/// The bottom of a stack of sinks: bytes wait in memory until they are drained.
pub struct Buffer {
    pending: Vec<u8>,
    drained: Ghost<Seq<u8>>,
    pieces: Ghost<Seq<Seq<u8>>>,
}

impl Buffer {
    /// The bytes taken in and not yet handed out.
    pub closed spec fn pending(&self) -> Seq<u8> {
        self.pending@
    }

    /// An empty buffer.
    pub fn new() -> (buffer: Buffer)
        ensures
            buffer.history() == Seq::<Seq<u8>>::empty(),
            buffer.accepted() == Seq::<u8>::empty(),
            buffer.handed_out() == Seq::<u8>::empty(),
            buffer.pending() == Seq::<u8>::empty(),
    {
        Buffer { pending: Vec::new(), drained: Ghost(Seq::empty()), pieces: Ghost(Seq::empty()) }
    }

    /// What a buffer has taken is what it has handed out and what still waits.
    pub proof fn lemma_accepted(self)
        ensures
            self.accepted() == self.handed_out() + self.pending(),
    {
    }
}

impl Sink for Buffer {
    closed spec fn history(&self) -> Seq<Seq<u8>> {
        self.pieces@
    }

    closed spec fn accepted(&self) -> Seq<u8> {
        self.drained@ + self.pending@
    }

    closed spec fn handed_out(&self) -> Seq<u8> {
        self.drained@
    }

    open spec fn waiting(&self) -> Seq<u8> {
        self.pending()
    }

    open spec fn in_step(&self) -> bool {
        true
    }

    open spec fn takes(&self, data: Seq<u8>) -> bool {
        true
    }

    open spec fn gives(&self, data: Seq<u8>) -> Seq<u8> {
        data
    }

    /// Keeps `data` after what already waits.
    fn put(self, data: &[u8]) -> (r: Result<Self, SinkError>)
        ensures
            r matches Ok(buffer) && buffer.pending() == self.pending() + data@,
    {
        let mut buffer = self;
        buffer.pending.extend_from_slice(data);
        buffer.pieces = Ghost(buffer.pieces@.push(data@));
        assert(buffer.pending@ =~= self.pending@ + data@);
        assert(buffer.drained@ + buffer.pending@ =~= (self.drained@ + self.pending@) + data@);
        Ok(buffer)
    }

    /// Hands out what waits and keeps nothing.
    fn drain(self) -> (r: (Self, Vec<u8>))
        ensures
            r.1@ == self.pending(),
            r.0.pending() == Seq::<u8>::empty(),
    {
        let bytes = self.pending;
        let buffer = Buffer {
            pending: Vec::new(),
            drained: Ghost(self.drained@ + bytes@),
            pieces: self.pieces,
        };
        assert(buffer.drained@ + buffer.pending@ =~= self.drained@ + self.pending@);
        (buffer, bytes)
    }
}

/// A writer that hands every byte on to the sink it wraps and hashes the same
/// bytes as they pass.
pub struct Sha256Writer<W: Sink> {
    writer: W,
    hasher: Hasher,
    base: Ghost<Seq<u8>>,
    pieces: Ghost<Seq<Seq<u8>>>,
}

impl<W: Sink> Sha256Writer<W> {
    /// The sink underneath holds what it held when it was wrapped, and after
    /// it exactly what the hasher has taken in.
    #[verifier::type_invariant]
    spec fn hashed(self) -> bool {
        self.writer.accepted() == self.base@ + absorbed(self.hasher)
    }

    /// The sink underneath.
    pub closed spec fn inner(&self) -> W {
        self.writer
    }

    /// What the sink underneath had taken when it was wrapped.
    pub closed spec fn base(&self) -> Seq<u8> {
        self.base@
    }

    /// The bytes handed on through this writer.
    pub closed spec fn written(&self) -> Seq<u8> {
        absorbed(self.hasher)
    }

    /// Wraps a sink. Nothing has passed through the writer yet, whatever the
    /// sink has taken before.
    pub fn new(writer: W) -> (w: Sha256Writer<W>)
        ensures
            w.inner() == writer,
            w.base() == writer.accepted(),
            w.written() == Seq::<u8>::empty(),
            w.history() == Seq::<Seq<u8>>::empty(),
    {
        Sha256Writer {
            writer,
            hasher: hasher_new(),
            base: Ghost(writer.accepted()),
            pieces: Ghost(Seq::empty()),
        }
    }

    /// Ends the stream: the hexadecimal digest of all that passed through the
    /// writer, and the sink underneath, which holds what it held when it was
    /// wrapped and after it exactly what passed.
    pub fn finish(self) -> (r: (String, W))
        ensures
            r.0@ == sha256_hex(self.written()),
            r.0@.len() == 64,
            sha256_hex(self.written()).len() == 64,
            r.1 == self.inner(),
            r.1.accepted() == self.base() + self.written(),
    {
        proof {
            use_type_invariant(&self);
        }
        let digest = hasher_finalize(self.hasher);
        (hex_encode(digest.as_slice()), self.writer)
    }
}

impl<W: Sink> Sink for Sha256Writer<W> {
    closed spec fn history(&self) -> Seq<Seq<u8>> {
        self.pieces@
    }

    open spec fn accepted(&self) -> Seq<u8> {
        self.written()
    }

    open spec fn handed_out(&self) -> Seq<u8> {
        self.inner().handed_out()
    }

    open spec fn waiting(&self) -> Seq<u8> {
        self.inner().waiting()
    }

    open spec fn in_step(&self) -> bool {
        self.base().len() == 0 && self.inner().in_step()
    }

    open spec fn takes(&self, data: Seq<u8>) -> bool {
        self.inner().takes(data)
    }

    open spec fn gives(&self, data: Seq<u8>) -> Seq<u8> {
        self.inner().gives(data)
    }

    /// Hands `data` to the sink underneath and, once it is taken, hashes it.
    fn put(self, data: &[u8]) -> (r: Result<Self, SinkError>)
        ensures
            r matches Ok(sink) ==> sink.base() == self.base() && sink.inner().history()
                == self.inner().history().push(data@),
    {
        proof {
            use_type_invariant(&self);
        }
        let mut hasher = self.hasher;
        match self.writer.put(data) {
            Ok(writer) => {
                hasher_update(&mut hasher, data);
                assert(writer.accepted() =~= self.base@ + (absorbed(self.hasher) + data@));
                Ok(
                    Sha256Writer {
                        writer,
                        hasher,
                        base: self.base,
                        pieces: Ghost(self.pieces@.push(data@)),
                    },
                )
            },
            Err(e) => Err(e),
        }
    }

    fn drain(self) -> (r: (Self, Vec<u8>))
        ensures
            r.0.base() == self.base(),
            r.0.inner().history() == self.inner().history(),
    {
        proof {
            use_type_invariant(&self);
        }
        let (writer, bytes) = self.writer.drain();
        (Sha256Writer { writer, hasher: self.hasher, base: self.base, pieces: self.pieces }, bytes)
    }
}

} // verus!
