//! Blobs of the store: what describes one, where it lies, and how it is moved
//! into its place.

use vstd::prelude::*;
use vstd::string::StringExecFns;
use crate::digest::{sha256_hex, Buffer, Sha256Writer, Sink};

verus! {

/// What a blob holds.
#[derive(Debug, Clone, PartialEq, Eq)]
pub enum MediaType {
    /// A layer: a tar archive, gzip-compressed.
    ImageLayerGzip,
    /// An image configuration document.
    ImageConfig,
    /// An image manifest.
    ImageManifest,
    /// An image index.
    ImageIndex,
    /// Any other media type, by its name.
    Other(String),
}

/// The handle of a published blob.
#[derive(Debug, Clone, PartialEq, Eq)]
pub struct Descriptor {
    /// The algorithm and the hexadecimal digest of the content.
    pub digest: String,
    /// What the content is.
    pub media_type: MediaType,
    /// The length of the content in bytes.
    pub size: i64,
}

/// Why no descriptor could be made.
#[derive(Debug, Clone, Copy, PartialEq, Eq)]
pub enum BlobError {
    /// The content is longer than a descriptor's size can say.
    TooLarge,
}

/// A blob that is ready to be stored.
#[derive(Debug, Clone, PartialEq, Eq)]
pub struct Blob {
    /// The handle under which callers refer to the blob.
    pub descriptor: Descriptor,
    /// Where the blob lies, relative to the root of the store.
    pub path: String,
    /// The bytes of the blob.
    pub content: Vec<u8>,
}

/// A digest as descriptors write it: the algorithm, a colon, the hexadecimal digits.
pub open spec fn digest_text(hex: Seq<char>) -> Seq<char> {
    "sha256:"@ + hex
}

/// The place of the blob with the given hexadecimal digest, relative to the
/// root of the store.
pub open spec fn blob_path_text(hex: Seq<char>) -> Seq<char> {
    "blobs/sha256/"@ + hex
}

/// A descriptor as a mathematical value.
pub struct DescriptorView {
    pub digest: Seq<char>,
    pub media_type: MediaType,
    pub size: int,
}

impl View for Descriptor {
    type V = DescriptorView;

    open spec fn view(&self) -> DescriptorView {
        DescriptorView { digest: self.digest@, media_type: self.media_type, size: self.size as int }
    }
}

/// The descriptor of a blob with the given content.
pub open spec fn descriptor_of(content: Seq<u8>, media_type: MediaType) -> DescriptorView {
    DescriptorView {
        digest: digest_text(sha256_hex(content)),
        media_type,
        size: content.len() as int,
    }
}

/// The place of a blob with the given content, relative to the root of the store.
pub open spec fn path_of(content: Seq<u8>) -> Seq<char> {
    blob_path_text(sha256_hex(content))
}

/// Writes a hexadecimal digest as descriptors hold it.
pub fn digest_string(hex: &str) -> (text: String)
    ensures
        text@ == digest_text(hex@),
{
    String::from_str("sha256:").concat(hex)
}

/// The place of the blob with the given hexadecimal digest, relative to the
/// root of the store.
pub fn blob_path(hex: &str) -> (path: String)
    ensures
        path@ == blob_path_text(hex@),
{
    String::from_str("blobs/sha256/").concat(hex)
}

/// The size that a descriptor records for content of `len` bytes.
pub fn blob_size(len: u64) -> (r: Result<i64, BlobError>)
    ensures
        len <= i64::MAX ==> r == Ok::<i64, BlobError>(len as i64),
        len > i64::MAX ==> r == Err::<i64, BlobError>(BlobError::TooLarge),
{
    if len <= i64::MAX as u64 {
        Ok(len as i64)
    } else {
        Err(BlobError::TooLarge)
    }
}

/// Describes content that is `len` bytes long and has the hexadecimal digest `hex`.
pub fn describe(hex: &str, media_type: MediaType, len: u64) -> (r: Result<Descriptor, BlobError>)
    ensures
        len <= i64::MAX ==> r is Ok && r->Ok_0@ == (DescriptorView {
            digest: digest_text(hex@),
            media_type,
            size: len as int,
        }),
        len > i64::MAX ==> r == Err::<Descriptor, BlobError>(BlobError::TooLarge),
{
    match blob_size(len) {
        Ok(size) => Ok(Descriptor { digest: digest_string(hex), media_type, size }),
        Err(e) => Err(e),
    }
}

/// Makes the blob of a serialized document: hashes the bytes as they pass
/// through a digest writer, and names the blob after the digest.
///
/// The bytes are to be stored unchanged at the blob's path.
pub fn write_json_blob(serialized: &[u8], media_type: MediaType) -> (r: Result<Blob, BlobError>)
    ensures
        serialized@.len() <= i64::MAX ==> r is Ok && {
            let blob = r->Ok_0;
            &&& blob.descriptor@ == descriptor_of(serialized@, media_type)
            &&& blob.path@ == path_of(serialized@)
            &&& blob.content@ == serialized@
            &&& sha256_hex(serialized@).len() == 64
        },
        serialized@.len() > i64::MAX ==> r == Err::<Blob, BlobError>(BlobError::TooLarge),
{
    let writer = Sha256Writer::new(Buffer::new());
    match writer.put(serialized) {
        Ok(writer) => {
            let (hex, buffer) = writer.finish();
            proof {
                buffer.lemma_accepted();
            }
            let (_, content) = buffer.drain();
            assert(content@ =~= serialized@);
            match describe(hex.as_str(), media_type, content.len() as u64) {
                Ok(descriptor) => Ok(Blob { descriptor, path: blob_path(hex.as_str()), content }),
                Err(e) => Err(e),
            }
        },
        // A buffer takes whatever it is given, so this arm is never reached.
        Err(_) => Err(BlobError::TooLarge),
    }
}

/// How far the move of a finished temporary file to its blob path has come.
#[derive(Debug, Clone, Copy, PartialEq, Eq)]
pub enum Publish {
    /// The file is to be renamed to the blob path.
    Rename,
    /// Renaming failed: the file is to be copied to the blob path.
    Copy,
    /// The blob is in its place.
    Done,
    /// Neither renaming nor copying worked.
    Failed,
}

impl Publish {
    /// The state that follows `self` once the pending operation has ended.
    pub open spec fn after(self, succeeded: bool) -> Publish {
        match self {
            Publish::Rename => if succeeded {
                Publish::Done
            } else {
                Publish::Copy
            },
            Publish::Copy => if succeeded {
                Publish::Done
            } else {
                Publish::Failed
            },
            Publish::Done => Publish::Done,
            Publish::Failed => Publish::Failed,
        }
    }

    /// Whether an operation is still to be made.
    pub open spec fn pending(self) -> bool {
        self is Rename || self is Copy
    }

    /// Publishing starts with a rename, which is atomic where it works.
    pub fn start() -> (state: Publish)
        ensures
            state == Publish::Rename,
    {
        Publish::Rename
    }

    /// Takes the outcome of the pending operation and says what comes next.
    /// A failed rename is followed by one copy; a state that is final stays.
    pub fn next(self, succeeded: bool) -> (state: Publish)
        ensures
            state == self.after(succeeded),
    {
        match self {
            Publish::Rename => if succeeded {
                Publish::Done
            } else {
                Publish::Copy
            },
            Publish::Copy => if succeeded {
                Publish::Done
            } else {
                Publish::Failed
            },
            Publish::Done => Publish::Done,
            Publish::Failed => Publish::Failed,
        }
    }

    /// Whether an operation is still to be made.
    pub fn is_pending(self) -> (pending: bool)
        ensures
            pending == self.pending(),
    {
        match self {
            Publish::Rename => true,
            Publish::Copy => true,
            Publish::Done => false,
            Publish::Failed => false,
        }
    }
}

/// Publishing ends after at most two operations, and the blob is in its place
/// exactly if the rename or, after it failed, the copy succeeded.
pub proof fn lemma_publish_outcome(renamed: bool, copied: bool)
    ensures
        !Publish::Rename.after(renamed).after(copied).pending(),
        Publish::Rename.after(renamed).after(copied) == Publish::Done <==> renamed || copied,
        renamed ==> Publish::Rename.after(renamed) == Publish::Done,
{
}

/// Content decides the place: blobs of equal content lie at one path and have
/// one digest, whatever their media types, and their descriptors record the
/// same size.
pub proof fn lemma_content_addressing(a: Seq<u8>, b: Seq<u8>, m: MediaType, n: MediaType)
    requires
        a == b,
    ensures
        path_of(a) == path_of(b),
        descriptor_of(a, m).digest == descriptor_of(b, n).digest,
        descriptor_of(a, m).size == descriptor_of(b, n).size,
        m == n ==> descriptor_of(a, m) == descriptor_of(b, n),
{
}

/// Blobs whose digests differ lie at different paths.
pub proof fn lemma_distinct_digests_distinct_paths(a: Seq<u8>, b: Seq<u8>)
    requires
        crate::digest::sha256(a) != crate::digest::sha256(b),
    ensures
        path_of(a) != path_of(b),
        digest_text(sha256_hex(a)) != digest_text(sha256_hex(b)),
{
    let x = sha256_hex(a);
    let y = sha256_hex(b);
    if x == y {
        crate::hex::lemma_hex_injective(crate::digest::sha256(a), crate::digest::sha256(b));
    }
    if path_of(a) == path_of(b) {
        let p = "blobs/sha256/"@;
        assert((p + x).skip(p.len() as int) =~= x);
        assert((p + y).skip(p.len() as int) =~= y);
    }
    if digest_text(x) == digest_text(y) {
        let p = "sha256:"@;
        assert((p + x).skip(p.len() as int) =~= x);
        assert((p + y).skip(p.len() as int) =~= y);
    }
}

} // verus!
