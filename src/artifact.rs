use vstd::prelude::*;

use crate::clock::now_micros;
use crate::error::{Result, TrackerError};
use crate::ids::new_id;
use crate::strmap::StrMap;

verus! {

/// The BLAKE3 digest of `data`, as lowercase hexadecimal.
pub uninterp spec fn blake3_hex(data: Seq<u8>) -> Seq<char>;

/// The content hash of `data`.
///
/// Relies on blake3's `hash` and `Hash::to_hex`, which writes the 32-byte
/// digest as 64 lowercase hexadecimal digits; the digest depends on the bytes
/// alone.
#[verifier::external_body]
fn content_hash(data: &[u8]) -> (r: String)
    ensures
        r@ == blake3_hex(data@),
        r@.len() == 64,
{
    blake3::hash(data).to_hex().to_string()
}

/// What is known of an artifact's content when it was stored.
pub struct ArtifactMetadata {
    /// The BLAKE3 digest of the content, in lowercase hexadecimal.
    pub content_hash: String,
    pub size_bytes: u64,
    /// Microseconds since the Unix epoch.
    pub created_at: i64,
    pub content_type: Option<String>,
    pub description: Option<String>,
    pub tags: StrMap,
}

/// A stored blob of bytes that belongs to a run.
pub struct Artifact {
    pub id: u128,
    pub run_id: u128,
    /// The logical name the artifact was stored under.
    pub name: String,
    /// Where the storage backend put it.
    pub path: String,
    pub metadata: ArtifactMetadata,
}

/// Bytes `data` are the content that artifact `a` was recorded with, as far
/// as its content hash tells.
pub open spec fn content_matches(a: Artifact, data: Seq<u8>) -> bool {
    blake3_hex(data) == a.metadata.content_hash@
}

impl Artifact {
    /// The record of `data`, stored for run `run_id` under `name` at `path`:
    /// its hash and size, stamped now, with a fresh identity.
    pub fn record(run_id: u128, name: &str, path: String, data: &[u8]) -> (a: Artifact)
        ensures
            a.run_id == run_id,
            a.name@ == name@,
            a.path@ == path@,
            a.metadata.content_hash@ == blake3_hex(data@),
            a.metadata.size_bytes == data@.len(),
            a.metadata.content_type is None,
            a.metadata.description is None,
            a.metadata.tags.wf(),
            a.metadata.tags@ == Map::<Seq<char>, Seq<char>>::empty(),
    {
        let metadata = ArtifactMetadata {
            content_hash: content_hash(data),
            size_bytes: data.len() as u64,
            created_at: now_micros(),
            content_type: None,
            description: None,
            tags: StrMap::new(),
        };
        Artifact { id: new_id(), run_id, name: name.to_owned(), path, metadata }
    }

    /// Hands back `data`, fetched from this artifact's path, if its hash is
    /// the recorded one; otherwise fails with `InvalidOperation`: the stored
    /// copy is corrupt.
    pub fn verify(&self, data: Vec<u8>) -> (r: Result<Vec<u8>>)
        ensures
            r is Ok <==> content_matches(*self, data@),
            r matches Ok(d) ==> d@ == data@,
            r matches Err(e) ==> e is InvalidOperation,
    {
        let hash = content_hash(data.as_slice());
        if hash != self.metadata.content_hash {
            return Err(TrackerError::InvalidOperation("Artifact content hash mismatch".to_owned()));
        }
        Ok(data)
    }
}

/// Bytes fetched back unchanged pass the check of the artifact recorded for
/// them; fetched bytes whose digest differs from that of the stored bytes
/// (a corrupted copy) fail it.
pub proof fn fetched_bytes_checked(a: Artifact, stored: Seq<u8>, fetched: Seq<u8>)
    requires
        a.metadata.content_hash@ == blake3_hex(stored),
    ensures
        content_matches(a, stored),
        blake3_hex(fetched) != blake3_hex(stored) ==> !content_matches(a, fetched),
{
}

} // verus!
