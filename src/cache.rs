use crate::hash::{PerceptualHash, MAX_HASH_BYTES};
use vstd::prelude::*;

verus! {

/// The text that img_hash writes for a hash with the given bytes.
pub uninterp spec fn base64_text(bytes: Seq<u8>) -> Seq<char>;

/// The hash bytes that img_hash reads back from a text, if it is valid.
pub uninterp spec fn base64_bytes(text: Seq<char>) -> Option<Seq<u8>>;

/// Relies on img_hash's `ImageHash::from_bytes`, which never fails for a
/// boxed byte slice whose bit count fits a `usize`, and `ImageHash::to_base64`,
/// whose text `ImageHash::from_base64` decodes back to the same bytes.
#[verifier::external_body]
fn encode_base64(bytes: &Vec<u8>) -> (r: String)
    requires
        bytes@.len() * 8 <= usize::MAX,
    ensures
        r@ == base64_text(bytes@),
        base64_bytes(r@) == Some(bytes@),
{
    match img_hash::ImageHash::<Box<[u8]>>::from_bytes(bytes.as_slice()) {
        Ok(h) => h.to_base64(),
        Err(_) => String::new(),
    }
}

pub open spec fn bytes_view(r: Option<Vec<u8>>) -> Option<Seq<u8>> {
    match r {
        Some(v) => Some(v@),
        None => None,
    }
}

/// Relies on img_hash's `ImageHash::from_base64` and `ImageHash::as_bytes`:
/// the hash bytes that the text encodes, or an error if it is not base64.
#[verifier::external_body]
fn decode_base64(text: &str) -> (r: Option<Vec<u8>>)
    ensures
        bytes_view(r) == base64_bytes(text@),
{
    match img_hash::ImageHash::<Box<[u8]>>::from_base64(text) {
        Ok(h) => Some(h.as_bytes().to_vec()),
        Err(_) => None,
    }
}

/// Which side of the matching a file belongs to; each keeps its own cache.
#[derive(Clone, Copy, PartialEq, Eq, Structural)]
pub enum Role {
    Fullsize,
    Thumbnail,
}

pub open spec fn role_dir(role: Role) -> Seq<char> {
    match role {
        Role::Fullsize => "fullsize"@,
        Role::Thumbnail => "thumbnail"@,
    }
}

impl Role {
    /// Name of the cache subdirectory that holds this role's entries.
    pub fn dir_name(&self) -> (r: String)
        ensures
            r@ == role_dir(*self),
    {
        match self {
            Role::Fullsize => "fullsize".to_owned(),
            Role::Thumbnail => "thumbnail".to_owned(),
        }
    }

    /// Whether images of this role have their borders trimmed before hashing.
    pub fn trims_borders(&self) -> (r: bool)
        ensures
            r == (*self == Role::Thumbnail),
    {
        match self {
            Role::Fullsize => false,
            Role::Thumbnail => true,
        }
    }
}

/// What a cache lookup found for a file.
pub enum CacheLookup {
    /// The stored hash; nothing needs computing.
    Hit(PerceptualHash),
    /// An entry is there but does not decode to a usable hash.
    Corrupt,
    /// No entry: the hash must be computed and stored.
    Miss,
}

/// The outcome of a lookup on an entry's text, in terms of plain values:
/// `None` for a miss, `Some(None)` for a corrupt entry, else the stored bytes.
pub open spec fn lookup_outcome(entry: Option<Seq<char>>) -> Option<Option<Seq<u8>>> {
    match entry {
        None => None,
        Some(t) => match base64_bytes(t) {
            Some(b) => if b.len() <= MAX_HASH_BYTES {
                Some(Some(b))
            } else {
                Some(None)
            },
            None => Some(None),
        },
    }
}

pub open spec fn lookup_view(r: CacheLookup) -> Option<Option<Seq<u8>>> {
    match r {
        CacheLookup::Miss => None,
        CacheLookup::Corrupt => Some(None),
        CacheLookup::Hit(h) => Some(Some(h.bytes@)),
    }
}

/// Decides on a cache entry's content, if the entry exists. A stored entry
/// is trusted as it is: it is never checked against the file it names.
pub fn lookup_cached(entry: Option<&str>) -> (r: CacheLookup)
    ensures
        lookup_view(r) == lookup_outcome(
            match entry {
                Some(t) => Some(t@),
                None => None,
            },
        ),
        r matches CacheLookup::Hit(h) ==> h.wf(),
{
    match entry {
        None => CacheLookup::Miss,
        Some(t) => match decode_base64(t) {
            Some(b) => {
                if b.len() <= MAX_HASH_BYTES {
                    CacheLookup::Hit(PerceptualHash { bytes: b })
                } else {
                    CacheLookup::Corrupt
                }
            },
            None => CacheLookup::Corrupt,
        },
    }
}

/// The text to store for a freshly computed hash; looking it up again gives
/// back the same hash.
pub fn cache_entry(hash: &PerceptualHash) -> (r: String)
    requires
        hash.wf(),
    ensures
        r@ == base64_text(hash.bytes@),
        lookup_outcome(Some(r@)) == Some(Some(hash.bytes@)),
{
    encode_base64(&hash.bytes)
}

/// The cache's lookups are idempotent: with no entry the hash must be
/// computed, and once the entry holds the text stored for a hash, every
/// lookup returns that same hash and nothing is computed again.
pub proof fn lemma_cache_idempotent(text: Seq<char>, bytes: Seq<u8>)
    requires
        base64_bytes(text) == Some(bytes),
        bytes.len() <= MAX_HASH_BYTES,
    ensures
        lookup_outcome(None) == None::<Option<Seq<u8>>>,
        lookup_outcome(Some(text)) == Some(Some(bytes)),
{
}

} // verus!
