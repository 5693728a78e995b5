use vstd::prelude::*;

use crate::types::{Address, Identity, Link, ProfileError, Tag};
use hdk::prelude::SerializedBytesError;

verus! {

/// The MessagePack form of a string, as the store's serializer writes it.
pub uninterp spec fn msgpack_of(s: Seq<char>) -> Seq<u8>;

#[verifier::external_type_specification]
#[verifier::external_body]
pub struct ExSerializedBytesError(SerializedBytesError);

/// Relies on `hdk::prelude::encode` (from holochain_serialized_bytes): a
/// string is written into a `Vec` as a length marker followed by its UTF-8
/// bytes, which cannot fail, depends on the characters alone, and tells
/// different strings apart.
#[verifier::external_body]
fn encode_text(s: &str) -> (r: Result<Vec<u8>, SerializedBytesError>)
    ensures
        r is Ok,
        r matches Ok(b) ==> b@ == msgpack_of(s@),
        r matches Ok(b) ==> forall|t: Seq<char>| #[trigger] msgpack_of(t) == b@ ==> t == s@,
{
    hdk::prelude::encode(&s.to_string())
}

/// The text of the fixed tag that marks profile links.
pub open spec fn profile_tag_text() -> Seq<char> {
    "profile"@
}

/// The two families of link tags the directory writes.
pub enum TagKind {
    /// Marks a bucket's links to its profiles; holds the bucket key.
    Bucket(String),
    /// Marks an identity's links to its profiles.
    Profile,
}

impl TagKind {
    /// The text that the tag encodes.
    pub open spec fn text(&self) -> Seq<char> {
        match self {
            TagKind::Bucket(k) => k@,
            TagKind::Profile => profile_tag_text(),
        }
    }

    /// The tag in the store's encoding.
    pub fn encode(&self) -> (r: Result<Tag, ProfileError>)
        ensures
            r is Ok,
            r matches Ok(t) ==> t@ == msgpack_of(self.text()),
            r matches Err(e) ==> e == ProfileError::TagEncoding,
    {
        match self {
            TagKind::Bucket(k) => link_tag(k.as_str()),
            TagKind::Profile => link_tag("profile"),
        }
    }
}

/// A link tag holding the given text. Different texts give different tags.
pub fn link_tag(tag: &str) -> (r: Result<Tag, ProfileError>)
    ensures
        r is Ok,
        r matches Ok(t) ==> t@ == msgpack_of(tag@),
        r matches Ok(t) ==> forall|u: Seq<char>| #[trigger] msgpack_of(u) == t@ ==> u == tag@,
        r matches Err(e) ==> e == ProfileError::TagEncoding,
{
    match encode_text(tag) {
        Ok(bytes) => Ok(Tag { bytes }),
        Err(_) => Err(ProfileError::TagEncoding),
    }
}

/// The tag of the links from an identity to its profiles.
pub fn profile_tag() -> (r: Result<Tag, ProfileError>)
    ensures
        r is Ok,
        r matches Ok(t) ==> t@ == msgpack_of(profile_tag_text()),
        r matches Err(e) ==> e == ProfileError::TagEncoding,
{
    TagKind::Profile.encode()
}

/// The two index links of a profile stored at `profile_addr`: from its
/// bucket node, tagged with the bucket key, and from the publishing
/// identity, tagged with the profile tag. The two tags differ unless the
/// key is the profile tag's own text.
pub fn index_links(key: &str, bucket_addr: &Address, author: &Identity, profile_addr: &Address) -> (r:
    Result<(Link, Link), ProfileError>)
    ensures
        r is Ok,
        r matches Ok((b, i)) ==> (key@ != profile_tag_text() ==> b@.2 != i@.2),
        r matches Ok((b, i)) ==> b@ == (bucket_addr@, profile_addr@, msgpack_of(key@)) && i@ == (
            author@,
            profile_addr@,
            msgpack_of(profile_tag_text()),
        ),
        r matches Err(e) ==> e == ProfileError::TagEncoding,
{
    let bucket_tag = link_tag(key)?;
    let identity_tag = profile_tag()?;
    assert(key@ != profile_tag_text() ==> bucket_tag@ != identity_tag@);
    let b = Link { source: bucket_addr.copy(), target: profile_addr.copy(), tag: bucket_tag };
    let i = Link { source: author.address(), target: profile_addr.copy(), tag: identity_tag };
    Ok((b, i))
}

} // verus!
