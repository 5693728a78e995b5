use vstd::prelude::*;

verus! {

/// The address of a value in the store: the bytes of its hash.
pub struct Address {
    pub bytes: Vec<u8>,
}

impl View for Address {
    type V = Seq<u8>;

    open spec fn view(&self) -> Seq<u8> {
        self.bytes@
    }
}

impl Address {
    pub fn copy(&self) -> (r: Address)
        ensures
            r@ == self@,
    {
        Address { bytes: copy_bytes(&self.bytes) }
    }
}

/// A participant's public key. Its bytes are also the address from which
/// the participant's own links start.
pub struct Identity {
    pub key: Vec<u8>,
}

impl View for Identity {
    type V = Seq<u8>;

    open spec fn view(&self) -> Seq<u8> {
        self.key@
    }
}

impl Identity {
    /// The address of the identity in the store.
    pub fn address(&self) -> (r: Address)
        ensures
            r@ == self@,
    {
        Address { bytes: copy_bytes(&self.key) }
    }
}

/// The encoded form of a link tag, as the store keeps it.
pub struct Tag {
    pub bytes: Vec<u8>,
}

impl View for Tag {
    type V = Seq<u8>;

    open spec fn view(&self) -> Seq<u8> {
        self.bytes@
    }
}

/// A directed, tagged edge between two addresses.
pub struct Link {
    pub source: Address,
    pub target: Address,
    pub tag: Tag,
}

impl View for Link {
    /// Source, target and tag.
    type V = (Seq<u8>, Seq<u8>, Seq<u8>);

    open spec fn view(&self) -> (Seq<u8>, Seq<u8>, Seq<u8>) {
        (self.source@, self.target@, self.tag@)
    }
}

/// A self-describing profile: a nickname and free-form named fields.
pub struct Profile {
    pub nickname: String,
    pub fields: Vec<(String, String)>,
}

impl Profile {
    /// Whether no two fields share a name, as in a map from names to
    /// values. The directory stores and returns a profile unchanged, so it
    /// keeps this property where the publisher gave it.
    pub open spec fn fields_unique(&self) -> bool {
        forall|i: int, j: int|
            0 <= i < j < self.fields@.len() ==> #[trigger] self.fields@[i].0@ != #[trigger] self.fields@[j].0@
    }
}

/// A profile together with the identity that published it.
pub struct AgentProfile {
    pub agent_pub_key: Identity,
    pub profile: Profile,
}

/// A profile entry as the store hands it back: the entry and the author of
/// the write that stored it.
pub struct Record {
    pub author: Identity,
    pub profile: Profile,
}

/// Why an operation of the directory refused its input.
#[derive(Debug, Clone, Copy, PartialEq, Eq, Structural)]
pub enum ProfileError {
    /// The nickname is too short to be placed in a bucket.
    InvalidNickname,
    /// A search prefix is too short to name a single bucket.
    PrefixTooShort,
    /// A link tag could not be encoded; the encoder never fails on a string,
    /// so no operation of this library returns it.
    TagEncoding,
}

/// A copy of a byte vector.
pub fn copy_bytes(b: &Vec<u8>) -> (r: Vec<u8>)
    ensures
        r@ == b@,
{
    let r = b.clone();
    assert(r@ =~= b@);
    r
}

} // verus!
