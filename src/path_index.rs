use vstd::prelude::*;

use crate::types::ProfileError;

verus! {

/// The width of a bucket key, in characters.
pub const BUCKET_WIDTH: usize = 3;

/// What `str::to_lowercase` returns for a string.
pub uninterp spec fn lower_of(s: Seq<char>) -> Seq<char>;

/// Relies on `str::to_lowercase`: the lower-case form of the string, which
/// depends on its characters alone; every character lower-cases to one or
/// more characters, so it is never shorter.
#[verifier::external_body]
fn lowercase(s: &str) -> (r: String)
    ensures
        r@ == lower_of(s@),
        r@.len() >= s@.len(),
{
    s.to_lowercase()
}

/// The name of the root directory node.
pub open spec fn root_path_spec() -> Seq<char> {
    "all_profiles"@
}

/// The name of the directory node of a bucket.
pub open spec fn node_path_spec(key: Seq<char>) -> Seq<char> {
    root_path_spec() + "."@ + key
}

/// Whether a nickname can be placed in a bucket.
pub open spec fn placeable(nickname: Seq<char>) -> bool {
    nickname.len() >= BUCKET_WIDTH
}

/// The bucket of a nickname: the first characters of its lower-case form.
pub open spec fn bucket_key_spec(nickname: Seq<char>) -> Seq<char> {
    lower_of(nickname).take(BUCKET_WIDTH as int)
}

/// The name of the root directory node.
pub fn root_path() -> (r: String)
    ensures
        r@ == root_path_spec(),
{
    String::from_str("all_profiles")
}

/// The name of the directory node of bucket `key`. It depends on the key
/// alone, so every node is found again at the same place.
pub fn node_path(key: &str) -> (r: String)
    ensures
        r@ == node_path_spec(key@),
{
    let mut r = root_path();
    r.append(".");
    r.append(key);
    r
}

/// The bucket key of an already lower-cased string: its first three
/// characters, or `None` where it has fewer.
pub fn key_of_lowered(lowered: &str) -> (r: Option<String>)
    ensures
        r is None <==> lowered@.len() < BUCKET_WIDTH,
        r matches Some(k) ==> k@ == lowered@.take(BUCKET_WIDTH as int),
{
    if lowered.unicode_len() < BUCKET_WIDTH {
        None
    } else {
        let k = lowered.substring_char(0, BUCKET_WIDTH);
        assert(k@ =~= lowered@.take(BUCKET_WIDTH as int));
        Some(String::from_str(k))
    }
}

/// The bucket key of a nickname, or `InvalidNickname` where the nickname is
/// too short to be placed in a bucket.
pub fn bucket_key(nickname: &str) -> (r: Result<String, ProfileError>)
    ensures
        r is Ok <==> placeable(nickname@),
        r matches Ok(k) ==> k@ == bucket_key_spec(nickname@) && k@.len() == BUCKET_WIDTH,
        r matches Err(e) ==> e == ProfileError::InvalidNickname,
{
    if nickname.unicode_len() < BUCKET_WIDTH {
        return Err(ProfileError::InvalidNickname);
    }
    let lowered = lowercase(nickname);
    match key_of_lowered(lowered.as_str()) {
        Some(k) => Ok(k),
        None => Err(ProfileError::InvalidNickname),
    }
}

/// The name of the directory node that holds a nickname's bucket.
pub fn prefix_path(nickname: &str) -> (r: Result<String, ProfileError>)
    ensures
        r is Ok <==> placeable(nickname@),
        r matches Ok(p) ==> p@ == node_path_spec(bucket_key_spec(nickname@)),
        r matches Err(e) ==> e == ProfileError::InvalidNickname,
{
    let k = bucket_key(nickname)?;
    Ok(node_path(k.as_str()))
}

/// The name of the one directory node that a search by `prefix` reads. A
/// prefix of fewer than three characters names no single bucket and is
/// refused before the store is touched.
pub fn search_path(prefix: &str) -> (r: Result<String, ProfileError>)
    ensures
        r is Ok <==> placeable(prefix@),
        r matches Ok(p) ==> p@ == node_path_spec(bucket_key_spec(prefix@)),
        r matches Err(e) ==> e == ProfileError::PrefixTooShort,
{
    match prefix_path(prefix) {
        Ok(p) => Ok(p),
        Err(_) => Err(ProfileError::PrefixTooShort),
    }
}

/// Two bucket nodes have the same name exactly when their keys are equal.
pub proof fn lemma_node_path_injective(k1: Seq<char>, k2: Seq<char>)
    ensures
        node_path_spec(k1) == node_path_spec(k2) <==> k1 == k2,
{
    let p = root_path_spec() + "."@;
    assert(node_path_spec(k1) == p + k1);
    assert(node_path_spec(k2) == p + k2);
    if p + k1 == p + k2 {
        assert(k1 =~= (p + k1).subrange(p.len() as int, (p + k1).len() as int));
        assert(k2 =~= (p + k2).subrange(p.len() as int, (p + k2).len() as int));
    }
}

/// Nicknames whose lower-case forms start alike share one bucket node, and a
/// search by a prefix reads that node exactly when the prefix starts, lower
/// case, as they do: no other search reaches them.
pub proof fn lemma_bucketing_determinism(n1: Seq<char>, n2: Seq<char>, prefix: Seq<char>)
    requires
        placeable(n1),
        placeable(n2),
        placeable(prefix),
        bucket_key_spec(n1) == bucket_key_spec(n2),
    ensures
        node_path_spec(bucket_key_spec(n1)) == node_path_spec(bucket_key_spec(n2)),
        node_path_spec(bucket_key_spec(prefix)) == node_path_spec(bucket_key_spec(n1))
            <==> bucket_key_spec(prefix) == bucket_key_spec(n1),
{
    lemma_node_path_injective(bucket_key_spec(prefix), bucket_key_spec(n1));
}

} // verus!
