use vstd::prelude::*;

use crate::link_index::{index_links, msgpack_of, profile_tag_text};
use crate::path_index::{bucket_key, bucket_key_spec, placeable};
use crate::types::{Address, AgentProfile, Identity, Link, Profile, ProfileError, Record};

verus! {

/// What one publication writes: the two index links of the stored profile,
/// and the annotated profile handed back to the publisher.
pub struct Publication {
    pub bucket_link: Link,
    pub identity_link: Link,
    pub agent_profile: AgentProfile,
}

/// A record paired with the identity that wrote it.
pub open spec fn annotated(rec: Record) -> AgentProfile {
    AgentProfile { agent_pub_key: rec.author, profile: rec.profile }
}

/// The annotated form of a fetched entry, where the store found one.
pub open spec fn annotated_if_found(found: Option<Record>) -> Option<AgentProfile> {
    match found {
        Some(rec) => Some(annotated(rec)),
        None => None,
    }
}

/// The annotated profiles of the entries that were found, in order.
pub open spec fn annotated_found(found: Seq<Option<Record>>) -> Seq<AgentProfile> {
    found.filter_map(|o: Option<Record>| annotated_if_found(o))
}

/// What a publication of `profile` by `author`, stored at `profile_addr`
/// with its bucket node at `bucket_addr`, consists of: the bucket link tagged
/// with the bucket key, the identity link tagged with the profile tag, two
/// tags that differ, and the profile paired with its author.
pub open spec fn publication_of(
    p: Publication,
    author: Identity,
    profile: Profile,
    profile_addr: Seq<u8>,
    bucket_addr: Seq<u8>,
) -> bool {
    &&& p.bucket_link@ == (bucket_addr, profile_addr, msgpack_of(bucket_key_spec(profile.nickname@)))
    &&& p.identity_link@ == (author@, profile_addr, msgpack_of(profile_tag_text()))
    &&& p.bucket_link@.2 != p.identity_link@.2
    &&& p.agent_profile == (AgentProfile { agent_pub_key: author, profile })
}

/// Plans the publication of `profile` by `author`, stored at `profile_addr`,
/// whose bucket node is at `bucket_addr`. It succeeds exactly when the
/// nickname has at least three characters, and is refused with
/// `InvalidNickname` otherwise.
pub fn plan_publication(author: Identity, profile: Profile, profile_addr: &Address, bucket_addr: &Address) -> (r:
    Result<Publication, ProfileError>)
    ensures
        r is Ok <==> placeable(profile.nickname@),
        r matches Err(e) ==> e == ProfileError::InvalidNickname,
        r matches Ok(p) ==> publication_of(p, author, profile, profile_addr@, bucket_addr@),
{
    let key = bucket_key(profile.nickname.as_str())?;
    proof {
        reveal_strlit("profile");
    }
    assert(key@ != profile_tag_text());
    let (bucket_link, identity_link) = index_links(key.as_str(), bucket_addr, &author, profile_addr)?;
    Ok(Publication { bucket_link, identity_link, agent_profile: AgentProfile { agent_pub_key: author, profile } })
}

/// The target of the first link, which is the profile that a lookup by
/// identity reads, or `None` where there is no link.
pub fn first_target(links: &Vec<Link>) -> (r: Option<Address>)
    ensures
        r is None <==> links@.len() == 0,
        r matches Some(a) ==> a@ == links@[0]@.1,
{
    if links.len() == 0 {
        None
    } else {
        Some(links[0].target.copy())
    }
}

/// The targets of the links, in order.
pub fn targets_of(links: &Vec<Link>) -> (r: Vec<Address>)
    ensures
        r@.len() == links@.len(),
        forall|i: int| 0 <= i < r@.len() ==> #[trigger] r@[i]@ == links@[i]@.1,
{
    let mut r: Vec<Address> = Vec::new();
    let mut i: usize = 0;
    while i < links.len()
        invariant
            i <= links@.len(),
            r@.len() == i,
            forall|j: int| 0 <= j < i ==> #[trigger] r@[j]@ == links@[j]@.1,
        decreases links@.len() - i,
    {
        r.push(links[i].target.copy());
        i += 1;
    }
    r
}

/// The targets of all links of several answers, answer after answer.
pub fn targets_of_all(groups: &Vec<Vec<Link>>) -> (r: Vec<Address>)
    ensures
        r@.map_values(|a: Address| a@) == groups@.map_values(
            |g: Vec<Link>| g@.map_values(|l: Link| l@.1),
        ).flatten_alt(),
{
    let ghost tgt = |g: Vec<Link>| g@.map_values(|l: Link| l@.1);
    let mut r: Vec<Address> = Vec::new();
    let mut i: usize = 0;
    while i < groups.len()
        invariant
            i <= groups@.len(),
            tgt == (|g: Vec<Link>| g@.map_values(|l: Link| l@.1)),
            r@.map_values(|a: Address| a@) == groups@.take(i as int).map_values(tgt).flatten_alt(),
        decreases groups@.len() - i,
    {
        let ts = targets_of(&groups[i]);
        let ghost before = r@;
        let mut ts_mut = ts;
        r.append(&mut ts_mut);
        proof {
            let prefix = groups@.take(i as int + 1).map_values(tgt);
            assert(prefix.drop_last() =~= groups@.take(i as int).map_values(tgt));
            assert(prefix.last() =~= ts@.map_values(|a: Address| a@));
            assert(r@.map_values(|a: Address| a@) =~= before.map_values(|a: Address| a@) + ts@.map_values(
                |a: Address| a@,
            ));
        }
        i += 1;
    }
    assert(groups@.take(groups@.len() as int) =~= groups@);
    r
}

/// The answer to a lookup by identity: the fetched profile paired with the
/// identity asked about, or `None` where nothing was found.
pub fn profile_for_identity(identity: Identity, found: Option<Record>) -> (r: Option<AgentProfile>)
    ensures
        r is None <==> found is None,
        r matches Some(ap) ==> ap.agent_pub_key == identity && ap.profile == found->Some_0.profile,
{
    match found {
        Some(rec) => Some(AgentProfile { agent_pub_key: identity, profile: rec.profile }),
        None => None,
    }
}

/// A fetched entry paired with the identity that wrote it.
pub fn annotate_record(rec: Record) -> (r: AgentProfile)
    ensures
        r == annotated(rec),
{
    AgentProfile { agent_pub_key: rec.author, profile: rec.profile }
}

/// The annotated profiles of a batch fetch: one for each entry that was
/// found, in order; entries that were not found are dropped.
pub fn annotate_records(found: Vec<Option<Record>>) -> (r: Vec<AgentProfile>)
    ensures
        r@ == annotated_found(found@),
{
    let ghost orig = found@;
    let ghost f = |o: Option<Record>| annotated_if_found(o);
    let mut rest = found;
    let mut out: Vec<AgentProfile> = Vec::new();
    let ghost mut i: int = 0;
    while rest.len() > 0
        invariant
            i <= orig.len(),
            rest@ == orig.skip(i),
            i + rest@.len() == orig.len(),
            0 <= i,
            f == (|o: Option<Record>| annotated_if_found(o)),
            out@ == orig.take(i).filter_map(f),
        decreases rest@.len(),
    {
        let item = rest.remove(0);
        proof {
            assert(orig.take(i + 1).drop_last() =~= orig.take(i));
            assert(orig.take(i + 1).last() == item);
            assert(rest@ =~= orig.skip(i + 1));
        }
        match item {
            Some(rec) => {
                out.push(annotate_record(rec));
            },
            None => {},
        }
        proof {
            i = i + 1;
        }
    }
    assert(orig.take(i) =~= orig);
    out
}

/// The profiles of several buckets, bucket after bucket.
pub fn concat_profiles(groups: Vec<Vec<AgentProfile>>) -> (r: Vec<AgentProfile>)
    ensures
        r@ == groups@.map_values(|g: Vec<AgentProfile>| g@).flatten_alt(),
{
    let ghost orig = groups@;
    let ghost v = |g: Vec<AgentProfile>| g@;
    let mut rest = groups;
    let mut out: Vec<AgentProfile> = Vec::new();
    let ghost mut i: int = 0;
    while rest.len() > 0
        invariant
            i <= orig.len(),
            rest@ == orig.skip(i),
            i + rest@.len() == orig.len(),
            0 <= i,
            v == (|g: Vec<AgentProfile>| g@),
            out@ == orig.take(i).map_values(v).flatten_alt(),
        decreases rest@.len(),
    {
        let mut g = rest.remove(0);
        proof {
            let prefix = orig.take(i + 1).map_values(v);
            assert(prefix.drop_last() =~= orig.take(i).map_values(v));
            assert(prefix.last() == g@);
            assert(rest@ =~= orig.skip(i + 1));
        }
        out.append(&mut g);
        proof {
            i = i + 1;
        }
    }
    assert(orig.take(i) =~= orig);
    out
}

} // verus!
