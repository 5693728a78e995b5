use vstd::prelude::*;

use crate::directory::{annotated, annotated_found, annotated_if_found, publication_of, Publication};
use crate::link_index::{msgpack_of, profile_tag_text};
use crate::types::{AgentProfile, Identity, Profile, Record};

verus! {

/// A link as the store holds it: source, target and encoded tag.
pub type LinkView = (Seq<u8>, Seq<u8>, Seq<u8>);

/// The links from `source` with tag `tag`, in the store's order.
pub open spec fn links_from(links: Seq<LinkView>, source: Seq<u8>, tag: Seq<u8>) -> Seq<LinkView> {
    links.filter(|l: LinkView| l.0 == source && l.2 == tag)
}

/// What the store hands back for an address.
pub open spec fn fetch(entries: Map<Seq<u8>, Record>, addr: Seq<u8>) -> Option<Record> {
    if entries.contains_key(addr) {
        Some(entries[addr])
    } else {
        None
    }
}

/// The encoded tag of the links from identities to their profiles.
pub open spec fn identity_tag() -> Seq<u8> {
    msgpack_of(profile_tag_text())
}

/// A lookup by identity: the profile behind the first profile link of the
/// identity, paired with that identity.
pub open spec fn lookup_identity(entries: Map<Seq<u8>, Record>, links: Seq<LinkView>, id: Identity) -> Option<
    AgentProfile,
> {
    let ls = links_from(links, id@, identity_tag());
    if ls.len() == 0 {
        None
    } else {
        match fetch(entries, ls[0].1) {
            Some(rec) => Some(AgentProfile { agent_pub_key: id, profile: rec.profile }),
            None => None,
        }
    }
}

/// The targets of the profile links of one identity.
pub open spec fn profile_targets(links: Seq<LinkView>, id: Seq<u8>) -> Seq<Seq<u8>> {
    links_from(links, id, identity_tag()).map_values(|l: LinkView| l.1)
}

/// The targets of the profile links of each identity, identity after
/// identity: what a batched lookup fetches.
pub open spec fn batch_targets(links: Seq<LinkView>, ids: Seq<Seq<u8>>) -> Seq<Seq<u8>> {
    ids.map_values(|id: Seq<u8>| profile_targets(links, id)).flatten_alt()
}

/// What a batch fetch of `addrs` hands back.
pub open spec fn fetch_all(entries: Map<Seq<u8>, Record>, addrs: Seq<Seq<u8>>) -> Seq<Option<Record>> {
    addrs.map_values(|a: Seq<u8>| fetch(entries, a))
}

/// A batched lookup: the annotated profiles behind the profile links of
/// all the identities, where the store finds them.
pub open spec fn lookup_identities(entries: Map<Seq<u8>, Record>, links: Seq<LinkView>, ids: Seq<Seq<u8>>) -> Seq<
    AgentProfile,
> {
    annotated_found(fetch_all(entries, batch_targets(links, ids)))
}

/// The entries after a publication: the profile stored at its address,
/// written by its author.
pub open spec fn entries_after(entries: Map<Seq<u8>, Record>, profile_addr: Seq<u8>, author: Identity, profile: Profile) -> Map<
    Seq<u8>,
    Record,
> {
    entries.insert(profile_addr, Record { author, profile })
}

/// The links after a publication: its bucket link, then its identity link.
pub open spec fn links_after(links: Seq<LinkView>, p: Publication) -> Seq<LinkView> {
    links.push(p.bucket_link@).push(p.identity_link@)
}

/// A profile published by an identity that had published none is what a
/// lookup by that identity then returns, paired with the identity.
pub proof fn lemma_round_trip(
    entries: Map<Seq<u8>, Record>,
    links: Seq<LinkView>,
    author: Identity,
    profile: Profile,
    profile_addr: Seq<u8>,
    bucket_addr: Seq<u8>,
    p: Publication,
)
    requires
        publication_of(p, author, profile, profile_addr, bucket_addr),
        links_from(links, author@, identity_tag()).len() == 0,
    ensures
        lookup_identity(
            entries_after(entries, profile_addr, author, profile),
            links_after(links, p),
            author,
        ) == Some(AgentProfile { agent_pub_key: author, profile }),
{
    let once = links.push(p.bucket_link@);
    let twice = once.push(p.identity_link@);
    reveal(Seq::filter);
    assert(once.drop_last() =~= links);
    assert(twice.drop_last() =~= once);
    assert(links_from(once, author@, identity_tag()) == links_from(links, author@, identity_tag()));
    assert(links_from(twice, author@, identity_tag()) == links_from(once, author@, identity_tag()).push(
        p.identity_link@,
    ));
    assert(links_from(twice, author@, identity_tag())[0] == p.identity_link@);
}

/// A publication adds exactly one link below its own bucket node, and none
/// below any other node but the publisher's own address.
pub proof fn lemma_publication_links(
    links: Seq<LinkView>,
    author: Identity,
    profile: Profile,
    profile_addr: Seq<u8>,
    bucket_addr: Seq<u8>,
    p: Publication,
    node: Seq<u8>,
)
    requires
        publication_of(p, author, profile, profile_addr, bucket_addr),
        node != author@,
    ensures
        node == bucket_addr ==> links_under(links_after(links, p), node) == links_under(links, node).push(
            p.bucket_link@,
        ),
        node != bucket_addr ==> links_under(links_after(links, p), node) == links_under(links, node),
{
    let once = links.push(p.bucket_link@);
    let twice = once.push(p.identity_link@);
    reveal(Seq::filter);
    assert(once.drop_last() =~= links);
    assert(twice.drop_last() =~= once);
    assert(links_under(twice, node) == links_under(once, node));
}

/// Whether an identity has published: it has a profile link.
pub open spec fn published(links: Seq<LinkView>, id: Seq<u8>) -> bool {
    links_from(links, id, identity_tag()).len() > 0
}

/// The identities among `ids` that have published, in order.
pub open spec fn published_among(links: Seq<LinkView>, ids: Seq<Seq<u8>>) -> Seq<Seq<u8>> {
    ids.filter(|id: Seq<u8>| published(links, id))
}

/// The identities that a sequence of annotated profiles names.
pub open spec fn identities_of(aps: Seq<AgentProfile>) -> Seq<Seq<u8>> {
    aps.map_values(|ap: AgentProfile| ap.agent_pub_key@)
}

/// Each of `ids` has at most one profile link, and the entry behind it is
/// stored and was written by that identity.
pub open spec fn indexed_once(entries: Map<Seq<u8>, Record>, links: Seq<LinkView>, ids: Seq<Seq<u8>>) -> bool {
    forall|i: int|
        #![trigger ids[i]]
        0 <= i < ids.len() ==> {
            let ls = links_from(links, ids[i], identity_tag());
            &&& ls.len() <= 1
            &&& ls.len() == 1 ==> entries.contains_key(ls[0].1) && entries[ls[0].1].author@ == ids[i]
        }
}

/// The profile behind the first profile link of each identity that has
/// published, paired with the author of its entry, identity after identity.
pub open spec fn first_profiles(entries: Map<Seq<u8>, Record>, links: Seq<LinkView>, ids: Seq<Seq<u8>>) -> Seq<
    AgentProfile,
>
    decreases ids.len(),
{
    if ids.len() == 0 {
        Seq::empty()
    } else {
        let rest = first_profiles(entries, links, ids.drop_last());
        let ls = links_from(links, ids.last(), identity_tag());
        if ls.len() > 0 {
            rest.push(annotated(entries[ls[0].1]))
        } else {
            rest
        }
    }
}

proof fn lemma_annotated_found_add(a: Seq<Option<Record>>, b: Seq<Option<Record>>)
    ensures
        annotated_found(a + b) == annotated_found(a) + annotated_found(b),
    decreases b.len(),
{
    if b.len() == 0 {
        assert(a + b =~= a);
        assert(annotated_found(a) + annotated_found(b) =~= annotated_found(a));
    } else {
        lemma_annotated_found_add(a, b.drop_last());
        assert((a + b).drop_last() =~= a + b.drop_last());
        assert((a + b).last() == b.last());
        match annotated_if_found(b.last()) {
            Some(x) => {
                assert(annotated_found(a + b) =~= annotated_found(a + b.drop_last()) + seq![x]);
                assert(annotated_found(b) =~= annotated_found(b.drop_last()) + seq![x]);
                assert(annotated_found(a + b) =~= annotated_found(a) + annotated_found(b));
            },
            None => {
                assert(annotated_found(a + b) =~= annotated_found(a + b.drop_last()));
                assert(annotated_found(b) =~= annotated_found(b.drop_last()));
            },
        }
    }
}

/// A batched lookup where each identity has published at most once gives
/// one annotated profile for each identity that has published, in the
/// order asked, and none for the others; each holds the profile that its
/// identity published.
pub proof fn lemma_batch_lookup(entries: Map<Seq<u8>, Record>, links: Seq<LinkView>, ids: Seq<Seq<u8>>)
    requires
        indexed_once(entries, links, ids),
    ensures
        identities_of(lookup_identities(entries, links, ids)) == published_among(links, ids),
        lookup_identities(entries, links, ids) == first_profiles(entries, links, ids),
    decreases ids.len(),
{
    reveal(Seq::filter);
    if ids.len() == 0 {
        assert(batch_targets(links, ids) =~= Seq::<Seq<u8>>::empty());
        assert(fetch_all(entries, batch_targets(links, ids)) =~= Seq::<Option<Record>>::empty());
        assert(identities_of(lookup_identities(entries, links, ids)) =~= Seq::<Seq<u8>>::empty());
    } else {
        let init = ids.drop_last();
        let id = ids.last();
        assert forall|i: int| 0 <= i < init.len() implies {
            let ls = links_from(links, #[trigger] init[i], identity_tag());
            &&& ls.len() <= 1
            &&& ls.len() == 1 ==> entries.contains_key(ls[0].1) && entries[ls[0].1].author@ == init[i]
        } by {
            assert(init[i] == ids[i]);
        }
        lemma_batch_lookup(entries, links, init);
        let f = |x: Seq<u8>| profile_targets(links, x);
        assert(ids.map_values(f).drop_last() =~= init.map_values(f));
        assert(ids.map_values(f).last() == profile_targets(links, id));
        let last_targets = profile_targets(links, id);
        assert(batch_targets(links, ids) == batch_targets(links, init) + last_targets);
        assert(fetch_all(entries, batch_targets(links, ids)) =~= fetch_all(entries, batch_targets(links, init))
            + fetch_all(entries, last_targets));
        lemma_annotated_found_add(
            fetch_all(entries, batch_targets(links, init)),
            fetch_all(entries, last_targets),
        );
        let ls = links_from(links, id, identity_tag());
        assert(ids[ids.len() - 1] == id);
        let last_found = annotated_found(fetch_all(entries, last_targets));
        if ls.len() == 1 {
            let rec = entries[ls[0].1];
            assert(fetch_all(entries, last_targets) =~= seq![Some(rec)]);
            assert(fetch_all(entries, last_targets).drop_last() =~= Seq::<Option<Record>>::empty());
            assert(annotated_found(Seq::<Option<Record>>::empty()) =~= Seq::<AgentProfile>::empty());
            assert(last_found =~= seq![annotated(rec)]);
            assert(identities_of(last_found) =~= seq![id]);
        } else {
            assert(fetch_all(entries, last_targets) =~= Seq::<Option<Record>>::empty());
            assert(identities_of(last_found) =~= Seq::<Seq<u8>>::empty());
        }
        let whole = lookup_identities(entries, links, ids);
        let before = lookup_identities(entries, links, init);
        assert(whole == before + last_found);
        assert(whole =~= first_profiles(entries, links, ids));
        assert(identities_of(whole) =~= identities_of(before) + identities_of(last_found));
        assert(published_among(links, ids) =~= published_among(links, init) + identities_of(last_found));
    }
}

/// The links below a directory node, whatever their tag.
pub open spec fn links_under(links: Seq<LinkView>, node: Seq<u8>) -> Seq<LinkView> {
    links.filter(|l: LinkView| l.0 == node)
}

/// What a read of one bucket gives: the annotated profiles behind its links.
pub open spec fn bucket_profiles(entries: Map<Seq<u8>, Record>, links: Seq<LinkView>, node: Seq<u8>) -> Seq<
    AgentProfile,
> {
    annotated_found(fetch_all(entries, links_under(links, node).map_values(|l: LinkView| l.1)))
}

/// A full listing: the profiles of each bucket, bucket after bucket.
pub open spec fn list_all(entries: Map<Seq<u8>, Record>, links: Seq<LinkView>, buckets: Seq<Seq<u8>>) -> Seq<
    AgentProfile,
> {
    buckets.map_values(|b: Seq<u8>| bucket_profiles(entries, links, b)).flatten_alt()
}

/// The number of links below the given buckets.
pub open spec fn links_below(links: Seq<LinkView>, buckets: Seq<Seq<u8>>) -> int
    decreases buckets.len(),
{
    if buckets.len() == 0 {
        0
    } else {
        links_below(links, buckets.drop_last()) + links_under(links, buckets.last()).len()
    }
}

/// Every link below the given buckets leads to a stored entry.
pub open spec fn all_stored(entries: Map<Seq<u8>, Record>, links: Seq<LinkView>, buckets: Seq<Seq<u8>>) -> bool {
    forall|i: int, j: int|
        #![trigger links_under(links, buckets[i])[j]]
        0 <= i < buckets.len() && 0 <= j < links_under(links, buckets[i]).len() ==> entries.contains_key(
            links_under(links, buckets[i])[j].1,
        )
}

proof fn lemma_all_found(s: Seq<Option<Record>>)
    requires
        forall|i: int| 0 <= i < s.len() ==> (#[trigger] s[i]) is Some,
    ensures
        annotated_found(s).len() == s.len(),
    decreases s.len(),
{
    if s.len() > 0 {
        lemma_all_found(s.drop_last());
    }
}

/// A full listing in which every bucket link leads to a stored entry holds
/// exactly one annotated profile per link: one per publication, whatever
/// the buckets and their order.
pub proof fn lemma_listing_complete(entries: Map<Seq<u8>, Record>, links: Seq<LinkView>, buckets: Seq<Seq<u8>>)
    requires
        all_stored(entries, links, buckets),
    ensures
        list_all(entries, links, buckets).len() == links_below(links, buckets),
    decreases buckets.len(),
{
    if buckets.len() == 0 {
        assert(list_all(entries, links, buckets) =~= Seq::<AgentProfile>::empty());
    } else {
        let init = buckets.drop_last();
        let b = buckets.last();
        assert forall|i: int, j: int|
            0 <= i < init.len() && 0 <= j < links_under(links, init[i]).len() implies entries.contains_key(
            #[trigger] links_under(links, init[i])[j].1,
        ) by {
            assert(init[i] == buckets[i]);
        }
        lemma_listing_complete(entries, links, init);
        let f = |x: Seq<u8>| bucket_profiles(entries, links, x);
        assert(buckets.map_values(f).drop_last() =~= init.map_values(f));
        assert(list_all(entries, links, buckets) == list_all(entries, links, init) + bucket_profiles(
            entries,
            links,
            b,
        ));
        let ls = links_under(links, b);
        let fetched = fetch_all(entries, ls.map_values(|l: LinkView| l.1));
        assert forall|j: int| 0 <= j < fetched.len() implies (#[trigger] fetched[j]) is Some by {
            assert(buckets[buckets.len() - 1] == b);
            assert(entries.contains_key(links_under(links, buckets[buckets.len() - 1])[j].1));
        }
        lemma_all_found(fetched);
    }
}

/// The links after several publications, one after another.
pub open spec fn links_after_all(links: Seq<LinkView>, pubs: Seq<Publication>) -> Seq<LinkView>
    decreases pubs.len(),
{
    if pubs.len() == 0 {
        links
    } else {
        links_after(links_after_all(links, pubs.drop_last()), pubs.last())
    }
}

proof fn lemma_links_below_push(links: Seq<LinkView>, buckets: Seq<Seq<u8>>, l: LinkView)
    requires
        buckets.no_duplicates(),
    ensures
        links_below(links.push(l), buckets) == links_below(links, buckets) + if buckets.contains(l.0) {
            1int
        } else {
            0int
        },
    decreases buckets.len(),
{
    reveal(Seq::filter);
    assert(links.push(l).drop_last() =~= links);
    if buckets.len() > 0 {
        let init = buckets.drop_last();
        let last = buckets.last();
        assert forall|i: int, j: int| 0 <= i < init.len() && 0 <= j < init.len() && i != j implies init[i]
            != init[j] by {
            assert(init[i] == buckets[i] && init[j] == buckets[j]);
        }
        lemma_links_below_push(links, init, l);
        if init.contains(l.0) {
            let k = choose|k: int| 0 <= k < init.len() && init[k] == l.0;
            assert(buckets[k] == l.0);
            assert(buckets[buckets.len() - 1] == last);
            assert(last != l.0);
        }
        if buckets.contains(l.0) && l.0 != last {
            let k = choose|k: int| 0 <= k < buckets.len() && buckets[k] == l.0;
            assert(k < buckets.len() - 1);
            assert(init[k] == l.0);
        }
        if l.0 == last {
            assert(buckets[buckets.len() - 1] == l.0);
        }
    }
}

/// Publications whose bucket nodes are among `buckets`, into a store with
/// no link below those buckets, leave exactly one link below them per
/// publication, whatever the buckets and their order.
pub proof fn lemma_publications_counted(links: Seq<LinkView>, pubs: Seq<Publication>, buckets: Seq<Seq<u8>>)
    requires
        buckets.no_duplicates(),
        links_below(links, buckets) == 0,
        forall|i: int|
            0 <= i < pubs.len() ==> buckets.contains(#[trigger] pubs[i].bucket_link@.0)
                && !buckets.contains(pubs[i].identity_link@.0),
    ensures
        links_below(links_after_all(links, pubs), buckets) == pubs.len(),
    decreases pubs.len(),
{
    if pubs.len() > 0 {
        let init = pubs.drop_last();
        let p = pubs.last();
        assert forall|i: int| 0 <= i < init.len() implies buckets.contains(#[trigger] init[i].bucket_link@.0)
            && !buckets.contains(init[i].identity_link@.0) by {
            assert(init[i] == pubs[i]);
        }
        lemma_publications_counted(links, init, buckets);
        let before = links_after_all(links, init);
        assert(pubs[pubs.len() - 1] == p);
        lemma_links_below_push(before, buckets, p.bucket_link@);
        lemma_links_below_push(before.push(p.bucket_link@), buckets, p.identity_link@);
    }
}

/// Listing the buckets after N publications into them, from a store with no
/// link below those buckets, gives exactly N annotated profiles, whatever
/// the buckets and their order, provided every bucket link leads to a
/// stored entry.
pub proof fn lemma_listing_after_publications(
    entries: Map<Seq<u8>, Record>,
    links: Seq<LinkView>,
    pubs: Seq<Publication>,
    buckets: Seq<Seq<u8>>,
)
    requires
        buckets.no_duplicates(),
        links_below(links, buckets) == 0,
        forall|i: int|
            0 <= i < pubs.len() ==> buckets.contains(#[trigger] pubs[i].bucket_link@.0)
                && !buckets.contains(pubs[i].identity_link@.0),
        all_stored(entries, links_after_all(links, pubs), buckets),
    ensures
        list_all(entries, links_after_all(links, pubs), buckets).len() == pubs.len(),
{
    lemma_publications_counted(links, pubs, buckets);
    lemma_listing_complete(entries, links_after_all(links, pubs), buckets);
}

} // verus!
