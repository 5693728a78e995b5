use profiles::{
    annotate_records, bucket_key, concat_profiles, first_target, key_of_lowered, link_tag,
    node_path, plan_publication, prefix_path, profile_for_identity, profile_tag, root_path,
    search_path, targets_of, targets_of_all, Address, AgentProfile, Identity, Link, Profile,
    ProfileError, Record, TagKind,
};

fn identity(b: u8) -> Identity {
    Identity { key: vec![b; 4] }
}

fn address(b: u8) -> Address {
    Address { bytes: vec![b; 8] }
}

fn profile(nickname: &str) -> Profile {
    Profile { nickname: nickname.to_string(), fields: vec![] }
}

fn record(author: u8, nickname: &str) -> Record {
    Record { author: identity(author), profile: profile(nickname) }
}

fn msgpack_str(s: &str) -> Vec<u8> {
    let mut v = vec![0xa0 | s.len() as u8];
    v.extend_from_slice(s.as_bytes());
    v
}

/// Links from `source` with the given tag, in the order they were written.
fn links_from<'a>(links: &'a [Link], source: &[u8], tag: &[u8]) -> Vec<Link> {
    links
        .iter()
        .filter(|l| l.source.bytes == source && l.tag.bytes == tag)
        .map(|l| Link {
            source: Address { bytes: l.source.bytes.clone() },
            target: Address { bytes: l.target.bytes.clone() },
            tag: profiles::Tag { bytes: l.tag.bytes.clone() },
        })
        .collect()
}

#[test]
fn bucket_key_lowers_and_takes_three() {
    assert_eq!(bucket_key("Alice").unwrap(), "ali");
    assert_eq!(bucket_key("ALIBABA").unwrap(), "ali");
    assert_eq!(bucket_key("Éclair").unwrap(), "écl");
}

#[test]
fn bucket_key_refuses_short_nickname() {
    assert_eq!(bucket_key("Al").unwrap_err(), ProfileError::InvalidNickname);
    assert_eq!(bucket_key("").unwrap_err(), ProfileError::InvalidNickname);
    assert_eq!(prefix_path("ab").unwrap_err(), ProfileError::InvalidNickname);
}

#[test]
fn key_of_lowered_takes_first_three() {
    assert_eq!(key_of_lowered("abcd"), Some("abc".to_string()));
    assert_eq!(key_of_lowered("abc"), Some("abc".to_string()));
    assert_eq!(key_of_lowered("ab"), None);
}

#[test]
fn paths_of_nodes() {
    assert_eq!(root_path(), "all_profiles");
    assert_eq!(prefix_path("Alice").unwrap(), "all_profiles.ali");
    assert_eq!(node_path("bob"), "all_profiles.bob");
}

#[test]
fn ensure_node_path_is_idempotent() {
    let first = node_path("xyz");
    let second = node_path("xyz");
    assert_eq!(first, second);
    assert_eq!(first, "all_profiles.xyz");
}

#[test]
fn search_refuses_short_prefixes() {
    assert_eq!(search_path("ab").unwrap_err(), ProfileError::PrefixTooShort);
    assert_eq!(search_path("a").unwrap_err(), ProfileError::PrefixTooShort);
    assert_eq!(search_path("").unwrap_err(), ProfileError::PrefixTooShort);
    assert_eq!(search_path("abc").unwrap(), "all_profiles.abc");
}

#[test]
fn search_reads_one_bucket_whatever_the_prefix_length() {
    assert_eq!(search_path("ALIce").unwrap(), "all_profiles.ali");
    assert_eq!(search_path("ali").unwrap(), prefix_path("Alice").unwrap());
    assert_eq!(search_path("ali").unwrap(), prefix_path("ALIBABA").unwrap());
    assert_ne!(search_path("bob").unwrap(), prefix_path("Alice").unwrap());
}

#[test]
fn link_tags_are_msgpack_strings() {
    assert_eq!(link_tag("abc").unwrap().bytes, msgpack_str("abc"));
    assert_eq!(profile_tag().unwrap().bytes, msgpack_str("profile"));
    assert_eq!(TagKind::Bucket("ali".to_string()).encode().unwrap().bytes, msgpack_str("ali"));
    assert_eq!(TagKind::Profile.encode().unwrap().bytes, msgpack_str("profile"));
}

#[test]
fn publication_writes_two_index_links() {
    let p = plan_publication(identity(1), profile("Alice"), &address(9), &address(7)).unwrap();
    assert_eq!(p.bucket_link.source.bytes, address(7).bytes);
    assert_eq!(p.bucket_link.target.bytes, address(9).bytes);
    assert_eq!(p.bucket_link.tag.bytes, msgpack_str("ali"));
    assert_eq!(p.identity_link.source.bytes, identity(1).key);
    assert_eq!(p.identity_link.target.bytes, address(9).bytes);
    assert_eq!(p.identity_link.tag.bytes, msgpack_str("profile"));
    assert_eq!(p.agent_profile.agent_pub_key.key, identity(1).key);
    assert_eq!(p.agent_profile.profile.nickname, "Alice");
}

#[test]
fn publication_refuses_short_nickname() {
    let r = plan_publication(identity(1), profile("Al"), &address(9), &address(7));
    assert_eq!(r.err().unwrap(), ProfileError::InvalidNickname);
}

#[test]
fn round_trip_by_identity() {
    let p = plan_publication(identity(1), profile("Alice"), &address(9), &address(7)).unwrap();
    let store = vec![p.bucket_link, p.identity_link];
    let tag = profile_tag().unwrap();
    let links = links_from(&store, &identity(1).key, &tag.bytes);
    let target = first_target(&links).unwrap();
    assert_eq!(target.bytes, address(9).bytes);
    let found = Some(record(1, "Alice"));
    let ap = profile_for_identity(identity(1), found).unwrap();
    assert_eq!(ap.agent_pub_key.key, identity(1).key);
    assert_eq!(ap.profile.nickname, "Alice");
}

#[test]
fn lookup_of_unknown_identity_is_empty() {
    let links: Vec<Link> = vec![];
    assert!(first_target(&links).is_none());
    assert!(profile_for_identity(identity(2), None).is_none());
}

#[test]
fn batch_lookup_drops_identities_without_profile() {
    let tag = profile_tag().unwrap();
    let p1 = plan_publication(identity(1), profile("Alice"), &address(11), &address(7)).unwrap();
    let p3 = plan_publication(identity(3), profile("Carol"), &address(13), &address(8)).unwrap();
    let store = vec![p1.bucket_link, p1.identity_link, p3.bucket_link, p3.identity_link];
    let groups: Vec<Vec<Link>> = [1u8, 2, 3]
        .iter()
        .map(|b| links_from(&store, &identity(*b).key, &tag.bytes))
        .collect();
    let targets = targets_of_all(&groups);
    assert_eq!(targets.len(), 2);
    assert_eq!(targets[0].bytes, address(11).bytes);
    assert_eq!(targets[1].bytes, address(13).bytes);
    let found = vec![Some(record(1, "Alice")), Some(record(3, "Carol"))];
    let result = annotate_records(found);
    assert_eq!(result.len(), 2);
    assert_eq!(result[0].agent_pub_key.key, identity(1).key);
    assert_eq!(result[1].agent_pub_key.key, identity(3).key);
}

#[test]
fn annotate_records_pairs_with_author_and_drops_missing() {
    let found = vec![Some(record(4, "Dave")), None, Some(record(5, "Dana"))];
    let result = annotate_records(found);
    assert_eq!(result.len(), 2);
    assert_eq!(result[0].agent_pub_key.key, identity(4).key);
    assert_eq!(result[0].profile.nickname, "Dave");
    assert_eq!(result[1].agent_pub_key.key, identity(5).key);
    assert_eq!(result[1].profile.nickname, "Dana");
}

#[test]
fn targets_keep_link_order() {
    let links = vec![
        Link { source: address(1), target: address(2), tag: profiles::Tag { bytes: vec![] } },
        Link { source: address(1), target: address(3), tag: profiles::Tag { bytes: vec![] } },
    ];
    let t = targets_of(&links);
    assert_eq!(t.len(), 2);
    assert_eq!(t[0].bytes, address(2).bytes);
    assert_eq!(t[1].bytes, address(3).bytes);
}

#[test]
fn listing_gathers_every_bucket() {
    let ali = annotate_records(vec![Some(record(1, "Alice")), Some(record(2, "Alina"))]);
    let bob = annotate_records(vec![Some(record(3, "Bob"))]);
    let empty: Vec<AgentProfile> = vec![];
    let all = concat_profiles(vec![ali, bob, empty]);
    assert_eq!(all.len(), 3);
    let names: Vec<&str> = all.iter().map(|a| a.profile.nickname.as_str()).collect();
    assert_eq!(names, vec!["Alice", "Alina", "Bob"]);
}

#[test]
fn alice_scenario() {
    let a = identity(10);
    assert_eq!(bucket_key("Alice").unwrap(), "ali");
    let bucket = address(20);
    let p = plan_publication(a, profile("Alice"), &address(30), &bucket).unwrap();
    assert_eq!(p.agent_profile.profile.nickname, "Alice");
    assert_eq!(search_path("ali").unwrap(), prefix_path("Alice").unwrap());
    let store = vec![p.bucket_link, p.identity_link];
    let under_bucket: Vec<&Link> = store.iter().filter(|l| l.source.bytes == bucket.bytes).collect();
    assert_eq!(under_bucket.len(), 1);
    assert_eq!(under_bucket[0].target.bytes, address(30).bytes);
    let result = annotate_records(vec![Some(record(10, "Alice"))]);
    assert_eq!(result.len(), 1);
    assert_eq!(result[0].profile.nickname, "Alice");
    assert_eq!(result[0].agent_pub_key.key, identity(10).key);
    assert_eq!(search_path("al").unwrap_err(), ProfileError::PrefixTooShort);
}

#[test]
fn three_character_nickname_is_placed() {
    assert_eq!(bucket_key("Bob").unwrap(), "bob");
    let p = plan_publication(identity(1), profile("Bob"), &address(9), &address(7)).unwrap();
    assert_eq!(p.bucket_link.tag.bytes, msgpack_str("bob"));
}

#[test]
fn distinct_texts_give_distinct_tags() {
    assert_ne!(link_tag("pro").unwrap().bytes, profile_tag().unwrap().bytes);
    assert_ne!(link_tag("ali").unwrap().bytes, link_tag("alj").unwrap().bytes);
    assert_eq!(link_tag("ali").unwrap().bytes, link_tag("ali").unwrap().bytes);
}
