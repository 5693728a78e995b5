//! A profile directory indexed two ways over a content-addressable, link-based
//! store: by the publishing identity, and by a bucket derived from the
//! lower-cased first three characters of the nickname.
//!
//! The store itself lives outside this library. The functions here compute
//! every value that is written to it and assemble every answer from what it
//! returns; `store` models the store's visible state so that the directory's
//! laws can be stated and proved.

mod directory;
mod link_index;
mod path_index;
mod store;
mod types;

pub use directory::{
    annotate_record, annotate_records, concat_profiles, first_target, plan_publication,
    profile_for_identity, targets_of, targets_of_all, Publication,
};
pub use link_index::{index_links, link_tag, profile_tag, TagKind};
pub use path_index::{
    bucket_key, key_of_lowered, node_path, prefix_path, root_path, search_path, BUCKET_WIDTH,
};
pub use types::{copy_bytes, Address, AgentProfile, Identity, Link, Profile, ProfileError, Record, Tag};
pub use path_index::{lemma_bucketing_determinism, lemma_node_path_injective};
pub use store::{
    lemma_batch_lookup, lemma_listing_after_publications, lemma_listing_complete,
    lemma_publication_links, lemma_publications_counted, lemma_round_trip,
};
