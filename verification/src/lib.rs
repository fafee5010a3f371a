//! A validated, authorization-gated record store for blogs and posts.
//!
//! An author owns at most one [`states::Blog`]; a blog owns any number of
//! [`states::Post`] records, each addressed by the owning blog's identity and
//! an immutable sequence id. Every mutating operation checks field-length
//! limits and that the caller is the recorded author before touching a record,
//! and either applies its whole effect or leaves the store unchanged.

mod assoc;
mod errors;
mod identity;
mod laws;
mod states;
mod store;

pub use errors::BlogError;
pub use identity::Identity;
pub use laws::lemma_deleted_post_unreadable;
pub use laws::lemma_fresh_post_id;
pub use laws::lemma_only_author_may_create_post;
pub use laws::lemma_only_author_may_mutate_post;
pub use laws::lemma_update_meta_without_fields;
pub use states::tags_wf;
pub use states::Blog;
pub use states::BlogView;
pub use states::Post;
pub use states::PostView;
pub use states::BLOG_DESCRIPTION_MAX;
pub use states::BLOG_TITLE_MAX;
pub use states::POST_CONTENT_MAX;
pub use states::POST_TAGS_MAX;
pub use states::POST_TITLE_MAX;
pub use states::TAG_MAX;
pub use store::create_post_effect;
pub use store::create_post_err;
pub use store::delete_post_effect;
pub use store::delete_post_err;
pub use store::initialize_blog_effect;
pub use store::initialize_blog_err;
pub use store::lemma_store_invariant;
pub use store::opt_bytes_view;
pub use store::opt_tags_view;
pub use store::update_post_content_effect;
pub use store::update_post_content_err;
pub use store::update_post_effect;
pub use store::update_post_err;
pub use store::PostKey;
pub use store::RecordStore;
pub use store::StoreView;
