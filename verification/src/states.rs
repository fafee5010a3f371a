//! The two record kinds the store keeps, with their views and field limits.

use vstd::prelude::*;

use crate::identity::Identity;

verus! {

/// Longest blog title, in bytes.
pub const BLOG_TITLE_MAX: usize = 100;
/// Longest blog description, in bytes.
pub const BLOG_DESCRIPTION_MAX: usize = 500;
/// Longest post title, in bytes.
pub const POST_TITLE_MAX: usize = 200;
/// Longest post content, in bytes.
pub const POST_CONTENT_MAX: usize = 5000;
/// Most tags a post may carry.
pub const POST_TAGS_MAX: usize = 2;
/// Longest single tag, in bytes.
pub const TAG_MAX: usize = 10;

/// A top-level record owned by one author: a title, a description, and a
/// counter of the posts ever created under it.
pub struct Blog {
    pub author: Identity,
    pub title: Vec<u8>,
    pub description: Vec<u8>,
    pub post_count: u64,
}

/// The mathematical value of a [`Blog`]: its text fields as byte sequences.
pub struct BlogView {
    pub author: Identity,
    pub title: Seq<u8>,
    pub description: Seq<u8>,
    pub post_count: u64,
}

impl View for Blog {
    type V = BlogView;

    open spec fn view(&self) -> BlogView {
        BlogView {
            author: self.author,
            title: self.title@,
            description: self.description@,
            post_count: self.post_count,
        }
    }
}

impl BlogView {
    /// Field-length limits every stored blog satisfies.
    pub open spec fn wf(self) -> bool {
        &&& self.title.len() <= BLOG_TITLE_MAX
        &&& self.description.len() <= BLOG_DESCRIPTION_MAX
    }
}

/// A child record under a blog: addressed by `(blog, id)`, where `id` was the
/// blog's `post_count` when the post was created and never changes.
pub struct Post {
    pub author: Identity,
    pub blog: Identity,
    pub id: u64,
    pub title: Vec<u8>,
    pub content: Vec<u8>,
    pub tags: Vec<Vec<u8>>,
    pub created_at: i64,
    pub updated_at: i64,
}

/// The mathematical value of a [`Post`].
pub struct PostView {
    pub author: Identity,
    pub blog: Identity,
    pub id: u64,
    pub title: Seq<u8>,
    pub content: Seq<u8>,
    pub tags: Seq<Seq<u8>>,
    pub created_at: i64,
    pub updated_at: i64,
}

impl View for Post {
    type V = PostView;

    open spec fn view(&self) -> PostView {
        PostView {
            author: self.author,
            blog: self.blog,
            id: self.id,
            title: self.title@,
            content: self.content@,
            tags: self.tags.deep_view(),
            created_at: self.created_at,
            updated_at: self.updated_at,
        }
    }
}

/// Tag limits: at most [`POST_TAGS_MAX`] tags, each at most [`TAG_MAX`] bytes.
pub open spec fn tags_wf(tags: Seq<Seq<u8>>) -> bool {
    &&& tags.len() <= POST_TAGS_MAX
    &&& forall|i: int| 0 <= i < tags.len() ==> (#[trigger] tags[i]).len() <= TAG_MAX
}

impl PostView {
    /// Field-length limits every stored post satisfies.
    pub open spec fn wf(self) -> bool {
        &&& self.title.len() <= POST_TITLE_MAX
        &&& self.content.len() <= POST_CONTENT_MAX
        &&& tags_wf(self.tags)
    }
}

} // verus!
