//! Laws relating the store's operations to one another.
//!
//! Each proof function here states a guarantee that spans more than one
//! operation or holds of every reachable store, over the same views and spec
//! functions the operations' own contracts use.

use vstd::prelude::*;

use crate::errors::BlogError;
use crate::identity::Identity;
use crate::store::create_post_err;
use crate::store::delete_post_effect;
use crate::store::delete_post_err;
use crate::store::update_post_content_err;
use crate::store::update_post_effect;
use crate::store::update_post_err;
use crate::store::PostKey;
use crate::store::StoreView;

verus! {

/// In an invariant-respecting store, the id `create_post` is about to assign
/// — the blog's current `post_count` — is not the id of any stored post of
/// that blog: every existing id lies strictly below the counter. Since
/// `create_post` assigns exactly that counter value and then increments it,
/// repeated calls never produce duplicate ids for one blog.
pub proof fn lemma_fresh_post_id(v: StoreView, blog: Identity)
    requires
        v.inv(),
        v.blogs.contains_key(blog),
    ensures
        !v.posts.contains_key(PostKey { blog, id: v.blogs[blog].post_count }),
        forall|k: PostKey| #[trigger]
            v.posts.contains_key(k) && k.blog == blog ==> k.id < v.blogs[blog].post_count,
{
    assert forall|k: PostKey| #[trigger] v.posts.contains_key(k) && k.blog == blog implies k.id
        < v.blogs[blog].post_count by {
        assert(v.posts[k].id == k.id);
    }
}

/// After a successful `delete_post`, the deleted address is vacant — a read
/// there answers not-found — and every other record is exactly as it was.
pub proof fn lemma_deleted_post_unreadable(v: StoreView, key: PostKey)
    ensures
        !delete_post_effect(v, key).posts.contains_key(key),
        delete_post_effect(v, key).blogs == v.blogs,
        forall|k: PostKey|
            k != key ==> #[trigger] delete_post_effect(v, key).posts.contains_key(k)
                == v.posts.contains_key(k),
        forall|k: PostKey|
            k != key && v.posts.contains_key(k) ==> #[trigger] delete_post_effect(
                v,
                key,
            ).posts[k] == v.posts[k],
{
}

/// `update_post` with both optional fields absent always succeeds for the
/// post's author, and changes nothing but `updated_at`, which becomes `now`.
pub proof fn lemma_update_meta_without_fields(v: StoreView, key: PostKey, now: i64)
    requires
        v.posts.contains_key(key),
    ensures
        update_post_err(v, v.posts[key].author, key, None, None) is None,
        update_post_effect(v, key, None, None, now).blogs == v.blogs,
        ({
            let p = v.posts[key];
            let p2 = update_post_effect(v, key, None, None, now).posts[key];
            &&& p2.title == p.title
            &&& p2.tags == p.tags
            &&& p2.content == p.content
            &&& p2.author == p.author
            &&& p2.blog == p.blog
            &&& p2.id == p.id
            &&& p2.created_at == p.created_at
            &&& p2.updated_at == now
        }),
        forall|k: PostKey|
            k != key && v.posts.contains_key(k) ==> #[trigger] update_post_effect(
                v,
                key,
                None,
                None,
                now,
            ).posts[k] == v.posts[k],
{
}

/// Only the recorded author of a post may mutate or delete it: any other
/// caller is rejected with `UnauthorizedAuthor` by all three post-mutating
/// operations, whatever the rest of the arguments — and the operations'
/// contracts then leave the store unchanged.
pub proof fn lemma_only_author_may_mutate_post(
    v: StoreView,
    caller: Identity,
    key: PostKey,
    new_title: Option<Seq<u8>>,
    new_tags: Option<Seq<Seq<u8>>>,
    chunk: Seq<u8>,
)
    requires
        v.posts.contains_key(key),
        caller != v.posts[key].author,
    ensures
        update_post_err(v, caller, key, new_title, new_tags) == Some(
            BlogError::UnauthorizedAuthor,
        ),
        update_post_content_err(v, caller, key, chunk) == Some(BlogError::UnauthorizedAuthor),
        delete_post_err(v, caller, key) == Some(BlogError::UnauthorizedAuthor),
{
}

/// Only the recorded author of a blog may create posts under it: any other
/// caller is rejected with `UnauthorizedAuthor`, whatever title and tags it
/// offers — and `create_post`'s contract then leaves the store unchanged.
pub proof fn lemma_only_author_may_create_post(
    v: StoreView,
    caller: Identity,
    blog: Identity,
    title: Seq<u8>,
    tags: Seq<Seq<u8>>,
)
    requires
        v.blogs.contains_key(blog),
        caller != v.blogs[blog].author,
    ensures
        create_post_err(v, caller, blog, title, tags) == Some(BlogError::UnauthorizedAuthor),
{
}

} // verus!
