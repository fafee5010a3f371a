//! The record store: the five operations, their contracts, and its invariant.

use vstd::prelude::*;

use crate::assoc::assoc_map;
use crate::assoc::keys_distinct;
use crate::assoc::lemma_assoc_contains;
use crate::assoc::lemma_assoc_index;
use crate::assoc::lemma_assoc_push;
use crate::assoc::lemma_assoc_remove;
use crate::assoc::lemma_assoc_update;
use crate::assoc::lemma_distinct_push;
use crate::assoc::lemma_distinct_remove;
use crate::assoc::lemma_distinct_update;
use crate::errors::BlogError;
use crate::identity::Identity;
use crate::states::Blog;
use crate::states::BlogView;
use crate::states::Post;
use crate::states::PostView;
use crate::states::BLOG_DESCRIPTION_MAX;
use crate::states::BLOG_TITLE_MAX;
use crate::states::POST_CONTENT_MAX;
use crate::states::POST_TAGS_MAX;
use crate::states::POST_TITLE_MAX;
use crate::states::TAG_MAX;

verus! {

/// The deterministic address of a post: the owning blog's identity and the
/// post's immutable sequence id. (A blog's address is its author's identity;
/// blogs and posts live in separate address spaces.)
#[derive(Clone, Copy, PartialEq, Eq, Structural, Debug)]
pub struct PostKey {
    pub blog: Identity,
    pub id: u64,
}

/// The mathematical value of the whole store: one map per record kind, each
/// keyed by the records' deterministic addresses.
pub struct StoreView {
    pub blogs: Map<Identity, BlogView>,
    pub posts: Map<PostKey, PostView>,
}

/// A blog's address in the map it lives in.
pub open spec fn blog_key_fn() -> spec_fn(Blog) -> Identity {
    |b: Blog| b.author
}

/// A blog's mathematical value.
pub open spec fn blog_val_fn() -> spec_fn(Blog) -> BlogView {
    |b: Blog| b@
}

/// A post's address in the map it lives in.
pub open spec fn post_key_fn() -> spec_fn(Post) -> PostKey {
    |p: Post| PostKey { blog: p.blog, id: p.id }
}

/// A post's mathematical value.
pub open spec fn post_val_fn() -> spec_fn(Post) -> PostView {
    |p: Post| p@
}

/// Does `b` own `p`: `p` points back at `b`, carries `b`'s author, and its id
/// was assigned from `b`'s counter.
pub open spec fn blog_owns_post(b: Blog, p: Post) -> bool {
    &&& b.author == p.blog
    &&& p.author == b.author
    &&& p.id < b.post_count
}

impl StoreView {
    /// What holds of every reachable store: records satisfy their field
    /// limits, every record sits at the address derived from its own fields,
    /// every post's blog exists, a post's author is its blog's author, and a
    /// post's id is below its blog's counter (so ids never repeat).
    pub open spec fn inv(self) -> bool {
        &&& forall|a: Identity| #[trigger]
            self.blogs.contains_key(a) ==> self.blogs[a].author == a && self.blogs[a].wf()
        &&& forall|k: PostKey| #[trigger] self.posts.contains_key(k) ==> {
            let p = self.posts[k];
            &&& p.blog == k.blog
            &&& p.id == k.id
            &&& p.wf()
            &&& self.blogs.contains_key(k.blog)
            &&& p.author == self.blogs[k.blog].author
            &&& p.id < self.blogs[k.blog].post_count
        }
    }
}

/// The record store. It keeps every blog and post under its deterministic
/// address; all five operations validate and authorize before they mutate,
/// and a rejected operation leaves the store untouched.
pub struct RecordStore {
    blogs: Vec<Blog>,
    posts: Vec<Post>,
}

impl View for RecordStore {
    type V = StoreView;

    closed spec fn view(&self) -> StoreView {
        StoreView {
            blogs: assoc_map(self.blogs@, blog_key_fn(), blog_val_fn()),
            posts: assoc_map(self.posts@, post_key_fn(), post_val_fn()),
        }
    }
}

impl RecordStore {
    /// Well-formedness of the representation: no two records share an
    /// address, and every record is internally consistent.
    pub closed spec fn wf(&self) -> bool {
        &&& keys_distinct(self.blogs@, blog_key_fn())
        &&& keys_distinct(self.posts@, post_key_fn())
        &&& forall|i: int| 0 <= i < self.blogs@.len() ==> (#[trigger] self.blogs@[i])@.wf()
        &&& forall|i: int| 0 <= i < self.posts@.len() ==> {
            let p = #[trigger] self.posts@[i];
            &&& p@.wf()
            &&& exists|j: int| 0 <= j < self.blogs@.len() && blog_owns_post(
                #[trigger] self.blogs@[j],
                p,
            )
        }
    }

    /// An empty store.
    pub fn new() -> (r: RecordStore)
        ensures
            r.wf(),
            r@.blogs == Map::<Identity, BlogView>::empty(),
            r@.posts == Map::<PostKey, PostView>::empty(),
    {
        RecordStore { blogs: Vec::new(), posts: Vec::new() }
    }

    /// Index of the blog addressed by `author`, if one is stored.
    fn find_blog_idx(&self, author: Identity) -> (r: Option<usize>)
        ensures
            match r {
                Some(i) => i < self.blogs@.len() && self.blogs@[i as int].author == author,
                None => forall|j: int|
                    0 <= j < self.blogs@.len() ==> (#[trigger] self.blogs@[j]).author != author,
            },
    {
        let n = self.blogs.len();
        let mut i: usize = 0;
        while i < n
            invariant
                n == self.blogs@.len(),
                i <= n,
                forall|j: int| 0 <= j < i ==> (#[trigger] self.blogs@[j]).author != author,
            decreases n - i,
        {
            if self.blogs[i].author == author {
                return Some(i);
            }
            i = i + 1;
        }
        None
    }

    /// Index of the post addressed by `key`, if one is stored.
    fn find_post_idx(&self, key: PostKey) -> (r: Option<usize>)
        ensures
            match r {
                Some(i) => i < self.posts@.len() && post_key_fn()(self.posts@[i as int]) == key,
                None => forall|j: int|
                    0 <= j < self.posts@.len() ==> post_key_fn()(#[trigger] self.posts@[j]) != key,
            },
    {
        let n = self.posts.len();
        let mut i: usize = 0;
        while i < n
            invariant
                n == self.posts@.len(),
                i <= n,
                forall|j: int| 0 <= j < i ==> post_key_fn()(#[trigger] self.posts@[j]) != key,
            decreases n - i,
        {
            if self.posts[i].blog == key.blog && self.posts[i].id == key.id {
                return Some(i);
            }
            i = i + 1;
        }
        None
    }

    /// Reads the blog at the address derived from `author`; `None` is the
    /// store's not-found answer.
    pub fn read_blog(&self, author: Identity) -> (r: Option<&Blog>)
        requires
            self.wf(),
        ensures
            match r {
                Some(b) => self@.blogs.contains_key(author) && b@ == self@.blogs[author],
                None => !self@.blogs.contains_key(author),
            },
    {
        let idx = self.find_blog_idx(author);
        proof {
            lemma_assoc_contains(self.blogs@, blog_key_fn(), blog_val_fn(), author);
        }
        match idx {
            Some(i) => {
                proof {
                    lemma_assoc_index(self.blogs@, blog_key_fn(), blog_val_fn(), i as int);
                }
                Some(&self.blogs[i])
            },
            None => None,
        }
    }

    /// Reads the post at address `key`; `None` is the store's not-found
    /// answer.
    pub fn read_post(&self, key: PostKey) -> (r: Option<&Post>)
        requires
            self.wf(),
        ensures
            match r {
                Some(p) => self@.posts.contains_key(key) && p@ == self@.posts[key],
                None => !self@.posts.contains_key(key),
            },
    {
        let idx = self.find_post_idx(key);
        proof {
            lemma_assoc_contains(self.posts@, post_key_fn(), post_val_fn(), key);
        }
        match idx {
            Some(i) => {
                proof {
                    lemma_assoc_index(self.posts@, post_key_fn(), post_val_fn(), i as int);
                }
                Some(&self.posts[i])
            },
            None => None,
        }
    }
}

/// Why `initialize_blog` rejects, or `None` when it succeeds: the title and
/// description limits are enforced exactly at their boundaries, and the
/// author's address must be free.
pub open spec fn initialize_blog_err(
    v: StoreView,
    author: Identity,
    title: Seq<u8>,
    description: Seq<u8>,
) -> Option<BlogError> {
    if title.len() > BLOG_TITLE_MAX {
        Some(BlogError::TitleTooLong)
    } else if description.len() > BLOG_DESCRIPTION_MAX {
        Some(BlogError::DescriptionTooLong)
    } else if v.blogs.contains_key(author) {
        Some(BlogError::BlogAlreadyExists)
    } else {
        None
    }
}

/// The store after a successful `initialize_blog`: one new blog with a zero
/// post counter, posts untouched.
pub open spec fn initialize_blog_effect(
    v: StoreView,
    author: Identity,
    title: Seq<u8>,
    description: Seq<u8>,
) -> StoreView {
    StoreView {
        blogs: v.blogs.insert(
            author,
            BlogView { author, title, description, post_count: 0 },
        ),
        posts: v.posts,
    }
}

impl RecordStore {
    /// Creates the one blog the caller may own, at the address derived from
    /// its identity. Rejects over-long fields and an occupied address; on
    /// rejection the store is unchanged.
    pub fn initialize_blog(
        &mut self,
        author: Identity,
        title: Vec<u8>,
        description: Vec<u8>,
    ) -> (r: Result<(), BlogError>)
        requires
            old(self).wf(),
        ensures
            final(self).wf(),
            match initialize_blog_err(old(self)@, author, title@, description@) {
                Some(e) => r == Err::<(), BlogError>(e) && final(self)@ == old(self)@,
                None => r == Ok::<(), BlogError>(()) && final(self)@ == initialize_blog_effect(
                    old(self)@,
                    author,
                    title@,
                    description@,
                ),
            },
    {
        if title.len() > BLOG_TITLE_MAX {
            return Err(BlogError::TitleTooLong);
        }
        if description.len() > BLOG_DESCRIPTION_MAX {
            return Err(BlogError::DescriptionTooLong);
        }
        let idx = self.find_blog_idx(author);
        proof {
            lemma_assoc_contains(self.blogs@, blog_key_fn(), blog_val_fn(), author);
        }
        match idx {
            Some(_) => Err(BlogError::BlogAlreadyExists),
            None => {
                let b = Blog { author, title, description, post_count: 0 };
                proof {
                    lemma_distinct_push(self.blogs@, blog_key_fn(), b);
                    lemma_assoc_push(self.blogs@, blog_key_fn(), blog_val_fn(), b);
                }
                let ghost old_blogs = self.blogs@;
                self.blogs.push(b);
                proof {
                    assert(self.blogs@ == old_blogs.push(b));
                    assert forall|i: int| 0 <= i < self.posts@.len() implies {
                        let p = #[trigger] self.posts@[i];
                        &&& p@.wf()
                        &&& exists|j: int| 0 <= j < self.blogs@.len() && blog_owns_post(
                            #[trigger] self.blogs@[j],
                            p,
                        )
                    } by {
                        let p = self.posts@[i];
                        let j = choose|j: int|
                            0 <= j < old_blogs.len() && blog_owns_post(#[trigger] old_blogs[j], p);
                        assert(self.blogs@[j] == old_blogs[j]);
                        assert(blog_owns_post(self.blogs@[j], p));
                    }
                }
                Ok(())
            },
        }
    }

    /// Do all tags fit within [`TAG_MAX`] bytes?
    fn tags_within_limits(tags: &Vec<Vec<u8>>) -> (r: bool)
        ensures
            r <==> !(exists|i: int|
                0 <= i < tags.deep_view().len() && (#[trigger] tags.deep_view()[i]).len()
                    > TAG_MAX),
    {
        let n = tags.len();
        let mut i: usize = 0;
        while i < n
            invariant
                n == tags@.len(),
                i <= n,
                forall|j: int| 0 <= j < i ==> (#[trigger] tags.deep_view()[j]).len() <= TAG_MAX,
            decreases n - i,
        {
            if tags[i].len() > TAG_MAX {
                proof {
                    assert(tags.deep_view()[i as int].len() == tags@[i as int]@.len());
                }
                return false;
            }
            i = i + 1;
        }
        true
    }
}

/// The views of an optional replacement text.
pub open spec fn opt_bytes_view(o: Option<Vec<u8>>) -> Option<Seq<u8>> {
    match o {
        Some(v) => Some(v@),
        None => None,
    }
}

/// The views of an optional replacement tag list.
pub open spec fn opt_tags_view(o: Option<Vec<Vec<u8>>>) -> Option<Seq<Seq<u8>>> {
    match o {
        Some(v) => Some(v.deep_view()),
        None => None,
    }
}

/// Why `create_post` rejects, or `None` when it succeeds: the blog must
/// exist, the caller must be its author, and the title and tag limits are
/// enforced exactly at their boundaries.
pub open spec fn create_post_err(
    v: StoreView,
    caller: Identity,
    blog: Identity,
    title: Seq<u8>,
    tags: Seq<Seq<u8>>,
) -> Option<BlogError> {
    if !v.blogs.contains_key(blog) {
        Some(BlogError::BlogNotFound)
    } else if caller != v.blogs[blog].author {
        Some(BlogError::UnauthorizedAuthor)
    } else if title.len() > POST_TITLE_MAX {
        Some(BlogError::TitleTooLong)
    } else if tags.len() > POST_TAGS_MAX {
        Some(BlogError::TooManyTags)
    } else if exists|i: int| 0 <= i < tags.len() && (#[trigger] tags[i]).len() > TAG_MAX {
        Some(BlogError::TagTooLong)
    } else {
        None
    }
}

/// The store after a successful `create_post`: the new post sits at
/// `(blog, id)` where `id` is the blog's counter at call time, its content is
/// empty, both timestamps are `now`, and the counter has grown by exactly 1.
pub open spec fn create_post_effect(
    v: StoreView,
    blog: Identity,
    title: Seq<u8>,
    tags: Seq<Seq<u8>>,
    now: i64,
) -> StoreView {
    let b = v.blogs[blog];
    let id = b.post_count;
    StoreView {
        blogs: v.blogs.insert(
            blog,
            BlogView {
                author: b.author,
                title: b.title,
                description: b.description,
                post_count: (id + 1) as u64,
            },
        ),
        posts: v.posts.insert(
            PostKey { blog, id },
            PostView {
                author: b.author,
                blog,
                id,
                title,
                content: Seq::empty(),
                tags,
                created_at: now,
                updated_at: now,
            },
        ),
    }
}

impl RecordStore {
    /// Creates a post under the caller's blog. The new post's id is the
    /// blog's `post_count` at call time and the counter then grows by exactly
    /// 1, so no two posts of one blog ever share an id. On rejection the
    /// store is unchanged.
    pub fn create_post(
        &mut self,
        caller: Identity,
        blog: Identity,
        title: Vec<u8>,
        tags: Vec<Vec<u8>>,
        now: i64,
    ) -> (r: Result<u64, BlogError>)
        requires
            old(self).wf(),
            old(self)@.blogs.contains_key(blog) ==> old(self)@.blogs[blog].post_count
                < u64::MAX,
        ensures
            final(self).wf(),
            match create_post_err(old(self)@, caller, blog, title@, tags.deep_view()) {
                Some(e) => r == Err::<u64, BlogError>(e) && final(self)@ == old(self)@,
                None => r == Ok::<u64, BlogError>(old(self)@.blogs[blog].post_count)
                    && final(self)@ == create_post_effect(
                    old(self)@,
                    blog,
                    title@,
                    tags.deep_view(),
                    now,
                ),
            },
    {
        let idx = self.find_blog_idx(blog);
        proof {
            lemma_assoc_contains(self.blogs@, blog_key_fn(), blog_val_fn(), blog);
        }
        let i = match idx {
            None => {
                return Err(BlogError::BlogNotFound);
            },
            Some(i) => i,
        };
        proof {
            lemma_assoc_index(self.blogs@, blog_key_fn(), blog_val_fn(), i as int);
        }
        if self.blogs[i].author != caller {
            return Err(BlogError::UnauthorizedAuthor);
        }
        if title.len() > POST_TITLE_MAX {
            return Err(BlogError::TitleTooLong);
        }
        if tags.len() > POST_TAGS_MAX {
            return Err(BlogError::TooManyTags);
        }
        if !Self::tags_within_limits(&tags) {
            return Err(BlogError::TagTooLong);
        }
        let id = self.blogs[i].post_count;
        let ghost old_blogs = self.blogs@;
        let ghost old_posts = self.posts@;
        proof {
            assert forall|t: int| 0 <= t < old_posts.len() implies post_key_fn()(
                #[trigger] old_posts[t],
            ) != (PostKey { blog, id }) by {
                let p = old_posts[t];
                if p.blog == blog {
                    let j = choose|j: int|
                        0 <= j < old_blogs.len() && blog_owns_post(#[trigger] old_blogs[j], p);
                    assert(blog_key_fn()(old_blogs[j]) == blog);
                    assert(blog_key_fn()(old_blogs[i as int]) == blog);
                    assert(j == i as int);
                    assert(p.id < old_blogs[i as int].post_count);
                }
            }
        }
        let b = &mut self.blogs[i];
        b.post_count = id + 1;
        proof {
            let nb = self.blogs@[i as int];
            assert(self.blogs@ == old_blogs.update(i as int, nb));
            lemma_distinct_update(old_blogs, blog_key_fn(), i as int, nb);
            lemma_assoc_update(old_blogs, blog_key_fn(), blog_val_fn(), i as int, nb);
        }
        let p = Post {
            author: caller,
            blog,
            id,
            title,
            content: Vec::new(),
            tags,
            created_at: now,
            updated_at: now,
        };
        proof {
            lemma_distinct_push(old_posts, post_key_fn(), p);
            lemma_assoc_push(old_posts, post_key_fn(), post_val_fn(), p);
        }
        self.posts.push(p);
        proof {
            assert forall|t: int| 0 <= t < self.blogs@.len() implies (
            #[trigger] self.blogs@[t])@.wf() by {
                if t != i as int {
                    assert(self.blogs@[t] == old_blogs[t]);
                }
            }
            assert forall|t: int| 0 <= t < self.posts@.len() implies {
                let q = #[trigger] self.posts@[t];
                &&& q@.wf()
                &&& exists|j: int| 0 <= j < self.blogs@.len() && blog_owns_post(
                    #[trigger] self.blogs@[j],
                    q,
                )
            } by {
                let q = self.posts@[t];
                if t < old_posts.len() {
                    assert(q == old_posts[t]);
                    let j = choose|j: int|
                        0 <= j < old_blogs.len() && blog_owns_post(#[trigger] old_blogs[j], q);
                    if j == i as int {
                        assert(blog_owns_post(self.blogs@[j], q));
                    } else {
                        assert(self.blogs@[j] == old_blogs[j]);
                        assert(blog_owns_post(self.blogs@[j], q));
                    }
                } else {
                    assert(q == self.posts@[self.posts@.len() - 1]);
                    assert(blog_owns_post(self.blogs@[i as int], q));
                }
            }
        }
        Ok(id)
    }
}

/// Why `update_post` rejects, or `None` when it succeeds: the post must
/// exist, the caller must be its author, and each supplied field is held to
/// the same limits as at creation. Absent fields are not validated.
pub open spec fn update_post_err(
    v: StoreView,
    caller: Identity,
    key: PostKey,
    new_title: Option<Seq<u8>>,
    new_tags: Option<Seq<Seq<u8>>>,
) -> Option<BlogError> {
    if !v.posts.contains_key(key) {
        Some(BlogError::PostNotFound)
    } else if caller != v.posts[key].author {
        Some(BlogError::UnauthorizedAuthor)
    } else if match new_title {
        Some(t) => t.len() > POST_TITLE_MAX,
        None => false,
    } {
        Some(BlogError::TitleTooLong)
    } else if match new_tags {
        Some(t) => t.len() > POST_TAGS_MAX,
        None => false,
    } {
        Some(BlogError::TooManyTags)
    } else if match new_tags {
        Some(t) => exists|i: int| 0 <= i < t.len() && (#[trigger] t[i]).len() > TAG_MAX,
        None => false,
    } {
        Some(BlogError::TagTooLong)
    } else {
        None
    }
}

/// The store after a successful `update_post`: each supplied field replaces
/// the old one, absent fields stay as they were, and `updated_at` becomes
/// `now` even when both fields are absent. Everything else is untouched.
pub open spec fn update_post_effect(
    v: StoreView,
    key: PostKey,
    new_title: Option<Seq<u8>>,
    new_tags: Option<Seq<Seq<u8>>>,
    now: i64,
) -> StoreView {
    let p = v.posts[key];
    let p2 = PostView {
        author: p.author,
        blog: p.blog,
        id: p.id,
        title: match new_title {
            Some(t) => t,
            None => p.title,
        },
        content: p.content,
        tags: match new_tags {
            Some(t) => t,
            None => p.tags,
        },
        created_at: p.created_at,
        updated_at: now,
    };
    StoreView { blogs: v.blogs, posts: v.posts.insert(key, p2) }
}

impl RecordStore {
    /// Partially updates a post's metadata: replaces the title and the tag
    /// list where supplied, and always stamps `updated_at`, even when both
    /// fields are absent. On rejection the store is unchanged.
    pub fn update_post(
        &mut self,
        caller: Identity,
        key: PostKey,
        new_title: Option<Vec<u8>>,
        new_tags: Option<Vec<Vec<u8>>>,
        now: i64,
    ) -> (r: Result<(), BlogError>)
        requires
            old(self).wf(),
        ensures
            final(self).wf(),
            match update_post_err(
                old(self)@,
                caller,
                key,
                opt_bytes_view(new_title),
                opt_tags_view(new_tags),
            ) {
                Some(e) => r == Err::<(), BlogError>(e) && final(self)@ == old(self)@,
                None => r == Ok::<(), BlogError>(()) && final(self)@ == update_post_effect(
                    old(self)@,
                    key,
                    opt_bytes_view(new_title),
                    opt_tags_view(new_tags),
                    now,
                ),
            },
    {
        let idx = self.find_post_idx(key);
        proof {
            lemma_assoc_contains(self.posts@, post_key_fn(), post_val_fn(), key);
        }
        let i = match idx {
            None => {
                return Err(BlogError::PostNotFound);
            },
            Some(i) => i,
        };
        proof {
            lemma_assoc_index(self.posts@, post_key_fn(), post_val_fn(), i as int);
        }
        if self.posts[i].author != caller {
            return Err(BlogError::UnauthorizedAuthor);
        }
        match &new_title {
            Some(t) => {
                if t.len() > POST_TITLE_MAX {
                    return Err(BlogError::TitleTooLong);
                }
            },
            None => {},
        }
        match &new_tags {
            Some(t) => {
                if t.len() > POST_TAGS_MAX {
                    return Err(BlogError::TooManyTags);
                }
                if !Self::tags_within_limits(t) {
                    return Err(BlogError::TagTooLong);
                }
            },
            None => {},
        }
        let ghost old_posts = self.posts@;
        let p = &mut self.posts[i];
        if let Some(t) = new_title {
            p.title = t;
        }
        if let Some(t) = new_tags {
            p.tags = t;
        }
        p.updated_at = now;
        proof {
            let np = self.posts@[i as int];
            assert(self.posts@ == old_posts.update(i as int, np));
            lemma_distinct_update(old_posts, post_key_fn(), i as int, np);
            lemma_assoc_update(old_posts, post_key_fn(), post_val_fn(), i as int, np);
            assert forall|t: int| 0 <= t < self.posts@.len() implies {
                let q = #[trigger] self.posts@[t];
                &&& q@.wf()
                &&& exists|j: int| 0 <= j < self.blogs@.len() && blog_owns_post(
                    #[trigger] self.blogs@[j],
                    q,
                )
            } by {
                let q = self.posts@[t];
                let q0 = old_posts[t];
                let j = choose|j: int|
                    0 <= j < self.blogs@.len() && blog_owns_post(#[trigger] self.blogs@[j], q0);
                assert(blog_owns_post(self.blogs@[j], q));
            }
        }
        Ok(())
    }
}

/// Why `update_post_content` rejects, or `None` when it succeeds: the post
/// must exist, the caller must be its author, and a non-empty chunk must
/// leave the grown content within [`POST_CONTENT_MAX`] bytes — exactly that
/// size is still accepted. An empty chunk is always accepted.
pub open spec fn update_post_content_err(
    v: StoreView,
    caller: Identity,
    key: PostKey,
    chunk: Seq<u8>,
) -> Option<BlogError> {
    if !v.posts.contains_key(key) {
        Some(BlogError::PostNotFound)
    } else if caller != v.posts[key].author {
        Some(BlogError::UnauthorizedAuthor)
    } else if chunk.len() > 0 && v.posts[key].content.len() + chunk.len() > POST_CONTENT_MAX {
        Some(BlogError::ContentTooLong)
    } else {
        None
    }
}

/// The store after a successful `update_post_content`: an empty chunk resets
/// the content to empty (explicit reset semantics, not a no-op), a non-empty
/// chunk is appended; `updated_at` becomes `now` either way.
pub open spec fn update_post_content_effect(
    v: StoreView,
    key: PostKey,
    chunk: Seq<u8>,
    now: i64,
) -> StoreView {
    let p = v.posts[key];
    let p2 = PostView {
        author: p.author,
        blog: p.blog,
        id: p.id,
        title: p.title,
        content: if chunk.len() == 0 {
            Seq::empty()
        } else {
            p.content + chunk
        },
        tags: p.tags,
        created_at: p.created_at,
        updated_at: now,
    };
    StoreView { blogs: v.blogs, posts: v.posts.insert(key, p2) }
}

impl RecordStore {
    /// Appends `chunk` to a post's content, or clears the content when
    /// `chunk` is empty, and stamps `updated_at`. On rejection the store is
    /// unchanged.
    pub fn update_post_content(
        &mut self,
        caller: Identity,
        key: PostKey,
        chunk: Vec<u8>,
        now: i64,
    ) -> (r: Result<(), BlogError>)
        requires
            old(self).wf(),
        ensures
            final(self).wf(),
            match update_post_content_err(old(self)@, caller, key, chunk@) {
                Some(e) => r == Err::<(), BlogError>(e) && final(self)@ == old(self)@,
                None => r == Ok::<(), BlogError>(()) && final(self)@
                    == update_post_content_effect(old(self)@, key, chunk@, now),
            },
    {
        let idx = self.find_post_idx(key);
        proof {
            lemma_assoc_contains(self.posts@, post_key_fn(), post_val_fn(), key);
        }
        let i = match idx {
            None => {
                return Err(BlogError::PostNotFound);
            },
            Some(i) => i,
        };
        proof {
            lemma_assoc_index(self.posts@, post_key_fn(), post_val_fn(), i as int);
        }
        if self.posts[i].author != caller {
            return Err(BlogError::UnauthorizedAuthor);
        }
        let ghost old_posts = self.posts@;
        if chunk.is_empty() {
            let p = &mut self.posts[i];
            p.content = Vec::new();
            p.updated_at = now;
        } else {
            proof {
                assert(self.posts@[i as int]@.wf());
            }
            if chunk.len() > POST_CONTENT_MAX - self.posts[i].content.len() {
                return Err(BlogError::ContentTooLong);
            }
            let mut rest = chunk;
            let p = &mut self.posts[i];
            p.content.append(&mut rest);
            p.updated_at = now;
        }
        proof {
            let np = self.posts@[i as int];
            assert(self.posts@ == old_posts.update(i as int, np));
            lemma_distinct_update(old_posts, post_key_fn(), i as int, np);
            lemma_assoc_update(old_posts, post_key_fn(), post_val_fn(), i as int, np);
            assert forall|t: int| 0 <= t < self.posts@.len() implies {
                let q = #[trigger] self.posts@[t];
                &&& q@.wf()
                &&& exists|j: int| 0 <= j < self.blogs@.len() && blog_owns_post(
                    #[trigger] self.blogs@[j],
                    q,
                )
            } by {
                let q = self.posts@[t];
                let q0 = old_posts[t];
                let j = choose|j: int|
                    0 <= j < self.blogs@.len() && blog_owns_post(#[trigger] self.blogs@[j], q0);
                assert(blog_owns_post(self.blogs@[j], q));
            }
        }
        Ok(())
    }
}

/// Why `delete_post` rejects, or `None` when it succeeds: the post must
/// exist, the caller must be its author, and a post whose blog back-reference
/// is the zero identity counts as not found and cannot be deleted.
pub open spec fn delete_post_err(v: StoreView, caller: Identity, key: PostKey) -> Option<
    BlogError,
> {
    if !v.posts.contains_key(key) {
        Some(BlogError::PostNotFound)
    } else if caller != v.posts[key].author {
        Some(BlogError::UnauthorizedAuthor)
    } else if v.posts[key].blog == Identity::spec_zero() {
        Some(BlogError::PostNotFound)
    } else {
        None
    }
}

/// The store after a successful `delete_post`: the post's address is vacant
/// again and everything else is untouched.
pub open spec fn delete_post_effect(v: StoreView, key: PostKey) -> StoreView {
    StoreView { blogs: v.blogs, posts: v.posts.remove(key) }
}

impl RecordStore {
    /// Permanently removes a post. The removed record — the storage the post
    /// held — is handed back to the caller, who is its author. On rejection
    /// the store is unchanged.
    pub fn delete_post(&mut self, caller: Identity, key: PostKey) -> (r: Result<
        Post,
        BlogError,
    >)
        requires
            old(self).wf(),
        ensures
            final(self).wf(),
            match delete_post_err(old(self)@, caller, key) {
                Some(e) => r == Err::<Post, BlogError>(e) && final(self)@ == old(self)@,
                None => (match r {
                    Ok(p) => p@ == old(self)@.posts[key],
                    Err(_) => false,
                }) && final(self)@ == delete_post_effect(old(self)@, key),
            },
    {
        let idx = self.find_post_idx(key);
        proof {
            lemma_assoc_contains(self.posts@, post_key_fn(), post_val_fn(), key);
        }
        let i = match idx {
            None => {
                return Err(BlogError::PostNotFound);
            },
            Some(i) => i,
        };
        proof {
            lemma_assoc_index(self.posts@, post_key_fn(), post_val_fn(), i as int);
        }
        if self.posts[i].author != caller {
            return Err(BlogError::UnauthorizedAuthor);
        }
        let zero = Identity::zero();
        if self.posts[i].blog == zero {
            return Err(BlogError::PostNotFound);
        }
        let ghost old_posts = self.posts@;
        proof {
            lemma_distinct_remove(old_posts, post_key_fn(), i as int);
            lemma_assoc_remove(old_posts, post_key_fn(), post_val_fn(), i as int);
        }
        let p = self.posts.remove(i);
        proof {
            assert forall|t: int| 0 <= t < self.posts@.len() implies {
                let q = #[trigger] self.posts@[t];
                &&& q@.wf()
                &&& exists|j: int| 0 <= j < self.blogs@.len() && blog_owns_post(
                    #[trigger] self.blogs@[j],
                    q,
                )
            } by {
                let t0: int = if t < i as int {
                    t
                } else {
                    t + 1
                };
                let q = self.posts@[t];
                assert(q == old_posts[t0]);
                let j = choose|j: int|
                    0 <= j < self.blogs@.len() && blog_owns_post(
                        #[trigger] self.blogs@[j],
                        old_posts[t0],
                    );
                assert(blog_owns_post(self.blogs@[j], q));
            }
        }
        Ok(p)
    }
}

/// Every well-formed store satisfies the view-level invariant
/// [`StoreView::inv`]: records sit at the addresses derived from their own
/// fields, within their field limits, every post's blog exists and shares its
/// author, and every post's id is below its blog's counter.
pub proof fn lemma_store_invariant(s: &RecordStore)
    requires
        s.wf(),
    ensures
        s@.inv(),
{
    assert forall|a: Identity| #[trigger] s@.blogs.contains_key(a) implies s@.blogs[a].author == a
        && s@.blogs[a].wf() by {
        lemma_assoc_contains(s.blogs@, blog_key_fn(), blog_val_fn(), a);
        let i = choose|i: int| 0 <= i < s.blogs@.len() && blog_key_fn()(#[trigger] s.blogs@[i]) == a;
        lemma_assoc_index(s.blogs@, blog_key_fn(), blog_val_fn(), i);
    }
    assert forall|k: PostKey| #[trigger] s@.posts.contains_key(k) implies {
        let p = s@.posts[k];
        &&& p.blog == k.blog
        &&& p.id == k.id
        &&& p.wf()
        &&& s@.blogs.contains_key(k.blog)
        &&& p.author == s@.blogs[k.blog].author
        &&& p.id < s@.blogs[k.blog].post_count
    } by {
        lemma_assoc_contains(s.posts@, post_key_fn(), post_val_fn(), k);
        let i = choose|i: int| 0 <= i < s.posts@.len() && post_key_fn()(#[trigger] s.posts@[i]) == k;
        lemma_assoc_index(s.posts@, post_key_fn(), post_val_fn(), i);
        let q = s.posts@[i];
        let j = choose|j: int| 0 <= j < s.blogs@.len() && blog_owns_post(#[trigger] s.blogs@[j], q);
        lemma_assoc_index(s.blogs@, blog_key_fn(), blog_val_fn(), j);
    }
}

} // verus!
