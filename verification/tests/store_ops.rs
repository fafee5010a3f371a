use blog_dapp::BlogError;
use blog_dapp::Identity;
use blog_dapp::PostKey;
use blog_dapp::RecordStore;

fn author_a() -> Identity {
    Identity::new(0, 1)
}

fn author_b() -> Identity {
    Identity::new(0, 2)
}

#[test]
fn scenario_blog_with_two_posts() {
    let a = author_a();
    let mut store = RecordStore::new();

    assert_eq!(store.initialize_blog(a, b"T".to_vec(), b"D".to_vec()), Ok(()));
    let blog = store.read_blog(a).expect("blog was just created");
    assert_eq!(blog.author, a);
    assert_eq!(blog.title, b"T".to_vec());
    assert_eq!(blog.description, b"D".to_vec());
    assert_eq!(blog.post_count, 0);

    assert_eq!(store.create_post(a, a, b"P1".to_vec(), vec![b"x".to_vec()], 100), Ok(0));
    assert_eq!(store.read_blog(a).unwrap().post_count, 1);

    assert_eq!(store.create_post(a, a, b"P2".to_vec(), vec![], 200), Ok(1));
    assert_eq!(store.read_blog(a).unwrap().post_count, 2);

    let key0 = PostKey { blog: a, id: 0 };
    let key1 = PostKey { blog: a, id: 1 };

    let p0 = store.read_post(key0).expect("first post exists");
    assert_eq!(p0.id, 0);
    assert_eq!(p0.author, a);
    assert_eq!(p0.blog, a);
    assert_eq!(p0.title, b"P1".to_vec());
    assert_eq!(p0.content, Vec::<u8>::new());
    assert_eq!(p0.tags, vec![b"x".to_vec()]);
    assert_eq!(p0.created_at, 100);
    assert_eq!(p0.updated_at, 100);

    assert_eq!(store.update_post(a, key0, Some(b"P1b".to_vec()), None, 300), Ok(()));
    assert_eq!(store.read_post(key0).unwrap().title, b"P1b".to_vec());

    let removed = store.delete_post(a, key0).expect("author may delete its post");
    assert_eq!(removed.id, 0);
    assert_eq!(removed.title, b"P1b".to_vec());
    assert!(store.read_post(key0).is_none());

    let p1 = store.read_post(key1).expect("second post is unaffected");
    assert_eq!(p1.title, b"P2".to_vec());
    assert_eq!(store.read_blog(a).unwrap().post_count, 2);
}

#[test]
fn post_ids_are_assigned_in_sequence_and_never_reused() {
    let a = author_a();
    let mut store = RecordStore::new();
    assert_eq!(store.initialize_blog(a, b"t".to_vec(), b"d".to_vec()), Ok(()));

    let mut ids = Vec::new();
    for n in 0..4 {
        ids.push(store.create_post(a, a, b"p".to_vec(), vec![], n).unwrap());
    }
    assert_eq!(ids, vec![0, 1, 2, 3]);

    // Deleting a post does not free its id: the counter only grows.
    assert!(store.delete_post(a, PostKey { blog: a, id: 1 }).is_ok());
    assert_eq!(store.create_post(a, a, b"p".to_vec(), vec![], 9), Ok(4));
    assert_eq!(store.read_blog(a).unwrap().post_count, 5);
}

#[test]
fn second_blog_for_same_author_is_rejected() {
    let a = author_a();
    let mut store = RecordStore::new();
    assert_eq!(store.initialize_blog(a, b"first".to_vec(), b"d".to_vec()), Ok(()));
    assert_eq!(
        store.initialize_blog(a, b"second".to_vec(), b"d2".to_vec()),
        Err(BlogError::BlogAlreadyExists)
    );
    let blog = store.read_blog(a).unwrap();
    assert_eq!(blog.title, b"first".to_vec());
    assert_eq!(blog.description, b"d".to_vec());
}

#[test]
fn create_post_under_missing_blog_is_rejected() {
    let a = author_a();
    let mut store = RecordStore::new();
    assert_eq!(
        store.create_post(a, a, b"p".to_vec(), vec![], 1),
        Err(BlogError::BlogNotFound)
    );
}

#[test]
fn operations_on_missing_post_are_rejected() {
    let a = author_a();
    let mut store = RecordStore::new();
    assert_eq!(store.initialize_blog(a, b"t".to_vec(), b"d".to_vec()), Ok(()));
    let missing = PostKey { blog: a, id: 7 };
    assert_eq!(store.update_post(a, missing, None, None, 1), Err(BlogError::PostNotFound));
    assert_eq!(
        store.update_post_content(a, missing, b"x".to_vec(), 1),
        Err(BlogError::PostNotFound)
    );
    assert!(matches!(store.delete_post(a, missing), Err(BlogError::PostNotFound)));
}

#[test]
fn only_the_author_may_create_posts() {
    let a = author_a();
    let b = author_b();
    let mut store = RecordStore::new();
    assert_eq!(store.initialize_blog(a, b"t".to_vec(), b"d".to_vec()), Ok(()));
    assert_eq!(
        store.create_post(b, a, b"p".to_vec(), vec![], 1),
        Err(BlogError::UnauthorizedAuthor)
    );
    assert_eq!(store.read_blog(a).unwrap().post_count, 0);
    assert!(store.read_post(PostKey { blog: a, id: 0 }).is_none());
}

#[test]
fn only_the_author_may_mutate_a_post() {
    let a = author_a();
    let b = author_b();
    let mut store = RecordStore::new();
    assert_eq!(store.initialize_blog(a, b"t".to_vec(), b"d".to_vec()), Ok(()));
    assert_eq!(store.create_post(a, a, b"p".to_vec(), vec![b"x".to_vec()], 10), Ok(0));
    let key = PostKey { blog: a, id: 0 };
    assert_eq!(store.update_post_content(a, key, b"body".to_vec(), 11), Ok(()));

    assert_eq!(
        store.update_post(b, key, Some(b"q".to_vec()), None, 12),
        Err(BlogError::UnauthorizedAuthor)
    );
    assert_eq!(
        store.update_post_content(b, key, b"more".to_vec(), 12),
        Err(BlogError::UnauthorizedAuthor)
    );
    assert!(matches!(store.delete_post(b, key), Err(BlogError::UnauthorizedAuthor)));

    // The record is exactly as the author left it.
    let p = store.read_post(key).unwrap();
    assert_eq!(p.title, b"p".to_vec());
    assert_eq!(p.content, b"body".to_vec());
    assert_eq!(p.tags, vec![b"x".to_vec()]);
    assert_eq!(p.updated_at, 11);
}

#[test]
fn update_with_no_fields_still_stamps_updated_at() {
    let a = author_a();
    let mut store = RecordStore::new();
    assert_eq!(store.initialize_blog(a, b"t".to_vec(), b"d".to_vec()), Ok(()));
    assert_eq!(store.create_post(a, a, b"p".to_vec(), vec![b"x".to_vec()], 10), Ok(0));
    let key = PostKey { blog: a, id: 0 };

    assert_eq!(store.update_post(a, key, None, None, 99), Ok(()));
    let p = store.read_post(key).unwrap();
    assert_eq!(p.title, b"p".to_vec());
    assert_eq!(p.tags, vec![b"x".to_vec()]);
    assert_eq!(p.created_at, 10);
    assert_eq!(p.updated_at, 99);
}

#[test]
fn rejected_partial_update_changes_nothing() {
    let a = author_a();
    let mut store = RecordStore::new();
    assert_eq!(store.initialize_blog(a, b"t".to_vec(), b"d".to_vec()), Ok(()));
    assert_eq!(store.create_post(a, a, b"p".to_vec(), vec![], 10), Ok(0));
    let key = PostKey { blog: a, id: 0 };

    // A valid new title next to an invalid tag list: the whole update is
    // rejected and the title stays.
    let three_tags = vec![b"a".to_vec(), b"b".to_vec(), b"c".to_vec()];
    assert_eq!(
        store.update_post(a, key, Some(b"new".to_vec()), Some(three_tags), 11),
        Err(BlogError::TooManyTags)
    );
    let p = store.read_post(key).unwrap();
    assert_eq!(p.title, b"p".to_vec());
    assert_eq!(p.updated_at, 10);
}

#[test]
fn deleting_a_post_with_zero_blog_reference_is_rejected() {
    // A blog owned by the zero identity produces posts whose back-reference
    // is the zero identity; such posts count as dangling and cannot be
    // deleted.
    let z = Identity::zero();
    let mut store = RecordStore::new();
    assert_eq!(store.initialize_blog(z, b"t".to_vec(), b"d".to_vec()), Ok(()));
    assert_eq!(store.create_post(z, z, b"p".to_vec(), vec![], 1), Ok(0));
    let key = PostKey { blog: z, id: 0 };
    assert!(matches!(store.delete_post(z, key), Err(BlogError::PostNotFound)));
    assert!(store.read_post(key).is_some());
}

#[test]
fn deleted_post_reads_as_not_found() {
    let a = author_a();
    let mut store = RecordStore::new();
    assert_eq!(store.initialize_blog(a, b"t".to_vec(), b"d".to_vec()), Ok(()));
    assert_eq!(store.create_post(a, a, b"p".to_vec(), vec![], 1), Ok(0));
    let key = PostKey { blog: a, id: 0 };
    assert!(store.read_post(key).is_some());
    let removed = store.delete_post(a, key).unwrap();
    assert_eq!(removed.id, 0);
    assert!(store.read_post(key).is_none());
    assert!(matches!(store.delete_post(a, key), Err(BlogError::PostNotFound)));
}

#[test]
fn tags_can_be_replaced_without_touching_the_title() {
    let a = author_a();
    let mut store = RecordStore::new();
    assert_eq!(store.initialize_blog(a, b"t".to_vec(), b"d".to_vec()), Ok(()));
    assert_eq!(store.create_post(a, a, b"p".to_vec(), vec![b"x".to_vec()], 10), Ok(0));
    let key = PostKey { blog: a, id: 0 };
    let new_tags = vec![b"y".to_vec(), b"z".to_vec()];
    assert_eq!(store.update_post(a, key, None, Some(new_tags.clone()), 11), Ok(()));
    let p = store.read_post(key).unwrap();
    assert_eq!(p.title, b"p".to_vec());
    assert_eq!(p.tags, new_tags);
    assert_eq!(p.updated_at, 11);
}

#[test]
fn title_is_validated_before_description() {
    let a = author_a();
    let mut store = RecordStore::new();
    assert_eq!(
        store.initialize_blog(a, vec![b'a'; 101], vec![b'b'; 501]),
        Err(BlogError::TitleTooLong)
    );
}

#[test]
fn authorization_is_checked_before_validation() {
    let a = author_a();
    let b = author_b();
    let mut store = RecordStore::new();
    assert_eq!(store.initialize_blog(a, b"t".to_vec(), b"d".to_vec()), Ok(()));
    // An over-long title from the wrong caller: the caller is turned away
    // first.
    assert_eq!(
        store.create_post(b, a, vec![b'x'; 201], vec![], 1),
        Err(BlogError::UnauthorizedAuthor)
    );
}

#[test]
fn blogs_of_different_authors_do_not_interfere() {
    let a = author_a();
    let b = author_b();
    let mut store = RecordStore::new();
    assert_eq!(store.initialize_blog(a, b"ta".to_vec(), b"da".to_vec()), Ok(()));
    assert_eq!(store.initialize_blog(b, b"tb".to_vec(), b"db".to_vec()), Ok(()));
    assert_eq!(store.create_post(a, a, b"pa".to_vec(), vec![], 1), Ok(0));
    assert_eq!(store.create_post(b, b, b"pb".to_vec(), vec![], 2), Ok(0));

    // Both posts carry id 0, but their addresses differ by blog.
    let pa = store.read_post(PostKey { blog: a, id: 0 }).unwrap();
    let pb = store.read_post(PostKey { blog: b, id: 0 }).unwrap();
    assert_eq!(pa.title, b"pa".to_vec());
    assert_eq!(pb.title, b"pb".to_vec());

    assert!(store.delete_post(a, PostKey { blog: a, id: 0 }).is_ok());
    assert!(store.read_post(PostKey { blog: a, id: 0 }).is_none());
    assert!(store.read_post(PostKey { blog: b, id: 0 }).is_some());
    assert_eq!(store.read_blog(b).unwrap().post_count, 1);
}
