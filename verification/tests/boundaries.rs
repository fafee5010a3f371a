use blog_dapp::BlogError;
use blog_dapp::Identity;
use blog_dapp::PostKey;
use blog_dapp::RecordStore;

fn author() -> Identity {
    Identity::new(7, 7)
}

fn store_with_blog() -> RecordStore {
    let mut store = RecordStore::new();
    assert_eq!(store.initialize_blog(author(), b"t".to_vec(), b"d".to_vec()), Ok(()));
    store
}

fn store_with_post() -> (RecordStore, PostKey) {
    let mut store = store_with_blog();
    assert_eq!(store.create_post(author(), author(), b"p".to_vec(), vec![], 10), Ok(0));
    (store, PostKey { blog: author(), id: 0 })
}

#[test]
fn blog_title_limit_is_exact() {
    let mut store = RecordStore::new();
    assert_eq!(
        store.initialize_blog(author(), vec![b'a'; 101], b"d".to_vec()),
        Err(BlogError::TitleTooLong)
    );
    assert!(store.read_blog(author()).is_none());
    assert_eq!(store.initialize_blog(author(), vec![b'a'; 100], b"d".to_vec()), Ok(()));
    assert_eq!(store.read_blog(author()).unwrap().title.len(), 100);
}

#[test]
fn blog_description_limit_is_exact() {
    let mut store = RecordStore::new();
    assert_eq!(
        store.initialize_blog(author(), b"t".to_vec(), vec![b'd'; 501]),
        Err(BlogError::DescriptionTooLong)
    );
    assert!(store.read_blog(author()).is_none());
    assert_eq!(store.initialize_blog(author(), b"t".to_vec(), vec![b'd'; 500]), Ok(()));
    assert_eq!(store.read_blog(author()).unwrap().description.len(), 500);
}

#[test]
fn post_title_limit_is_exact() {
    let mut store = store_with_blog();
    let a = author();
    assert_eq!(
        store.create_post(a, a, vec![b'x'; 201], vec![], 1),
        Err(BlogError::TitleTooLong)
    );
    assert_eq!(store.read_blog(a).unwrap().post_count, 0);
    assert_eq!(store.create_post(a, a, vec![b'x'; 200], vec![], 1), Ok(0));
}

#[test]
fn new_title_limit_is_exact_on_update() {
    let (mut store, key) = store_with_post();
    let a = author();
    assert_eq!(
        store.update_post(a, key, Some(vec![b'x'; 201]), None, 11),
        Err(BlogError::TitleTooLong)
    );
    assert_eq!(store.read_post(key).unwrap().title, b"p".to_vec());
    assert_eq!(store.update_post(a, key, Some(vec![b'x'; 200]), None, 11), Ok(()));
    assert_eq!(store.read_post(key).unwrap().title.len(), 200);
}

#[test]
fn tag_count_limit_is_exact() {
    let mut store = store_with_blog();
    let a = author();
    let three = vec![b"a".to_vec(), b"b".to_vec(), b"c".to_vec()];
    assert_eq!(store.create_post(a, a, b"p".to_vec(), three, 1), Err(BlogError::TooManyTags));
    let two = vec![b"a".to_vec(), b"b".to_vec()];
    assert_eq!(store.create_post(a, a, b"p".to_vec(), two, 1), Ok(0));
}

#[test]
fn tag_length_limit_is_exact() {
    let mut store = store_with_blog();
    let a = author();
    assert_eq!(
        store.create_post(a, a, b"p".to_vec(), vec![vec![b't'; 11]], 1),
        Err(BlogError::TagTooLong)
    );
    assert_eq!(store.create_post(a, a, b"p".to_vec(), vec![vec![b't'; 10]], 1), Ok(0));

    let key = PostKey { blog: a, id: 0 };
    assert_eq!(
        store.update_post(a, key, None, Some(vec![vec![b'u'; 11]]), 2),
        Err(BlogError::TagTooLong)
    );
    assert_eq!(store.read_post(key).unwrap().tags, vec![vec![b't'; 10]]);
    assert_eq!(store.update_post(a, key, None, Some(vec![vec![b'u'; 10]]), 2), Ok(()));
    assert_eq!(store.read_post(key).unwrap().tags, vec![vec![b'u'; 10]]);
}

#[test]
fn content_limit_is_exactly_five_thousand() {
    let (mut store, key) = store_with_post();
    let a = author();

    assert_eq!(store.update_post_content(a, key, vec![b'c'; 4999], 11), Ok(()));
    // One more byte reaches exactly the limit and is still accepted.
    assert_eq!(store.update_post_content(a, key, b"z".to_vec(), 12), Ok(()));
    let p = store.read_post(key).unwrap();
    assert_eq!(p.content.len(), 5000);
    assert_eq!(p.content[4999], b'z');

    // The next byte would make 5001 and is rejected; the content stays.
    assert_eq!(
        store.update_post_content(a, key, b"!".to_vec(), 13),
        Err(BlogError::ContentTooLong)
    );
    let p = store.read_post(key).unwrap();
    assert_eq!(p.content.len(), 5000);
    assert_eq!(p.updated_at, 12);
}

#[test]
fn single_oversized_chunk_is_rejected() {
    let (mut store, key) = store_with_post();
    let a = author();
    assert_eq!(
        store.update_post_content(a, key, vec![b'c'; 5001], 11),
        Err(BlogError::ContentTooLong)
    );
    assert_eq!(store.read_post(key).unwrap().content, Vec::<u8>::new());
    assert_eq!(store.update_post_content(a, key, vec![b'c'; 5000], 11), Ok(()));
    assert_eq!(store.read_post(key).unwrap().content.len(), 5000);
}

#[test]
fn chunks_concatenate_in_order() {
    let (mut store, key) = store_with_post();
    let a = author();
    assert_eq!(store.update_post_content(a, key, b"hello ".to_vec(), 11), Ok(()));
    assert_eq!(store.update_post_content(a, key, b"world".to_vec(), 12), Ok(()));
    let p = store.read_post(key).unwrap();
    assert_eq!(p.content, b"hello world".to_vec());
    assert_eq!(p.updated_at, 12);
}

#[test]
fn empty_chunk_resets_content() {
    let (mut store, key) = store_with_post();
    let a = author();
    assert_eq!(store.update_post_content(a, key, vec![b'c'; 5000], 11), Ok(()));
    assert_eq!(store.update_post_content(a, key, Vec::new(), 12), Ok(()));
    let p = store.read_post(key).unwrap();
    assert_eq!(p.content, Vec::<u8>::new());
    assert_eq!(p.updated_at, 12);

    // Even on an already-empty post the reset is a real update: it stamps
    // `updated_at` rather than being a no-op.
    assert_eq!(store.update_post_content(a, key, Vec::new(), 13), Ok(()));
    let p = store.read_post(key).unwrap();
    assert_eq!(p.content, Vec::<u8>::new());
    assert_eq!(p.updated_at, 13);
}
