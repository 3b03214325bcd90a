use article_store::codec::{encode_entry, PostArticleData};
use article_store::error::StoreError;
use article_store::pda::{derive_article_address, derive_index_address};
use article_store::store::{init, list_articles, post_article, Store};

const PROGRAM_ID: [u8; 32] = [9; 32];

fn index_handle() -> [u8; 32] {
    derive_index_address(&PROGRAM_ID).expect("index address derives").0
}

fn article_handle(ordinal: u32) -> [u8; 32] {
    derive_article_address(&PROGRAM_ID, ordinal).expect("entry address derives").0
}

fn payload(title: &[u8], content: &[u8]) -> Vec<u8> {
    encode_entry(&PostArticleData { title: title.to_vec(), content: content.to_vec() })
}

#[test]
fn bootstrap_writes_count_zero() {
    let mut store = Store::new(PROGRAM_ID);
    assert_eq!(init(&mut store, &index_handle()), Ok(()));
    assert_eq!(store.index, Some(vec![0, 0, 0, 0]));
    assert_eq!(store.entries.len(), 0);
}

#[test]
fn bootstrap_rejects_a_wrong_handle() {
    let mut store = Store::new(PROGRAM_ID);
    let wrong = [0u8; 32];
    assert_eq!(init(&mut store, &wrong), Err(StoreError::AddressMismatch));
    assert_eq!(store.index, None);
}

#[test]
fn second_bootstrap_fails_and_count_stays() {
    let mut store = Store::new(PROGRAM_ID);
    assert_eq!(init(&mut store, &index_handle()), Ok(()));
    assert_eq!(
        init(&mut store, &index_handle()),
        Err(StoreError::HostProvisioningError)
    );
    assert_eq!(store.index, Some(vec![0, 0, 0, 0]));
    assert_eq!(store.entries.len(), 0);
}

#[test]
fn append_then_list_returns_the_records_in_order() {
    let mut store = Store::new(PROGRAM_ID);
    assert_eq!(init(&mut store, &index_handle()), Ok(()));
    assert_eq!(
        post_article(&mut store, &index_handle(), &article_handle(0), &payload(b"Hello", b"World")),
        Ok(())
    );
    assert_eq!(
        post_article(&mut store, &index_handle(), &article_handle(1), &payload(b"Hi", b"There")),
        Ok(())
    );
    assert_eq!(store.index, Some(vec![2, 0, 0, 0]));

    let handles = [article_handle(0), article_handle(1)];
    let listing = list_articles(&store, &index_handle(), &handles).expect("listing succeeds");
    assert_eq!(listing.len(), 2);
    assert_eq!(listing[0], (0, b"Hello".to_vec(), b"World".to_vec()));
    assert_eq!(listing[1], (1, b"Hi".to_vec(), b"There".to_vec()));

    // re-running is side-effect-free and yields identical output
    let again = list_articles(&store, &index_handle(), &handles).expect("listing succeeds");
    assert_eq!(again, listing);
}

#[test]
fn append_rejects_an_oversized_title_and_changes_nothing() {
    let mut store = Store::new(PROGRAM_ID);
    assert_eq!(init(&mut store, &index_handle()), Ok(()));
    let long_title = vec![b'x'; 21];
    assert_eq!(
        post_article(&mut store, &index_handle(), &article_handle(0), &payload(&long_title, b"b")),
        Err(StoreError::ValidationError)
    );
    assert_eq!(store.index, Some(vec![0, 0, 0, 0]));
    assert_eq!(store.entries.len(), 0);
}

#[test]
fn append_rejects_an_oversized_body_and_changes_nothing() {
    let mut store = Store::new(PROGRAM_ID);
    assert_eq!(init(&mut store, &index_handle()), Ok(()));
    let long_body = vec![b'y'; 1001];
    assert_eq!(
        post_article(&mut store, &index_handle(), &article_handle(0), &payload(b"t", &long_body)),
        Err(StoreError::ValidationError)
    );
    assert_eq!(store.index, Some(vec![0, 0, 0, 0]));
    assert_eq!(store.entries.len(), 0);
}

#[test]
fn append_rejects_a_wrong_entry_handle_and_count_stays_zero() {
    let mut store = Store::new(PROGRAM_ID);
    assert_eq!(init(&mut store, &index_handle()), Ok(()));
    // the handle for ordinal 1 does not match the derivation for ordinal 0
    assert_eq!(
        post_article(&mut store, &index_handle(), &article_handle(1), &payload(b"a", b"b")),
        Err(StoreError::AddressMismatch)
    );
    assert_eq!(store.index, Some(vec![0, 0, 0, 0]));
    assert_eq!(store.entries.len(), 0);
}

#[test]
fn append_before_bootstrap_is_a_decode_error() {
    let mut store = Store::new(PROGRAM_ID);
    assert_eq!(
        post_article(&mut store, &index_handle(), &article_handle(0), &payload(b"a", b"b")),
        Err(StoreError::DecodeError)
    );
    assert_eq!(store.index, None);
}

#[test]
fn append_rejects_a_malformed_payload() {
    let mut store = Store::new(PROGRAM_ID);
    assert_eq!(init(&mut store, &index_handle()), Ok(()));
    assert_eq!(
        post_article(&mut store, &index_handle(), &article_handle(0), &[1, 2, 3]),
        Err(StoreError::DecodeError)
    );
    assert_eq!(store.entries.len(), 0);
}

#[test]
fn listing_with_a_wrong_handle_count_fails_with_no_output() {
    let mut store = Store::new(PROGRAM_ID);
    assert_eq!(init(&mut store, &index_handle()), Ok(()));
    assert_eq!(
        post_article(&mut store, &index_handle(), &article_handle(0), &payload(b"a", b"b")),
        Ok(())
    );
    let none: [[u8; 32]; 0] = [];
    assert_eq!(
        list_articles(&store, &index_handle(), &none),
        Err(StoreError::ValidationError)
    );
    let two = [article_handle(0), article_handle(1)];
    assert_eq!(
        list_articles(&store, &index_handle(), &two),
        Err(StoreError::ValidationError)
    );
}

#[test]
fn listing_rejects_reordered_handles() {
    let mut store = Store::new(PROGRAM_ID);
    assert_eq!(init(&mut store, &index_handle()), Ok(()));
    for i in 0..2u32 {
        assert_eq!(
            post_article(&mut store, &index_handle(), &article_handle(i), &payload(b"t", b"b")),
            Ok(())
        );
    }
    let reordered = [article_handle(1), article_handle(0)];
    assert_eq!(
        list_articles(&store, &index_handle(), &reordered),
        Err(StoreError::AddressMismatch)
    );
}

#[test]
fn listing_rejects_a_wrong_index_handle() {
    let store = Store::new(PROGRAM_ID);
    let wrong = [3u8; 32];
    let none: [[u8; 32]; 0] = [];
    assert_eq!(
        list_articles(&store, &wrong, &none),
        Err(StoreError::AddressMismatch)
    );
}
