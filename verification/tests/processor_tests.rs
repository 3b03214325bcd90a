use article_store::codec::{encode_entry, PostArticleData};
use article_store::error::StoreError;
use article_store::pda::{derive_article_address, derive_index_address};
use article_store::processor::{process_instruction, ProcessOutput};
use article_store::store::Store;

const PROGRAM_ID: [u8; 32] = [5; 32];
const SYSTEM: [u8; 32] = [0; 32];
const PAYER: [u8; 32] = [1; 32];

fn index_handle() -> [u8; 32] {
    derive_index_address(&PROGRAM_ID).expect("index address derives").0
}

fn article_handle(ordinal: u32) -> [u8; 32] {
    derive_article_address(&PROGRAM_ID, ordinal).expect("entry address derives").0
}

fn post_data(title: &[u8], content: &[u8]) -> Vec<u8> {
    let mut data = vec![1u8];
    data.extend(encode_entry(&PostArticleData {
        title: title.to_vec(),
        content: content.to_vec(),
    }));
    data
}

#[test]
fn dispatch_routes_a_full_session() {
    let mut store = Store::new(PROGRAM_ID);

    let init_keys = [PAYER, index_handle(), SYSTEM];
    let r = process_instruction(&mut store, &init_keys, &[0]);
    assert!(matches!(r, Ok(ProcessOutput::Done)));

    let post_keys = [PAYER, index_handle(), article_handle(0), SYSTEM];
    let r = process_instruction(&mut store, &post_keys, &post_data(b"Hello", b"World"));
    assert!(matches!(r, Ok(ProcessOutput::Done)));

    let post_keys = [PAYER, index_handle(), article_handle(1), SYSTEM];
    let r = process_instruction(&mut store, &post_keys, &post_data(b"Hi", b"There"));
    assert!(matches!(r, Ok(ProcessOutput::Done)));
    assert_eq!(store.index, Some(vec![2, 0, 0, 0]));

    let list_keys = [PAYER, index_handle(), SYSTEM, article_handle(0), article_handle(1)];
    match process_instruction(&mut store, &list_keys, &[2]) {
        Ok(ProcessOutput::Listing(listing)) => {
            assert_eq!(listing.len(), 2);
            assert_eq!(listing[0], (0, b"Hello".to_vec(), b"World".to_vec()));
            assert_eq!(listing[1], (1, b"Hi".to_vec(), b"There".to_vec()));
        }
        other => panic!("expected a listing, got {:?}", other.map(|_| ()).err()),
    }
}

#[test]
fn dispatch_rejects_an_unknown_opcode() {
    let mut store = Store::new(PROGRAM_ID);
    let keys = [PAYER, index_handle(), SYSTEM];
    assert_eq!(
        process_instruction(&mut store, &keys, &[3]).err(),
        Some(StoreError::UnrecognizedOperation)
    );
    assert_eq!(
        process_instruction(&mut store, &keys, &[255]).err(),
        Some(StoreError::UnrecognizedOperation)
    );
    assert_eq!(store.index, None);
}

#[test]
fn dispatch_rejects_a_short_handle_list() {
    let mut store = Store::new(PROGRAM_ID);
    let two = [PAYER, index_handle()];
    assert_eq!(
        process_instruction(&mut store, &two, &[0]).err(),
        Some(StoreError::ValidationError)
    );
    let three = [PAYER, index_handle(), SYSTEM];
    assert_eq!(
        process_instruction(&mut store, &three, &post_data(b"a", b"b")).err(),
        Some(StoreError::ValidationError)
    );
    assert_eq!(store.index, None);
}

#[test]
fn dispatch_surfaces_the_routed_error() {
    let mut store = Store::new(PROGRAM_ID);
    let init_keys = [PAYER, index_handle(), SYSTEM];
    assert!(process_instruction(&mut store, &init_keys, &[0]).is_ok());

    // wrong entry handle before any entry exists
    let post_keys = [PAYER, index_handle(), article_handle(7), SYSTEM];
    assert_eq!(
        process_instruction(&mut store, &post_keys, &post_data(b"a", b"b")).err(),
        Some(StoreError::AddressMismatch)
    );
    assert_eq!(store.index, Some(vec![0, 0, 0, 0]));
    assert_eq!(store.entries.len(), 0);
}
