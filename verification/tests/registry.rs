use cosmwasm_std::testing::MockStorage;
use cosmwasm_std::ReadonlyStorage;
use cosmwasm_std::Storage;
use cosmwasm_storage::bucket;
use hello_cargo::backend::bucket_save_file;
use hello_cargo::backend::get_counter;
use hello_cargo::backend::get_namespace;
use hello_cargo::backend::get_wallet_info;
use hello_cargo::backend::return_wallet;
use hello_cargo::backend::try_forget_me;
use hello_cargo::backend::try_init;
use hello_cargo::backend::WalletInfo;
use hello_cargo::namespace::derive_namespace;
use hello_cargo::wallet::BackendError;

fn wallet(init: bool, namespace: &str, counter: i32) -> WalletInfo {
    WalletInfo { init, namespace: String::from(namespace), counter }
}

#[test]
fn return_wallet_hands_back_the_record() {
    let stored = wallet(true, "Bi3", 3);
    assert_eq!(return_wallet(Some(stored.clone())), stored);
    let dormant = wallet(false, "Bi4", 4);
    assert_eq!(return_wallet(Some(dormant.clone())), dormant);
}

#[test]
fn return_wallet_defaults_without_a_record() {
    assert_eq!(return_wallet(None), wallet(false, "empty", 0));
}

#[test]
fn unknown_identity_gets_the_default_and_no_record() {
    let mut store = MockStorage::new();
    let nuggie = String::from("Nuggie");
    assert_eq!(get_wallet_info(&mut store, &nuggie), Ok(wallet(false, "empty", 0)));
    assert_eq!(get_namespace(&store, &nuggie), Err(BackendError::NotFound));
    assert_eq!(get_counter(&store, &nuggie), Err(BackendError::NotFound));
    assert_eq!(get_wallet_info(&mut store, &nuggie), Ok(wallet(false, "empty", 0)));
    assert_eq!(get_namespace(&store, &nuggie), Err(BackendError::NotFound));
}

#[test]
fn first_init_creates_generation_zero() {
    let mut store = MockStorage::new();
    let nuggie = String::from("Nuggie");
    assert_eq!(try_init(&mut store, &nuggie), Ok(wallet(true, "Nuggie0", 0)));
    assert_eq!(get_namespace(&store, &nuggie), Ok(String::from("Nuggie0")));
    assert_eq!(get_namespace(&store, &nuggie), Ok(derive_namespace(&nuggie, 0)));
    assert_eq!(get_counter(&store, &nuggie), Ok(0));
    assert_eq!(get_wallet_info(&mut store, &nuggie), Ok(wallet(true, "Nuggie0", 0)));
}

#[test]
fn init_writes_the_record_under_the_wallet_partition() {
    let mut store = MockStorage::new();
    try_init(&mut store, &String::from("Bi")).unwrap();
    assert_eq!(
        store.get(b"\x00\x0bWALLET_INFOBi"),
        Some(b"[true,\"Bi0\",0]".to_vec())
    );
}

#[test]
fn second_init_is_turned_down_and_writes_nothing() {
    let mut store = MockStorage::new();
    let bi = String::from("Bi");
    try_init(&mut store, &bi).unwrap();
    assert_eq!(try_init(&mut store, &bi), Err(BackendError::AlreadyInitialized));
    assert_eq!(get_wallet_info(&mut store, &bi), Ok(wallet(true, "Bi0", 0)));
}

#[test]
fn init_of_one_identity_leaves_the_others() {
    let mut store = MockStorage::new();
    let bi = String::from("Bi");
    let alice = String::from("Alice");
    try_init(&mut store, &bi).unwrap();
    assert_eq!(get_namespace(&store, &alice), Err(BackendError::NotFound));
    try_init(&mut store, &alice).unwrap();
    try_forget_me(&mut store, &alice).unwrap();
    assert_eq!(get_wallet_info(&mut store, &bi), Ok(wallet(true, "Bi0", 0)));
    assert_eq!(get_wallet_info(&mut store, &alice), Ok(wallet(false, "Alice1", 1)));
}

#[test]
fn forget_advances_the_generation() {
    let mut store = MockStorage::new();
    let bi = String::from("Bi");
    try_init(&mut store, &bi).unwrap();
    assert_eq!(try_forget_me(&mut store, &bi), Ok(wallet(false, "Bi1", 1)));
    assert_eq!(get_counter(&store, &bi), Ok(1));
    assert_eq!(get_namespace(&store, &bi), Ok(derive_namespace(&bi, 1)));
    assert_eq!(get_wallet_info(&mut store, &bi), Ok(wallet(false, "Bi1", 1)));
}

#[test]
fn forget_twice_advances_twice() {
    let mut store = MockStorage::new();
    let bi = String::from("Bi");
    try_init(&mut store, &bi).unwrap();
    try_forget_me(&mut store, &bi).unwrap();
    assert_eq!(try_forget_me(&mut store, &bi), Ok(wallet(false, "Bi2", 2)));
    assert_eq!(get_namespace(&store, &bi), Ok(String::from("Bi2")));
}

#[test]
fn forget_of_unknown_identity_is_not_found() {
    let mut store = MockStorage::new();
    let nuggie = String::from("Nuggie");
    assert_eq!(try_forget_me(&mut store, &nuggie), Err(BackendError::NotFound));
    assert_eq!(get_namespace(&store, &nuggie), Err(BackendError::NotFound));
}

#[test]
fn init_after_forget_keeps_the_new_namespace() {
    let mut store = MockStorage::new();
    let bi = String::from("Bi");
    try_init(&mut store, &bi).unwrap();
    try_forget_me(&mut store, &bi).unwrap();
    assert_eq!(try_init(&mut store, &bi), Ok(wallet(true, "Bi1", 1)));
    assert_eq!(get_wallet_info(&mut store, &bi), Ok(wallet(true, "Bi1", 1)));
    assert_eq!(try_init(&mut store, &bi), Err(BackendError::AlreadyInitialized));
}

#[test]
fn generation_never_goes_back() {
    let mut store = MockStorage::new();
    let bi = String::from("Bi");
    try_init(&mut store, &bi).unwrap();
    let mut last = get_counter(&store, &bi).unwrap();
    for _ in 0..12 {
        try_forget_me(&mut store, &bi).unwrap();
        let forgotten = get_counter(&store, &bi).unwrap();
        assert_eq!(forgotten, last + 1);
        try_init(&mut store, &bi).unwrap();
        let activated = get_counter(&store, &bi).unwrap();
        assert_eq!(activated, forgotten);
        last = activated;
    }
    assert_eq!(get_namespace(&store, &bi), Ok(String::from("Bi12")));
}

#[test]
fn forget_at_the_last_generation_is_turned_down() {
    let mut store = MockStorage::new();
    let fields = (true, String::from("Bi2147483647"), i32::MAX);
    bucket::<MockStorage, (bool, String, i32)>(b"WALLET_INFO", &mut store)
        .save(b"Bi", &fields)
        .unwrap();
    let bi = String::from("Bi");
    assert_eq!(get_counter(&store, &bi), Ok(i32::MAX));
    assert_eq!(try_forget_me(&mut store, &bi), Err(BackendError::GenerationExhausted));
    assert_eq!(get_wallet_info(&mut store, &bi), Ok(wallet(true, "Bi2147483647", i32::MAX)));
}

#[test]
fn record_that_cannot_be_read_is_a_store_fault() {
    let mut store = MockStorage::new();
    let eve = String::from("Eve");
    store.set(b"\x00\x0bWALLET_INFOEve", b"\"not a record\"");
    assert_eq!(get_namespace(&store, &eve), Err(BackendError::StoreFault));
    assert_eq!(get_counter(&store, &eve), Err(BackendError::StoreFault));
    assert_eq!(get_wallet_info(&mut store, &eve), Err(BackendError::StoreFault));
    assert_eq!(try_init(&mut store, &eve), Err(BackendError::StoreFault));
    assert_eq!(try_forget_me(&mut store, &eve), Err(BackendError::StoreFault));
    assert_eq!(store.get(b"\x00\x0bWALLET_INFOEve"), Some(b"\"not a record\"".to_vec()));
}

#[test]
fn file_under_the_name_of_the_wallet_partition_touches_no_record() {
    let mut store = MockStorage::new();
    let bi = String::from("Bi");
    let eve = String::from("Eve");
    let partition = String::from("WALLET_INFO");
    try_init(&mut store, &bi).unwrap();
    bucket_save_file(&mut store, &bi, String::from("not a record"), &partition).unwrap();
    bucket_save_file(&mut store, &eve, String::from("not a record"), &partition).unwrap();
    assert_eq!(get_wallet_info(&mut store, &bi), Ok(wallet(true, "Bi0", 0)));
    assert_eq!(get_namespace(&store, &bi), Ok(String::from("Bi0")));
    assert_eq!(get_counter(&store, &bi), Ok(0));
    assert_eq!(get_namespace(&store, &eve), Err(BackendError::NotFound));
    assert_eq!(get_counter(&store, &eve), Err(BackendError::NotFound));
    assert_eq!(store.get(b"\x00\x0bWALLET_INFOBi"), Some(b"[true,\"Bi0\",0]".to_vec()));
    assert_eq!(store.get(b"\x00\x0bWALLET_INFOEve"), None);
}

#[test]
fn record_with_text_that_needs_escapes_is_read_back() {
    let mut store = MockStorage::new();
    let identity = String::from("quote\"back\\slash\nline\ttab\u{1}é日");
    let created = try_init(&mut store, &identity).unwrap();
    assert_eq!(created.namespace, format!("{}0", identity));
    assert_eq!(get_wallet_info(&mut store, &identity), Ok(created));
    let forgotten = try_forget_me(&mut store, &identity).unwrap();
    assert_eq!(forgotten.namespace, format!("{}1", identity));
    assert_eq!(get_namespace(&store, &identity), Ok(format!("{}1", identity)));
}

#[test]
fn errors_are_described_in_words() {
    assert_eq!(BackendError::QueryFailed.message(), "Error querying file.");
    assert_eq!(BackendError::AlreadyInitialized.message(), "User has already been initiated");
    assert_eq!(BackendError::NotFound.message(), "not found");
    assert_eq!(BackendError::InvalidPath.message(), "path names no owner");
    assert_eq!(BackendError::StoreFault.message(), "store fault");
    assert_eq!(BackendError::GenerationExhausted.message(), "generation counter exhausted");
}
