use cosmwasm_std::testing::MockStorage;
use hello_cargo::backend::bucket_load_file;
use hello_cargo::backend::bucket_load_readonly_file;
use hello_cargo::backend::bucket_save_file;
use hello_cargo::backend::file_exists;
use hello_cargo::backend::get_namespace;
use hello_cargo::backend::get_wallet_info;
use hello_cargo::backend::query_file;
use hello_cargo::backend::try_forget_me;
use hello_cargo::backend::try_init;
use hello_cargo::backend::WalletInfo;
use hello_cargo::wallet::BackendError;

#[test]
fn wallet_is_forgotten_and_initialised_again() {
    let mut store = MockStorage::new();
    let bi = String::from("Bi");
    let path = String::from("Bi/");
    let alice = String::from("Alice");

    let created = try_init(&mut store, &bi).unwrap();
    assert_eq!(created, WalletInfo { init: true, namespace: String::from("Bi0"), counter: 0 });
    let first = get_namespace(&store, &bi).unwrap();
    assert_eq!(first, "Bi0");

    bucket_save_file(&mut store, &path, String::from("report-v1"), &first).unwrap();
    assert_eq!(query_file(&store, path.clone(), &alice), Ok(String::from("report-v1")));

    let forgotten = try_forget_me(&mut store, &bi).unwrap();
    assert_eq!(forgotten, WalletInfo { init: false, namespace: String::from("Bi1"), counter: 1 });
    let second = get_namespace(&store, &bi).unwrap();
    assert_eq!(second, "Bi1");

    assert_eq!(bucket_load_readonly_file(&store, &path, &second), Err(BackendError::NotFound));
    assert_eq!(bucket_load_file(&mut store, &path, &second), Err(BackendError::NotFound));
    assert_eq!(bucket_load_file(&mut store, &path, &first), Ok(String::from("report-v1")));
    assert!(!file_exists(&mut store, &path, &second));

    let activated = try_init(&mut store, &bi).unwrap();
    assert_eq!(activated, WalletInfo { init: true, namespace: String::from("Bi1"), counter: 1 });
    assert_eq!(get_namespace(&store, &bi), Ok(String::from("Bi1")));

    bucket_save_file(&mut store, &path, String::from("report-v2"), &second).unwrap();
    assert_eq!(query_file(&store, path.clone(), &alice), Ok(String::from("report-v2")));
    assert_eq!(bucket_load_file(&mut store, &path, &first), Ok(String::from("report-v1")));
}

#[test]
fn first_init_needs_no_record() {
    let mut store = MockStorage::new();
    let nuggie = String::from("Nuggie");
    assert_eq!(
        get_wallet_info(&mut store, &nuggie),
        Ok(WalletInfo { init: false, namespace: String::from("empty"), counter: 0 })
    );
    assert_eq!(
        try_init(&mut store, &nuggie),
        Ok(WalletInfo { init: true, namespace: String::from("Nuggie0"), counter: 0 })
    );
}
