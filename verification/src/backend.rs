//! The operations of the library: the registry of wallet records, the files
//! kept per namespace, and the queries that go from a path to its owner's
//! current namespace.

use cosmwasm_std::MemoryStorage;
use crate::model::change_owner_step;
use crate::model::file_lookup;
use crate::model::file_saved;
use crate::model::files_kept;
use crate::laws::lemma_save_keeps_wallets;
use crate::laws::lemma_wallet_saved_keeps_files;
use crate::model::forget_step;
use crate::model::init_step;
use crate::model::lemma_file_partition;
use crate::model::lemma_wallet_partition;
use crate::model::path_namespace;
use crate::model::query_answer;
use crate::model::registry_kept;
use crate::model::wallet_lookup;
use crate::model::Lookup;
use crate::model::FILE_LOCATION;
use crate::model::WALLET_INFO_LOCATION;
use crate::namespace::derive_namespace;
use crate::path::owner_of_path;
use crate::store::addressable;
use crate::store::load_record;
use crate::store::load_text;
use crate::store::save_record;
use crate::store::save_text;
use crate::store::storage_entries;
use crate::store::MAX_PARTITION_BYTES;
use crate::wallet::default_wallet;
use crate::wallet::BackendError;
use crate::wallet::WalletView;
use crate::wallet::EMPTY_NAMESPACE;
use vstd::prelude::*;

pub use crate::wallet::WalletInfo;

verus! {

/// A result that carries a wallet record, as a mathematical value.
pub open spec fn wallet_result(result: Result<WalletInfo, BackendError>) -> Result<
    WalletView,
    BackendError,
> {
    match result {
        Ok(wallet) => Ok(wallet@),
        Err(error) => Err(error),
    }
}

/// A result that carries a text, as a mathematical value.
pub open spec fn text_result(result: Result<String, BackendError>) -> Result<
    Seq<char>,
    BackendError,
> {
    match result {
        Ok(text) => Ok(text@),
        Err(error) => Err(error),
    }
}

/// A result that carries a generation, as a mathematical value.
pub open spec fn counter_result(result: Result<i32, BackendError>) -> Result<int, BackendError> {
    match result {
        Ok(counter) => Ok(counter as int),
        Err(error) => Err(error),
    }
}

/// Forgets `sender`: advances its generation by one, derives the namespace
/// of the new generation and marks the record as not initialised, in one
/// write of the record. No file is touched.
pub fn try_forget_me(store: &mut MemoryStorage, sender: &String) -> (result: Result<
    WalletInfo,
    BackendError,
>)
    ensures
        forget_step(
            storage_entries(*old(store)),
            sender@,
            storage_entries(*final(store)),
            wallet_result(result),
        ),
        files_kept(storage_entries(*old(store)), storage_entries(*final(store))),
{
    proof {
        lemma_wallet_partition();
    }
    match load_record(store, WALLET_INFO_LOCATION, sender.as_str()) {
        Err(_) => Err(BackendError::StoreFault),
        Ok(None) => Err(BackendError::NotFound),
        Ok(Some(wallet)) => {
            if wallet.counter == i32::MAX {
                return Err(BackendError::GenerationExhausted);
            }
            let counter: i32 = wallet.counter + 1;
            let forgotten = WalletInfo {
                init: false,
                namespace: derive_namespace(sender, counter),
                counter,
            };
            let saved = save_record(store, WALLET_INFO_LOCATION, sender.as_str(), &forgotten);
            proof {
                lemma_wallet_saved_keeps_files(
                    storage_entries(*old(store)),
                    storage_entries(*store),
                    sender@,
                    forgotten@,
                );
            }
            match saved {
                Ok(()) => Ok(forgotten),
                Err(_) => Err(BackendError::StoreFault),
            }
        },
    }
}

/// Initialises `sender`. An identity without a record gets one at generation
/// 0. A record that was forgotten is marked initialised again and keeps its
/// generation and its namespace. A second initialisation is an error, and
/// writes nothing.
pub fn try_init(store: &mut MemoryStorage, sender: &String) -> (result: Result<
    WalletInfo,
    BackendError,
>)
    ensures
        init_step(
            storage_entries(*old(store)),
            sender@,
            storage_entries(*final(store)),
            wallet_result(result),
        ),
        files_kept(storage_entries(*old(store)), storage_entries(*final(store))),
{
    proof {
        lemma_wallet_partition();
    }
    let wallet = match load_record(store, WALLET_INFO_LOCATION, sender.as_str()) {
        Err(_) => {
            return Err(BackendError::StoreFault);
        },
        Ok(None) => WalletInfo { init: true, namespace: derive_namespace(sender, 0), counter: 0 },
        Ok(Some(stored)) => {
            if stored.init {
                return Err(BackendError::AlreadyInitialized);
            }
            WalletInfo { init: true, namespace: stored.namespace, counter: stored.counter }
        },
    };
    let saved = save_record(store, WALLET_INFO_LOCATION, sender.as_str(), &wallet);
    proof {
        lemma_wallet_saved_keeps_files(
            storage_entries(*old(store)),
            storage_entries(*store),
            sender@,
            wallet@,
        );
    }
    match saved {
        Ok(()) => Ok(wallet),
        Err(_) => Err(BackendError::StoreFault),
    }
}

/// Answers a query for the file `path` with its content in the current
/// namespace of the path's owner. `behalf` names the identity that asks; it
/// is taken and not looked at, so every identity may read every file.
pub fn query_file(store: &MemoryStorage, path: String, behalf: &String) -> (result: Result<
    String,
    BackendError,
>)
    ensures
        text_result(result) == query_answer(storage_entries(*store), path@),
{
    let namespace = match get_namespace_from_path(store, path.clone()) {
        Ok(namespace) => namespace,
        Err(BackendError::InvalidPath) => {
            return Err(BackendError::InvalidPath);
        },
        Err(_) => {
            return Err(BackendError::QueryFailed);
        },
    };
    if namespace.as_str().as_bytes().len() > MAX_PARTITION_BYTES {
        return Err(BackendError::QueryFailed);
    }
    match bucket_load_readonly_file(store, &path, &namespace) {
        Ok(content) => Ok(content),
        Err(_) => Err(BackendError::QueryFailed),
    }
}

/// Hands the file `path` to `new_owner`: the owner of a file is its content,
/// so the content in the current namespace of the path's owner is
/// overwritten with `new_owner`.
pub fn try_change_owner(store: &mut MemoryStorage, path: String, new_owner: String) -> (result:
    Result<(), BackendError>)
    ensures
        change_owner_step(
            storage_entries(*old(store)),
            path@,
            new_owner@,
            storage_entries(*final(store)),
            result,
        ),
        registry_kept(storage_entries(*old(store)), storage_entries(*final(store))),
{
    let namespace = match get_namespace_from_path(store, path.clone()) {
        Ok(namespace) => namespace,
        Err(error) => {
            return Err(error);
        },
    };
    if namespace.as_str().as_bytes().len() > MAX_PARTITION_BYTES {
        return Err(BackendError::StoreFault);
    }
    bucket_save_file(store, &path, new_owner, &namespace)
}

/// Resolves the namespace that the file `path` belongs to: the one derived
/// from the path's owner and the generation of the owner's record.
pub fn get_namespace_from_path(store: &MemoryStorage, path: String) -> (result: Result<
    String,
    BackendError,
>)
    ensures
        text_result(result) == path_namespace(storage_entries(*store), path@),
{
    let owner = match owner_of_path(path.as_str()) {
        Some(owner) => owner,
        None => {
            return Err(BackendError::InvalidPath);
        },
    };
    match get_counter(store, &owner) {
        Ok(counter) => Ok(derive_namespace(&owner, counter)),
        Err(error) => Err(error),
    }
}

/// Writes `folder` as the content of the file `path` in `namespace`, over
/// whatever the file held. The store takes every write to a namespace that
/// it can address, so the write succeeds. Files lie apart from the wallet
/// records: whatever the namespace and the path are, no record is touched.
pub fn bucket_save_file(
    store: &mut MemoryStorage,
    path: &String,
    folder: String,
    namespace: &String,
) -> (result: Result<(), BackendError>)
    requires
        addressable(namespace@),
    ensures
        result == Ok::<(), BackendError>(()),
        file_saved(
            storage_entries(*old(store)),
            storage_entries(*final(store)),
            namespace@,
            path@,
            folder@,
        ),
        registry_kept(storage_entries(*old(store)), storage_entries(*final(store))),
{
    proof {
        lemma_file_partition();
    }
    let saved = save_text(store, FILE_LOCATION, namespace.as_str(), path.as_str(), &folder);
    proof {
        lemma_save_keeps_wallets(
            storage_entries(*old(store)),
            storage_entries(*store),
            namespace@,
            path@,
            folder@,
        );
    }
    match saved {
        Ok(()) => Ok(()),
        Err(_) => Err(BackendError::StoreFault),
    }
}

/// Whether the file `path` in `namespace` can be loaded.
pub fn file_exists(store: &mut MemoryStorage, path: &String, namespace: &String) -> (exists: bool)
    requires
        addressable(namespace@),
    ensures
        exists == (file_lookup(storage_entries(*old(store)), namespace@, path@) is Found),
        *final(store) == *old(store),
{
    proof {
        lemma_file_partition();
    }
    match load_text(store, FILE_LOCATION, namespace.as_str(), path.as_str()) {
        Ok(Some(_)) => true,
        Ok(None) => false,
        Err(_) => false,
    }
}

/// Returns the wallet record `x`, or the record that stands for an identity
/// without one.
pub fn return_wallet(x: Option<WalletInfo>) -> (wallet: WalletInfo)
    ensures
        match x {
            Some(stored) => wallet == stored,
            None => wallet@ == default_wallet(),
        },
{
    match x {
        Some(stored) => stored,
        None => WalletInfo {
            init: false,
            namespace: String::from_str(EMPTY_NAMESPACE),
            counter: 0,
        },
    }
}

/// Returns the wallet record of `sender`, or the record that stands for an
/// identity without one. Nothing is written: an identity without a record
/// has none afterwards either.
pub fn get_wallet_info(store: &mut MemoryStorage, sender: &String) -> (result: Result<
    WalletInfo,
    BackendError,
>)
    ensures
        wallet_result(result) == match wallet_lookup(storage_entries(*old(store)), sender@) {
            Lookup::Found(wallet) => Ok::<WalletView, BackendError>(wallet),
            Lookup::Absent => Ok::<WalletView, BackendError>(default_wallet()),
            Lookup::Malformed => Err::<WalletView, BackendError>(BackendError::StoreFault),
        },
        *final(store) == *old(store),
{
    proof {
        lemma_wallet_partition();
    }
    match load_record(store, WALLET_INFO_LOCATION, sender.as_str()) {
        Ok(stored) => Ok(return_wallet(stored)),
        Err(_) => Err(BackendError::StoreFault),
    }
}

/// Returns the namespace in the wallet record of `sender`.
pub fn get_namespace(store: &MemoryStorage, sender: &String) -> (result: Result<
    String,
    BackendError,
>)
    ensures
        text_result(result) == match wallet_lookup(storage_entries(*store), sender@) {
            Lookup::Found(wallet) => Ok::<Seq<char>, BackendError>(wallet.namespace),
            Lookup::Absent => Err::<Seq<char>, BackendError>(BackendError::NotFound),
            Lookup::Malformed => Err::<Seq<char>, BackendError>(BackendError::StoreFault),
        },
{
    proof {
        lemma_wallet_partition();
    }
    match load_record(store, WALLET_INFO_LOCATION, sender.as_str()) {
        Ok(Some(wallet)) => Ok(wallet.namespace),
        Ok(None) => Err(BackendError::NotFound),
        Err(_) => Err(BackendError::StoreFault),
    }
}

/// Returns the generation in the wallet record of `sender`.
pub fn get_counter(store: &MemoryStorage, sender: &String) -> (result: Result<i32, BackendError>)
    ensures
        counter_result(result) == match wallet_lookup(storage_entries(*store), sender@) {
            Lookup::Found(wallet) => Ok::<int, BackendError>(wallet.counter),
            Lookup::Absent => Err::<int, BackendError>(BackendError::NotFound),
            Lookup::Malformed => Err::<int, BackendError>(BackendError::StoreFault),
        },
{
    proof {
        lemma_wallet_partition();
    }
    match load_record(store, WALLET_INFO_LOCATION, sender.as_str()) {
        Ok(Some(wallet)) => Ok(wallet.counter),
        Ok(None) => Err(BackendError::NotFound),
        Err(_) => Err(BackendError::StoreFault),
    }
}

/// Loads the content of the file `path` in `namespace`. A file that is not
/// there is reported as such, and so apart from every content that a file
/// can have.
pub fn bucket_load_file(store: &mut MemoryStorage, path: &String, namespace: &String) -> (result:
    Result<String, BackendError>)
    requires
        addressable(namespace@),
    ensures
        text_result(result) == match file_lookup(
            storage_entries(*old(store)),
            namespace@,
            path@,
        ) {
            Lookup::Found(stored) => Ok::<Seq<char>, BackendError>(stored),
            Lookup::Absent => Err::<Seq<char>, BackendError>(BackendError::NotFound),
            Lookup::Malformed => Err::<Seq<char>, BackendError>(BackendError::StoreFault),
        },
        *final(store) == *old(store),
{
    bucket_load_readonly_file(store, path, namespace)
}

/// Loads the content of the file `path` in `namespace` from a store that is
/// only read.
pub fn bucket_load_readonly_file(store: &MemoryStorage, path: &String, namespace: &String) -> (result:
    Result<String, BackendError>)
    requires
        addressable(namespace@),
    ensures
        text_result(result) == match file_lookup(storage_entries(*store), namespace@, path@) {
            Lookup::Found(stored) => Ok::<Seq<char>, BackendError>(stored),
            Lookup::Absent => Err::<Seq<char>, BackendError>(BackendError::NotFound),
            Lookup::Malformed => Err::<Seq<char>, BackendError>(BackendError::StoreFault),
        },
{
    proof {
        lemma_file_partition();
    }
    match load_text(store, FILE_LOCATION, namespace.as_str(), path.as_str()) {
        Ok(Some(content)) => Ok(content),
        Ok(None) => Err(BackendError::NotFound),
        Err(_) => Err(BackendError::StoreFault),
    }
}

} // verus!
