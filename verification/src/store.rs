//! The boundary to the backing store: `cosmwasm_std::MemoryStorage`, read and
//! written through the typed buckets of `cosmwasm_storage`.
//!
//! Nothing in this file is proved. Each item states what the named outside
//! function does, and the rest of the crate is verified against these
//! statements.

use cosmwasm_std::MemoryStorage;
use cosmwasm_std::StdError;
use cosmwasm_storage::bucket;
use cosmwasm_storage::bucket_read;
use cosmwasm_storage::Bucket;
use cosmwasm_storage::ReadonlyBucket;
use crate::wallet::WalletInfo;
use vstd::prelude::*;
use vstd::utf8::encode_utf8;

verus! {

/// `cosmwasm_std::MemoryStorage`, an in-memory map from byte keys to byte
/// values. Its one field is private; [`storage_entries`] stands for it.
#[verifier::external_type_specification]
#[verifier::external_body]
pub struct ExMemoryStorage(cosmwasm_std::MemoryStorage);

/// `cosmwasm_std::StdError`, carried through and never looked into.
#[verifier::external_type_specification]
#[verifier::external_body]
pub struct ExStdError(cosmwasm_std::StdError);

/// The entries that a `MemoryStorage` holds: the contents of its map.
pub uninterp spec fn storage_entries(storage: MemoryStorage) -> Map<Seq<u8>, Seq<u8>>;

/// The JSON bytes that `cosmwasm_std::to_vec` gives for a string.
pub uninterp spec fn text_to_json(text: Seq<char>) -> Seq<u8>;

/// The string that `cosmwasm_std::from_slice` reads from JSON bytes, `None`
/// where it reports an error.
pub uninterp spec fn text_from_json(bytes: Seq<u8>) -> Option<Seq<char>>;

/// The JSON bytes that `cosmwasm_std::to_vec` gives for the triple of a
/// wallet record's fields.
pub uninterp spec fn record_to_json(init: bool, namespace: Seq<char>, counter: int) -> Seq<u8>;

/// The triple of a wallet record's fields that `cosmwasm_std::from_slice`
/// reads from JSON bytes, `None` where it reports an error.
pub uninterp spec fn record_from_json(bytes: Seq<u8>) -> Option<(bool, Seq<char>, int)>;

/// The longest partition name, in bytes, that a bucket can address: it keeps
/// the length of the name in two bytes.
pub const MAX_PARTITION_BYTES: usize = 0xFFFF;

/// Whether a bucket can address the partition `name`.
pub open spec fn addressable(name: Seq<char>) -> bool {
    encode_utf8(name).len() <= MAX_PARTITION_BYTES
}

/// A partition name behind its length as two big-endian bytes. This is what
/// `cosmwasm_storage::to_length_prefixed` builds, for names of at most
/// [`MAX_PARTITION_BYTES`] bytes.
pub open spec fn length_prefixed(name: Seq<u8>) -> Seq<u8> {
    seq![(name.len() / 256) as u8, (name.len() % 256) as u8] + name
}

/// The key under which a bucket keeps an entry: the prefixed partition name,
/// then the entry's own key.
pub open spec fn bucket_key(partition: Seq<u8>, key: Seq<u8>) -> Seq<u8> {
    length_prefixed(partition) + key
}

/// The key under which a bucket of two levels keeps an entry: the prefixed
/// name of the outer partition, the prefixed name of the inner one, then the
/// entry's own key. The prefix is what
/// `cosmwasm_storage::to_length_prefixed_nested` builds.
pub open spec fn nested_bucket_key(outer: Seq<u8>, inner: Seq<u8>, key: Seq<u8>) -> Seq<u8> {
    length_prefixed(outer) + length_prefixed(inner) + key
}

/// The storage key of the entry `key` in the partition `partition`, both
/// given as text.
pub open spec fn entry_key(partition: Seq<char>, key: Seq<char>) -> Seq<u8> {
    bucket_key(encode_utf8(partition), encode_utf8(key))
}

/// The storage key of the entry `key` in the partition `inner` of the
/// partition `outer`, all given as text.
pub open spec fn nested_entry_key(outer: Seq<char>, inner: Seq<char>, key: Seq<char>) -> Seq<
    u8,
> {
    nested_bucket_key(encode_utf8(outer), encode_utf8(inner), encode_utf8(key))
}

/// `cosmwasm_storage::Bucket::multilevel(..).save(..)` on a string value, in
/// the partition `inner` of the partition `outer`.
///
/// The bucket serialises the value with `to_vec` and sets the bytes under
/// the prefixed key; every other entry stays. Serialising a string has no
/// failing path and setting an entry returns nothing, so the call succeeds.
/// The bytes written are those that `from_slice` reads back as the same
/// string. A partition name that is not [`addressable`] makes the outside
/// function panic and is excluded.
#[verifier::external_body]
pub(crate) fn save_text(
    storage: &mut MemoryStorage,
    outer: &str,
    inner: &str,
    key: &str,
    text: &String,
) -> (r: Result<(), StdError>)
    requires
        addressable(outer@),
        addressable(inner@),
    ensures
        r is Ok,
        storage_entries(*final(storage)) == storage_entries(*old(storage)).insert(
            nested_entry_key(outer@, inner@, key@),
            text_to_json(text@),
        ),
        text_from_json(storage_entries(*final(storage))[nested_entry_key(outer@, inner@, key@)])
            == Some(text@),
{
    let names: [&[u8]; 2] = [outer.as_bytes(), inner.as_bytes()];
    Bucket::<MemoryStorage, String>::multilevel(&names, storage).save(key.as_bytes(), text)
}

/// `cosmwasm_storage::ReadonlyBucket::multilevel(..).may_load(..)` for a
/// string value, in the partition `inner` of the partition `outer`.
///
/// The bucket gets the entry under the prefixed key. Without an entry the
/// result is `Ok(None)`; with one, the result is what `from_slice` reads
/// from its bytes, an error where that reports one. A partition name that
/// is not [`addressable`] makes the outside function panic and is excluded.
#[verifier::external_body]
pub(crate) fn load_text(storage: &MemoryStorage, outer: &str, inner: &str, key: &str) -> (r:
    Result<Option<String>, StdError>)
    requires
        addressable(outer@),
        addressable(inner@),
    ensures
        match r {
            Ok(None) => !storage_entries(*storage).dom().contains(
                nested_entry_key(outer@, inner@, key@),
            ),
            Ok(Some(text)) => storage_entries(*storage).dom().contains(
                nested_entry_key(outer@, inner@, key@),
            ) && text_from_json(storage_entries(*storage)[nested_entry_key(outer@, inner@, key@)])
                == Some(text@),
            Err(_) => storage_entries(*storage).dom().contains(
                nested_entry_key(outer@, inner@, key@),
            ) && text_from_json(storage_entries(*storage)[nested_entry_key(outer@, inner@, key@)])
                is None,
        },
{
    let names: [&[u8]; 2] = [outer.as_bytes(), inner.as_bytes()];
    ReadonlyBucket::<MemoryStorage, String>::multilevel(&names, storage).may_load(key.as_bytes())
}

/// `cosmwasm_storage::bucket(..).save(..)` on a wallet record, which is
/// stored as the triple of its fields.
///
/// The bucket serialises the triple with `to_vec` and sets the bytes under
/// the prefixed key; every other entry stays. Serialising a truth value, a
/// string and an integer has no failing path, so the call succeeds. The
/// bytes written are those that `from_slice` reads back as the same triple.
/// A partition name that is not [`addressable`] makes the outside function
/// panic and is excluded.
#[verifier::external_body]
pub(crate) fn save_record(
    storage: &mut MemoryStorage,
    partition: &str,
    key: &str,
    wallet: &WalletInfo,
) -> (r: Result<(), StdError>)
    requires
        addressable(partition@),
    ensures
        r is Ok,
        storage_entries(*final(storage)) == storage_entries(*old(storage)).insert(
            entry_key(partition@, key@),
            record_to_json(wallet.init, wallet.namespace@, wallet.counter as int),
        ),
        record_from_json(storage_entries(*final(storage))[entry_key(partition@, key@)]) == Some(
            (wallet.init, wallet.namespace@, wallet.counter as int),
        ),
{
    let fields = (wallet.init, wallet.namespace.clone(), wallet.counter);
    bucket::<MemoryStorage, (bool, String, i32)>(partition.as_bytes(), storage).save(
        key.as_bytes(),
        &fields,
    )
}

/// `cosmwasm_storage::bucket_read(..).may_load(..)` for a wallet record,
/// which is stored as the triple of its fields.
///
/// The bucket gets the entry under the prefixed key. Without an entry the
/// result is `Ok(None)`; with one, the result is what `from_slice` reads
/// from its bytes, an error where that reports one. A partition name that
/// is not [`addressable`] makes the outside function panic and is excluded.
#[verifier::external_body]
pub(crate) fn load_record(storage: &MemoryStorage, partition: &str, key: &str) -> (r: Result<
    Option<WalletInfo>,
    StdError,
>)
    requires
        addressable(partition@),
    ensures
        match r {
            Ok(None) => !storage_entries(*storage).dom().contains(entry_key(partition@, key@)),
            Ok(Some(wallet)) => storage_entries(*storage).dom().contains(
                entry_key(partition@, key@),
            ) && record_from_json(storage_entries(*storage)[entry_key(partition@, key@)]) == Some(
                (wallet.init, wallet.namespace@, wallet.counter as int),
            ),
            Err(_) => storage_entries(*storage).dom().contains(entry_key(partition@, key@))
                && record_from_json(storage_entries(*storage)[entry_key(partition@, key@)])
                is None,
        },
{
    match bucket_read::<MemoryStorage, (bool, String, i32)>(partition.as_bytes(), storage).may_load(
        key.as_bytes(),
    ) {
        Ok(Some((init, namespace, counter))) => Ok(Some(WalletInfo { init, namespace, counter })),
        Ok(None) => Ok(None),
        Err(error) => Err(error),
    }
}

} // verus!
