//! The store as a mathematical value: what a map of entries holds for an
//! identity and for a file, and how the operations of the library change it.

use crate::namespace::namespace_of;
use crate::store::addressable;
use crate::store::bucket_key;
use crate::store::entry_key;
use crate::store::nested_bucket_key;
use crate::store::nested_entry_key;
use crate::store::record_from_json;
use crate::store::record_to_json;
use crate::store::text_from_json;
use crate::store::text_to_json;
use crate::store::MAX_PARTITION_BYTES;
use crate::path::path_owner;
use crate::wallet::BackendError;
use crate::wallet::WalletView;
use vstd::prelude::*;
use vstd::utf8::encode_utf8;
use vstd::utf8::encode_utf8_decode_utf8;
use vstd::utf8::is_ascii_chars_encode_utf8;

verus! {

/// The partition that holds the wallet records, keyed by identity.
pub const WALLET_INFO_LOCATION: &'static str = "WALLET_INFO";

/// The partition that holds the files: one partition per namespace inside
/// it, keyed by path.
pub const FILE_LOCATION: &'static str = "FILE";

/// The entries of a store: byte values under byte keys.
pub type Entries = Map<Seq<u8>, Seq<u8>>;

/// What a store holds under one key.
pub enum Lookup<T> {
    /// No entry.
    Absent,
    /// An entry whose bytes cannot be read as the value asked for.
    Malformed,
    /// An entry that reads as this value.
    Found(T),
}

/// The storage key of the wallet record of `identity`.
pub open spec fn wallet_key(identity: Seq<char>) -> Seq<u8> {
    entry_key(WALLET_INFO_LOCATION@, identity)
}

/// The storage key of the file `path` in `namespace`.
pub open spec fn file_key(namespace: Seq<char>, path: Seq<char>) -> Seq<u8> {
    nested_entry_key(FILE_LOCATION@, namespace, path)
}

/// The wallet record that `entries` holds for `identity`.
pub open spec fn wallet_lookup(entries: Entries, identity: Seq<char>) -> Lookup<WalletView> {
    if !entries.dom().contains(wallet_key(identity)) {
        Lookup::Absent
    } else {
        match record_from_json(entries[wallet_key(identity)]) {
            Some((init, namespace, counter)) => Lookup::Found(
                WalletView { init, namespace, counter },
            ),
            None => Lookup::Malformed,
        }
    }
}

/// The content that `entries` holds for the file `path` in `namespace`.
pub open spec fn file_lookup(entries: Entries, namespace: Seq<char>, path: Seq<char>) -> Lookup<
    Seq<char>,
> {
    if !entries.dom().contains(file_key(namespace, path)) {
        Lookup::Absent
    } else {
        match text_from_json(entries[file_key(namespace, path)]) {
            Some(content) => Lookup::Found(content),
            None => Lookup::Malformed,
        }
    }
}

/// Whether `after` is `before` with `content` written to the file `path` in
/// `namespace`: one entry is set, to bytes that read back as `content`.
pub open spec fn file_saved(
    before: Entries,
    after: Entries,
    namespace: Seq<char>,
    path: Seq<char>,
    content: Seq<char>,
) -> bool {
    &&& after == before.insert(file_key(namespace, path), text_to_json(content))
    &&& text_from_json(text_to_json(content)) == Some(content)
}

/// Whether `after` is `before` with `wallet` written as the record of
/// `identity`: one entry is set, to bytes that read back as `wallet`.
pub open spec fn wallet_saved(
    before: Entries,
    after: Entries,
    identity: Seq<char>,
    wallet: WalletView,
) -> bool {
    &&& after == before.insert(
        wallet_key(identity),
        record_to_json(wallet.init, wallet.namespace, wallet.counter),
    )
    &&& record_from_json(record_to_json(wallet.init, wallet.namespace, wallet.counter)) == Some(
        (wallet.init, wallet.namespace, wallet.counter),
    )
}

/// Whether `after` holds for every identity what `before` holds for it.
pub open spec fn registry_kept(before: Entries, after: Entries) -> bool {
    forall|identity: Seq<char>|
        #[trigger] wallet_lookup(after, identity) == wallet_lookup(before, identity)
}

/// Whether `after` holds for every path in every namespace what `before`
/// holds for it.
pub open spec fn files_kept(before: Entries, after: Entries) -> bool {
    forall|namespace: Seq<char>, path: Seq<char>|
        #[trigger] file_lookup(after, namespace, path) == file_lookup(before, namespace, path)
}

/// Whether `wallet` is what the registry may hold for `identity`: its
/// namespace is the one derived from the identity and the generation.
pub open spec fn consistent(identity: Seq<char>, wallet: WalletView) -> bool {
    wallet.namespace == namespace_of(identity, wallet.counter)
}

/// The record of a newly initialised identity.
pub open spec fn fresh_wallet(identity: Seq<char>) -> WalletView {
    WalletView { init: true, namespace: namespace_of(identity, 0), counter: 0 }
}

/// The record `wallet` after it was initialised again.
pub open spec fn activated(wallet: WalletView) -> WalletView {
    WalletView { init: true, namespace: wallet.namespace, counter: wallet.counter }
}

/// The record of `identity` after it was forgotten at the record `wallet`:
/// one generation on, under the namespace of that generation, and not
/// initialised.
pub open spec fn forgotten(identity: Seq<char>, wallet: WalletView) -> WalletView {
    WalletView {
        init: false,
        namespace: namespace_of(identity, wallet.counter + 1),
        counter: wallet.counter + 1,
    }
}

/// What initialising `identity` does to a store and what it returns.
///
/// An identity without a record gets a fresh one. A record that is not
/// initialised is marked initialised, at the generation and under the
/// namespace that it has. A record that is initialised already is left as it
/// is, and the request is turned down.
pub open spec fn init_step(
    before: Entries,
    identity: Seq<char>,
    after: Entries,
    result: Result<WalletView, BackendError>,
) -> bool {
    match wallet_lookup(before, identity) {
        Lookup::Absent => {
            &&& result == Ok::<WalletView, BackendError>(fresh_wallet(identity))
            &&& wallet_saved(before, after, identity, fresh_wallet(identity))
        },
        Lookup::Found(wallet) => if wallet.init {
            &&& result == Err::<WalletView, BackendError>(BackendError::AlreadyInitialized)
            &&& after == before
        } else {
            &&& result == Ok::<WalletView, BackendError>(activated(wallet))
            &&& wallet_saved(before, after, identity, activated(wallet))
        },
        Lookup::Malformed => {
            &&& result == Err::<WalletView, BackendError>(BackendError::StoreFault)
            &&& after == before
        },
    }
}

/// What forgetting `identity` does to a store and what it returns.
///
/// The record of the identity is replaced by [`forgotten`] of it, in one
/// write. Without a record, with one that cannot be read, or with one at the
/// last generation, nothing is written.
pub open spec fn forget_step(
    before: Entries,
    identity: Seq<char>,
    after: Entries,
    result: Result<WalletView, BackendError>,
) -> bool {
    match wallet_lookup(before, identity) {
        Lookup::Absent => {
            &&& result == Err::<WalletView, BackendError>(BackendError::NotFound)
            &&& after == before
        },
        Lookup::Malformed => {
            &&& result == Err::<WalletView, BackendError>(BackendError::StoreFault)
            &&& after == before
        },
        Lookup::Found(wallet) => if wallet.counter < i32::MAX {
            &&& result == Ok::<WalletView, BackendError>(forgotten(identity, wallet))
            &&& wallet_saved(before, after, identity, forgotten(identity, wallet))
        } else {
            &&& result == Err::<WalletView, BackendError>(BackendError::GenerationExhausted)
            &&& after == before
        },
    }
}

/// The namespace that the files of the owner of `path` are kept under now:
/// the one derived from the owner and the generation of its record.
pub open spec fn path_namespace(entries: Entries, path: Seq<char>) -> Result<
    Seq<char>,
    BackendError,
> {
    match path_owner(path) {
        None => Err(BackendError::InvalidPath),
        Some(owner) => match wallet_lookup(entries, owner) {
            Lookup::Absent => Err(BackendError::NotFound),
            Lookup::Malformed => Err(BackendError::StoreFault),
            Lookup::Found(wallet) => Ok(namespace_of(owner, wallet.counter)),
        },
    }
}

/// The answer to a query for the file `path`: its content in the current
/// namespace of its owner. A path without an owner is turned down as such;
/// every other failure is reported as a failed query.
pub open spec fn query_answer(entries: Entries, path: Seq<char>) -> Result<
    Seq<char>,
    BackendError,
> {
    match path_namespace(entries, path) {
        Err(BackendError::InvalidPath) => Err(BackendError::InvalidPath),
        Err(_) => Err(BackendError::QueryFailed),
        Ok(namespace) => if addressable(namespace) {
            match file_lookup(entries, namespace, path) {
                Lookup::Found(content) => Ok(content),
                _ => Err(BackendError::QueryFailed),
            }
        } else {
            Err(BackendError::QueryFailed)
        },
    }
}

/// What handing the file `path` to `new_owner` does to a store and what it
/// returns: the file in the current namespace of the path's owner is
/// overwritten. Where that namespace cannot be found or addressed, nothing
/// is written.
pub open spec fn change_owner_step(
    before: Entries,
    path: Seq<char>,
    new_owner: Seq<char>,
    after: Entries,
    result: Result<(), BackendError>,
) -> bool {
    match path_namespace(before, path) {
        Err(error) => result == Err::<(), BackendError>(error) && after == before,
        Ok(namespace) => if addressable(namespace) {
            &&& result == Ok::<(), BackendError>(())
            &&& file_saved(before, after, namespace, path, new_owner)
        } else {
            &&& result == Err::<(), BackendError>(BackendError::StoreFault)
            &&& after == before
        },
    }
}

/// The name of the wallet partition is its eleven letters, and the store can
/// address it.
pub proof fn lemma_wallet_partition()
    ensures
        WALLET_INFO_LOCATION@ == seq!['W', 'A', 'L', 'L', 'E', 'T', '_', 'I', 'N', 'F', 'O'],
        encode_utf8(WALLET_INFO_LOCATION@).len() == 11,
        addressable(WALLET_INFO_LOCATION@),
{
    reveal_strlit("WALLET_INFO");
    is_ascii_chars_encode_utf8(WALLET_INFO_LOCATION@);
}

/// The name of the file partition is its four letters, and the store can
/// address it.
pub proof fn lemma_file_partition()
    ensures
        FILE_LOCATION@ == seq!['F', 'I', 'L', 'E'],
        encode_utf8(FILE_LOCATION@).len() == 4,
        addressable(FILE_LOCATION@),
{
    reveal_strlit("FILE");
    is_ascii_chars_encode_utf8(FILE_LOCATION@);
}

/// Two byte keys of buckets are equal only where the partitions and the
/// entries' keys are.
pub proof fn lemma_bucket_key_injective(p1: Seq<u8>, k1: Seq<u8>, p2: Seq<u8>, k2: Seq<u8>)
    requires
        p1.len() <= MAX_PARTITION_BYTES,
        p2.len() <= MAX_PARTITION_BYTES,
        bucket_key(p1, k1) == bucket_key(p2, k2),
    ensures
        p1 == p2,
        k1 == k2,
{
    let a = bucket_key(p1, k1);
    let b = bucket_key(p2, k2);
    assert(a[0] == (p1.len() / 256) as u8 && a[1] == (p1.len() % 256) as u8);
    assert(b[0] == (p2.len() / 256) as u8 && b[1] == (p2.len() % 256) as u8);
    assert(p1.len() == p2.len());
    assert(a.subrange(2, 2 + p1.len() as int) =~= p1);
    assert(b.subrange(2, 2 + p2.len() as int) =~= p2);
    assert(a.subrange(2 + p1.len() as int, a.len() as int) =~= k1);
    assert(b.subrange(2 + p2.len() as int, b.len() as int) =~= k2);
}

/// Two identities have the same key in the wallet partition only where they
/// are the same identity.
pub proof fn lemma_wallet_key_injective(identity1: Seq<char>, identity2: Seq<char>)
    requires
        wallet_key(identity1) == wallet_key(identity2),
    ensures
        identity1 == identity2,
{
    lemma_wallet_partition();
    let name = encode_utf8(WALLET_INFO_LOCATION@);
    lemma_bucket_key_injective(name, encode_utf8(identity1), name, encode_utf8(identity2));
    encode_utf8_decode_utf8(identity1);
    encode_utf8_decode_utf8(identity2);
}

/// Two files have the same key only where they are the same path in the same
/// namespace.
pub proof fn lemma_file_key_injective(
    namespace1: Seq<char>,
    path1: Seq<char>,
    namespace2: Seq<char>,
    path2: Seq<char>,
)
    requires
        addressable(namespace1),
        addressable(namespace2),
        file_key(namespace1, path1) == file_key(namespace2, path2),
    ensures
        namespace1 == namespace2,
        path1 == path2,
{
    lemma_file_partition();
    let name = encode_utf8(FILE_LOCATION@);
    let n1 = encode_utf8(namespace1);
    let n2 = encode_utf8(namespace2);
    let p1 = encode_utf8(path1);
    let p2 = encode_utf8(path2);
    assert(nested_bucket_key(name, n1, p1) =~= bucket_key(name, bucket_key(n1, p1)));
    assert(nested_bucket_key(name, n2, p2) =~= bucket_key(name, bucket_key(n2, p2)));
    lemma_bucket_key_injective(name, bucket_key(n1, p1), name, bucket_key(n2, p2));
    lemma_bucket_key_injective(n1, p1, n2, p2);
    encode_utf8_decode_utf8(namespace1);
    encode_utf8_decode_utf8(namespace2);
    encode_utf8_decode_utf8(path1);
    encode_utf8_decode_utf8(path2);
}

/// No wallet record shares its key with a file, whatever the identity, the
/// namespace and the path are: the two partitions lie apart.
pub proof fn lemma_partitions_apart(identity: Seq<char>, namespace: Seq<char>, path: Seq<char>)
    ensures
        wallet_key(identity) != file_key(namespace, path),
{
    lemma_wallet_partition();
    lemma_file_partition();
    let record = wallet_key(identity);
    let file = file_key(namespace, path);
    assert(record[1] == 11u8);
    assert(file[1] == 4u8);
}

} // verus!
