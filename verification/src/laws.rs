//! What holds of the operations taken together, proved from the model of
//! the store.

use crate::model::activated;
use crate::model::change_owner_step;
use crate::model::consistent;
use crate::model::file_key;
use crate::model::file_lookup;
use crate::model::file_saved;
use crate::model::files_kept;
use crate::model::forget_step;
use crate::model::forgotten;
use crate::model::fresh_wallet;
use crate::model::init_step;
use crate::model::lemma_file_key_injective;
use crate::model::lemma_partitions_apart;
use crate::model::lemma_wallet_key_injective;
use crate::model::path_namespace;
use crate::model::query_answer;
use crate::model::registry_kept;
use crate::model::wallet_key;
use crate::model::wallet_lookup;
use crate::model::wallet_saved;
use crate::model::Entries;
use crate::model::Lookup;
use crate::namespace::lemma_namespace_differs_by_generation;
use crate::namespace::namespace_of;
use crate::path::path_owner;
use crate::store::addressable;
use crate::wallet::BackendError;
use crate::wallet::WalletView;
use vstd::prelude::*;

verus! {

/// Whether every wallet record that `entries` holds is consistent with the
/// identity that it is stored for.
pub open spec fn registry_consistent(entries: Entries) -> bool {
    forall|identity: Seq<char>|
        match #[trigger] wallet_lookup(entries, identity) {
            Lookup::Found(wallet) => consistent(identity, wallet),
            _ => true,
        }
}

/// A write of one wallet record is read back as that record, and leaves the
/// records of all other identities as they were.
pub proof fn lemma_wallet_saved_reads(
    before: Entries,
    after: Entries,
    identity: Seq<char>,
    wallet: WalletView,
    other: Seq<char>,
)
    requires
        wallet_saved(before, after, identity, wallet),
    ensures
        wallet_lookup(after, identity) == Lookup::Found(wallet),
        other != identity ==> wallet_lookup(after, other) == wallet_lookup(before, other),
{
    if other != identity && wallet_key(other) == wallet_key(identity) {
        lemma_wallet_key_injective(other, identity);
    }
}

/// A write of one wallet record leaves every file as it was, whatever its
/// namespace and its path are.
pub proof fn lemma_wallet_saved_keeps_files(
    before: Entries,
    after: Entries,
    identity: Seq<char>,
    wallet: WalletView,
)
    requires
        wallet_saved(before, after, identity, wallet),
    ensures
        files_kept(before, after),
{
    assert forall|namespace: Seq<char>, path: Seq<char>|
        #[trigger] file_lookup(after, namespace, path) == file_lookup(
            before,
            namespace,
            path,
        ) by {
        lemma_partitions_apart(identity, namespace, path);
    }
}

/// A file that was saved is loaded with the content that was saved.
pub proof fn lemma_load_after_save(
    before: Entries,
    after: Entries,
    namespace: Seq<char>,
    path: Seq<char>,
    content: Seq<char>,
)
    requires
        file_saved(before, after, namespace, path, content),
    ensures
        file_lookup(after, namespace, path) == Lookup::Found(content),
{
}

/// Of two saves to one file the second one wins: the file is loaded with the
/// content of the second save, whatever the first one wrote.
pub proof fn lemma_last_save_wins(
    start: Entries,
    between: Entries,
    end: Entries,
    namespace: Seq<char>,
    path: Seq<char>,
    first: Seq<char>,
    second: Seq<char>,
)
    requires
        file_saved(start, between, namespace, path, first),
        file_saved(between, end, namespace, path, second),
    ensures
        file_lookup(between, namespace, path) == Lookup::Found(first),
        file_lookup(end, namespace, path) == Lookup::Found(second),
{
}

/// A save to one file leaves every other file as it was.
pub proof fn lemma_save_keeps_other_files(
    before: Entries,
    after: Entries,
    namespace: Seq<char>,
    path: Seq<char>,
    content: Seq<char>,
    other_namespace: Seq<char>,
    other_path: Seq<char>,
)
    requires
        file_saved(before, after, namespace, path, content),
        addressable(namespace),
        addressable(other_namespace),
        other_namespace != namespace || other_path != path,
    ensures
        file_lookup(after, other_namespace, other_path) == file_lookup(
            before,
            other_namespace,
            other_path,
        ),
{
    if file_key(other_namespace, other_path) == file_key(namespace, path) {
        lemma_file_key_injective(other_namespace, other_path, namespace, path);
    }
}

/// A save to a file leaves every wallet record as it was, whatever the
/// file's namespace and path are: no file lies where a record lies.
pub proof fn lemma_save_keeps_wallets(
    before: Entries,
    after: Entries,
    namespace: Seq<char>,
    path: Seq<char>,
    content: Seq<char>,
)
    requires
        file_saved(before, after, namespace, path, content),
    ensures
        registry_kept(before, after),
{
    assert forall|identity: Seq<char>| #[trigger]
        wallet_lookup(after, identity) == wallet_lookup(before, identity) by {
        lemma_partitions_apart(identity, namespace, path);
    }
}

/// After the initialisation of an identity that had no record, or one whose
/// record was at its first namespace, the identity's record is initialised
/// and its namespace is that of generation 0.
pub proof fn lemma_init_first_namespace(
    before: Entries,
    after: Entries,
    identity: Seq<char>,
    result: Result<WalletView, BackendError>,
)
    requires
        init_step(before, identity, after, result),
        match wallet_lookup(before, identity) {
            Lookup::Absent => true,
            Lookup::Found(wallet) => wallet.namespace == namespace_of(identity, 0),
            Lookup::Malformed => false,
        },
    ensures
        wallet_lookup(after, identity) matches Lookup::Found(wallet) && wallet.init
            && wallet.namespace == namespace_of(identity, 0),
        wallet_lookup(before, identity) is Absent ==> result == Ok::<WalletView, BackendError>(
            fresh_wallet(identity),
        ) && wallet_lookup(after, identity) == Lookup::Found(fresh_wallet(identity)),
{
    match wallet_lookup(before, identity) {
        Lookup::Absent => {
            lemma_wallet_saved_reads(before, after, identity, fresh_wallet(identity), identity);
        },
        Lookup::Found(wallet) => {
            if !wallet.init {
                lemma_wallet_saved_reads(before, after, identity, activated(wallet), identity);
            }
        },
        Lookup::Malformed => {},
    }
}

/// An initialisation that succeeds leaves the identity with an initialised
/// record. A record that was there keeps its generation and its namespace.
pub proof fn lemma_init_activates(
    before: Entries,
    after: Entries,
    identity: Seq<char>,
    result: Result<WalletView, BackendError>,
)
    requires
        init_step(before, identity, after, result),
        result is Ok,
    ensures
        wallet_lookup(after, identity) == Lookup::Found(result->Ok_0),
        result->Ok_0.init,
        wallet_lookup(before, identity) matches Lookup::Found(wallet) ==> !wallet.init
            && result->Ok_0.counter == wallet.counter && result->Ok_0.namespace
            == wallet.namespace,
{
    lemma_wallet_saved_reads(before, after, identity, result->Ok_0, identity);
}

/// Forgetting an identity whose record is at generation `g` leaves it with a
/// record at generation `g + 1`, under the namespace of that generation, not
/// initialised. The namespace differs from the one before. No file is
/// touched: what was saved under the old namespace is still loaded from it,
/// and a path under which the new namespace held nothing is still not found
/// there.
pub proof fn lemma_forget_rotates(
    before: Entries,
    after: Entries,
    identity: Seq<char>,
    wallet: WalletView,
    result: Result<WalletView, BackendError>,
    path: Seq<char>,
)
    requires
        wallet_lookup(before, identity) == Lookup::Found(wallet),
        wallet.counter < i32::MAX,
        forget_step(before, identity, after, result),
    ensures
        result == Ok::<WalletView, BackendError>(forgotten(identity, wallet)),
        wallet_lookup(after, identity) == Lookup::Found(
            WalletView {
                init: false,
                namespace: namespace_of(identity, wallet.counter + 1),
                counter: wallet.counter + 1,
            },
        ),
        namespace_of(identity, wallet.counter + 1) != namespace_of(identity, wallet.counter),
        file_lookup(after, namespace_of(identity, wallet.counter), path) == file_lookup(
            before,
            namespace_of(identity, wallet.counter),
            path,
        ),
        file_lookup(before, namespace_of(identity, wallet.counter + 1), path) is Absent
            ==> file_lookup(after, namespace_of(identity, wallet.counter + 1), path) is Absent,
{
    let next = forgotten(identity, wallet);
    lemma_wallet_saved_reads(before, after, identity, next, identity);
    lemma_namespace_differs_by_generation(identity, wallet.counter + 1, wallet.counter);
    lemma_wallet_saved_keeps_files(before, after, identity, next);
}

/// A record never goes away and its generation never goes back: after an
/// identity that had a record was initialised or forgotten, it has a record
/// at the same generation or a later one.
pub proof fn lemma_generation_never_decreases(
    before: Entries,
    after: Entries,
    identity: Seq<char>,
    wallet: WalletView,
    result: Result<WalletView, BackendError>,
)
    requires
        wallet_lookup(before, identity) == Lookup::Found(wallet),
        init_step(before, identity, after, result) || forget_step(before, identity, after, result),
    ensures
        wallet_lookup(after, identity) matches Lookup::Found(next) && next.counter
            >= wallet.counter,
{
    if result is Ok {
        lemma_wallet_saved_reads(before, after, identity, result->Ok_0, identity);
    }
}

/// Neither initialising nor forgetting an identity touches a file, and
/// neither touches the record of another identity.
pub proof fn lemma_registry_keeps_files(
    before: Entries,
    after: Entries,
    identity: Seq<char>,
    result: Result<WalletView, BackendError>,
    other: Seq<char>,
)
    requires
        init_step(before, identity, after, result) || forget_step(before, identity, after, result),
    ensures
        files_kept(before, after),
        other != identity ==> wallet_lookup(after, other) == wallet_lookup(before, other),
{
    if result is Ok {
        lemma_wallet_saved_keeps_files(before, after, identity, result->Ok_0);
        lemma_wallet_saved_reads(before, after, identity, result->Ok_0, other);
    }
}

/// A registry whose records are all consistent stays so when an identity is
/// initialised or forgotten, and the record written is consistent.
pub proof fn lemma_registry_stays_consistent(
    before: Entries,
    after: Entries,
    identity: Seq<char>,
    result: Result<WalletView, BackendError>,
)
    requires
        registry_consistent(before),
        init_step(before, identity, after, result) || forget_step(before, identity, after, result),
    ensures
        registry_consistent(after),
        result matches Ok(wallet) ==> consistent(identity, wallet),
{
    if result is Ok {
        let wallet = result->Ok_0;
        assert forall|other: Seq<char>|
            match #[trigger] wallet_lookup(after, other) {
                Lookup::Found(found) => consistent(other, found),
                _ => true,
            } by {
            lemma_wallet_saved_reads(before, after, identity, wallet, other);
        }
    }
}

/// A registry whose records are all consistent stays so when a file is
/// saved, whatever the file's namespace and path are.
pub proof fn lemma_save_keeps_registry_consistent(
    before: Entries,
    after: Entries,
    namespace: Seq<char>,
    path: Seq<char>,
    content: Seq<char>,
)
    requires
        registry_consistent(before),
        file_saved(before, after, namespace, path, content),
    ensures
        registry_consistent(after),
{
    lemma_save_keeps_wallets(before, after, namespace, path, content);
    assert forall|other: Seq<char>|
        match #[trigger] wallet_lookup(after, other) {
            Lookup::Found(found) => consistent(other, found),
            _ => true,
        } by {
        assert(wallet_lookup(after, other) == wallet_lookup(before, other));
    }
}

/// A query follows the rotation: after the owner of `path` was forgotten, a
/// query for the path no longer finds what was saved under the namespace
/// left behind, unless the new namespace held a file at that path already.
pub proof fn lemma_query_after_forget(
    before: Entries,
    after: Entries,
    owner: Seq<char>,
    wallet: WalletView,
    result: Result<WalletView, BackendError>,
    path: Seq<char>,
)
    requires
        path_owner(path) == Some(owner),
        wallet_lookup(before, owner) == Lookup::Found(wallet),
        wallet.counter < i32::MAX,
        forget_step(before, owner, after, result),
        file_lookup(before, namespace_of(owner, wallet.counter + 1), path) is Absent,
    ensures
        path_namespace(after, path) == Ok::<Seq<char>, BackendError>(
            namespace_of(owner, wallet.counter + 1),
        ),
        query_answer(after, path) == Err::<Seq<char>, BackendError>(BackendError::QueryFailed),
{
    let next = forgotten(owner, wallet);
    lemma_wallet_saved_reads(before, after, owner, next, owner);
    lemma_wallet_saved_keeps_files(before, after, owner, next);
}

/// A change of owner is what a query reads next: after the file `path` was
/// handed over, a query for it answers with the new owner.
pub proof fn lemma_query_after_change_owner(
    before: Entries,
    after: Entries,
    path: Seq<char>,
    new_owner: Seq<char>,
)
    requires
        change_owner_step(before, path, new_owner, after, Ok(())),
    ensures
        query_answer(after, path) == Ok::<Seq<char>, BackendError>(new_owner),
{
    let owner = path_owner(path)->Some_0;
    let namespace = path_namespace(before, path)->Ok_0;
    lemma_save_keeps_wallets(before, after, namespace, path, new_owner);
    assert(wallet_lookup(after, owner) == wallet_lookup(before, owner));
}

} // verus!
