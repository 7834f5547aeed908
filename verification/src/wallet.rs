//! The wallet record of one identity, and the errors of the library.

use vstd::prelude::*;
use vstd::std_specs::cmp::PartialEqSpecImpl;

verus! {

/// The namespace of the record that is handed out for an identity without a
/// stored record.
pub const EMPTY_NAMESPACE: &'static str = "empty";

/// What the registry keeps for one identity.
#[derive(Clone, Debug)]
pub struct WalletInfo {
    /// Whether the identity went through initialisation at its current
    /// generation.
    pub init: bool,
    /// The namespace that the identity's files are kept under.
    pub namespace: String,
    /// The generation: the number of times the identity was forgotten.
    pub counter: i32,
}

/// A wallet record as a mathematical value.
pub ghost struct WalletView {
    pub init: bool,
    pub namespace: Seq<char>,
    pub counter: int,
}

impl View for WalletInfo {
    type V = WalletView;

    open spec fn view(&self) -> WalletView {
        WalletView { init: self.init, namespace: self.namespace@, counter: self.counter as int }
    }
}

impl PartialEq for WalletInfo {
    fn eq(&self, other: &WalletInfo) -> (equal: bool) {
        self.init == other.init && self.namespace == other.namespace && self.counter
            == other.counter
    }
}

impl PartialEqSpecImpl for WalletInfo {
    open spec fn obeys_eq_spec() -> bool {
        true
    }

    open spec fn eq_spec(&self, other: &WalletInfo) -> bool {
        self.init == other.init && self.namespace@ == other.namespace@ && self.counter
            == other.counter
    }
}

/// The record that stands for an identity without a stored record: not
/// initialised, at generation 0, under the namespace [`EMPTY_NAMESPACE`].
pub open spec fn default_wallet() -> WalletView {
    WalletView { init: false, namespace: EMPTY_NAMESPACE@, counter: 0 }
}

/// Why an operation did not do what was asked.
#[derive(Clone, Copy, Debug, PartialEq, Eq, Structural)]
pub enum BackendError {
    /// No record, or no file, is stored under the key.
    NotFound,
    /// The identity is initialised already.
    AlreadyInitialized,
    /// The path holds no `/` and so names no owner.
    InvalidPath,
    /// The store holds bytes that cannot be read, or cannot address the
    /// namespace.
    StoreFault,
    /// The generation counter has reached its last value.
    GenerationExhausted,
    /// A query found no file to answer with.
    QueryFailed,
}

/// The words that describe an error.
pub open spec fn error_message(error: BackendError) -> Seq<char> {
    match error {
        BackendError::NotFound => "not found"@,
        BackendError::AlreadyInitialized => "User has already been initiated"@,
        BackendError::InvalidPath => "path names no owner"@,
        BackendError::StoreFault => "store fault"@,
        BackendError::GenerationExhausted => "generation counter exhausted"@,
        BackendError::QueryFailed => "Error querying file."@,
    }
}

impl BackendError {
    /// Describes the error in words.
    pub fn message(&self) -> (text: String)
        ensures
            text@ == error_message(*self),
    {
        match self {
            BackendError::NotFound => String::from_str("not found"),
            BackendError::AlreadyInitialized => String::from_str("User has already been initiated"),
            BackendError::InvalidPath => String::from_str("path names no owner"),
            BackendError::StoreFault => String::from_str("store fault"),
            BackendError::GenerationExhausted => String::from_str("generation counter exhausted"),
            BackendError::QueryFailed => String::from_str("Error querying file."),
        }
    }
}

} // verus!
