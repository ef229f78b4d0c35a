//! The library's error type and the functions that build its values.
use vstd::prelude::*;

verus! {

/// Which domain rule a rejected entity breaks.
#[derive(Clone, Copy, Debug, PartialEq, Eq, Structural)]
pub enum Violation {
    /// A transaction's splits do not sum to zero in the reference commodity.
    Unbalanced,
    /// A split in a foreign commodity has no usable exchange record, or the record's
    /// rate does not turn its source quantity into the split's quantity.
    Conversion,
    /// An amount is outside the supported range.
    AmountRange,
    /// Two transactions of a journal, or two accounts of a ledger, share an identifier.
    DuplicateMember,
    /// An account names a parent that the ledger does not hold.
    UnknownParent,
    /// Following parent references from an account leads back to it.
    ParentCycle,
    /// The journal's read-only window has passed.
    ReadOnly,
}

/// Everything that the library's operations can fail with.
#[derive(Clone, Debug)]
pub enum Error {
    /// A filesystem or connection failure, with the path or address it concerns.
    IoError { context: String },
    /// A malformed settings, permissions or entity file.
    SettingsFileError { context: String },
    /// A connection address that does not parse.
    InvalidAddress { address: String },
    /// No backend is registered for the address's scheme.
    UnknownStoreScheme { address: String },
    /// The target location already holds a store.
    StoreExists { address: String },
    /// The target location holds no store.
    StoreDoesNotExist { address: String },
    /// No entity has the identifier.
    NotFound { id: String },
    /// An entity with the identifier is already present.
    DuplicateIdentifier { id: String },
    /// The entity breaks a domain rule.
    InvariantViolation { violation: Violation },
    /// The entity is reconciled or signed and cannot change any more.
    Immutable { id: String },
    /// An identifier that cannot name an entity file: empty, `.`, `..`, or holding `/`.
    InvalidIdentifier { id: String },
    /// The store handle has been disconnected.
    Disconnected,
}

impl Error {
    /// Whether retrying the operation may succeed: only I/O failures qualify.
    pub open spec fn spec_is_retryable(&self) -> bool {
        self is IoError
    }

    #[verifier::when_used_as_spec(spec_is_retryable)]
    pub fn is_retryable(&self) -> (r: bool)
        ensures
            r == self.spec_is_retryable(),
    {
        match self {
            Error::IoError { .. } => true,
            _ => false,
        }
    }
}

/// An I/O failure concerning `context`.
pub fn io_error(context: String) -> (r: Error)
    ensures
        r matches Error::IoError { context: c } && c@ == context@,
{
    Error::IoError { context }
}

/// A malformed file, described by `context`.
pub fn settings_file_error(context: String) -> (r: Error)
    ensures
        r matches Error::SettingsFileError { context: c } && c@ == context@,
{
    Error::SettingsFileError { context }
}

/// No backend for the scheme of `address`.
pub fn unknown_store_scheme(address: String) -> (r: Error)
    ensures
        r matches Error::UnknownStoreScheme { address: a } && a@ == address@,
{
    Error::UnknownStoreScheme { address }
}

/// A store already exists at `address`.
pub fn store_exists(address: String) -> (r: Error)
    ensures
        r matches Error::StoreExists { address: a } && a@ == address@,
{
    Error::StoreExists { address }
}

/// No store exists at `address`.
pub fn store_does_not_exist(address: String) -> (r: Error)
    ensures
        r matches Error::StoreDoesNotExist { address: a } && a@ == address@,
{
    Error::StoreDoesNotExist { address }
}

} // verus!
