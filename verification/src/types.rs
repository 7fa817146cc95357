//! Core data types of the registry: identities, commitments, nullifiers,
//! errors and audit events, together with their mathematical views.

use vstd::prelude::*;

verus! {

/// A 32-byte account identity, as supplied by the host.
#[derive(Clone, Copy, PartialEq, Eq, Debug)]
pub struct AccountAddress(pub [u8; 32]);

impl View for AccountAddress {
    type V = Seq<u8>;

    open spec fn view(&self) -> Seq<u8> {
        self.0@
    }
}

/// A 32-byte identity commitment. Opaque to the registry: equality is the
/// only structure it relies on.
#[derive(Clone, Copy, PartialEq, Eq, Debug)]
pub struct Commitment(pub [u8; 32]);

impl View for Commitment {
    type V = Seq<u8>;

    open spec fn view(&self) -> Seq<u8> {
        self.0@
    }
}

/// A 32-byte nullifier supporting one-time anonymous checks.
#[derive(Clone, Copy, PartialEq, Eq, Debug)]
pub struct Nullifier(pub [u8; 32]);

impl View for Nullifier {
    type V = Seq<u8>;

    open spec fn view(&self) -> Seq<u8> {
        self.0@
    }
}

/// A nullifier scoped by a use-case domain tag. Two keys are equal iff both
/// fields match, so the same raw nullifier is a different key in a different
/// domain.
#[derive(Clone, Copy, PartialEq, Eq, Debug)]
pub struct NullifierKey {
    pub domain: u16,
    pub nullifier: Nullifier,
}

impl View for NullifierKey {
    type V = (u16, Seq<u8>);

    open spec fn view(&self) -> (u16, Seq<u8>) {
        (self.domain, self.nullifier@)
    }
}

/// Host-supplied wall-clock time at the moment of an operation.
pub type Timestamp = u64;

/// The identity on whose behalf an operation runs, as reported by the host.
/// Only account callers can act as admin or IDP; a contract caller carries
/// no account identity.
#[derive(Clone, Copy, PartialEq, Eq, Debug)]
pub enum Caller {
    Account(AccountAddress),
    Contract,
}

impl Caller {
    /// Whether the caller is a plain account (not a delegated contract).
    pub open spec fn is_account(self) -> bool {
        self matches Caller::Account(_)
    }

    /// The caller's account identity, where it has one.
    pub open spec fn account(self) -> AccountAddress
        recommends
            self.is_account(),
    {
        match self {
            Caller::Account(a) => a,
            Caller::Contract => vstd::pervasive::arbitrary(),
        }
    }
}

/// Every way an operation can fail. Each operation returns a success value
/// or exactly one of these kinds.
#[derive(Clone, Copy, PartialEq, Eq, Debug)]
pub enum Error {
    /// The caller fails an admin check.
    Unauthorized,
    /// The caller is not an account that is a member of the IDP roster.
    NotIdp,
    /// The subject already holds an active commitment.
    AlreadyRegistered,
    /// The subject holds no active commitment.
    NotRegistered,
    /// The (domain, nullifier) key was already consumed.
    NullifierUsed,
    /// The host could not decode the operation's parameter.
    Parse,
}

/// Audit events for off-chain indexers. Events are derived, not
/// authoritative state: emission is best-effort and carries no read-back
/// guarantee.
#[derive(Clone, Copy, PartialEq, Eq, Debug)]
pub enum Event {
    IdpAdded { idp: AccountAddress },
    IdpRemoved { idp: AccountAddress },
    Registered {
        idp: AccountAddress,
        subject: AccountAddress,
        commitment: Commitment,
        timestamp: Timestamp,
    },
    Revoked { idp: AccountAddress, subject: AccountAddress, timestamp: Timestamp },
    /// `by` attributes the use to the calling account where that account is
    /// currently verified. Audit convenience only; note that it links a
    /// nominally anonymous one-time check to a verified subject in the
    /// audit stream — a privacy tension this design accepts knowingly.
    NullifierUsed {
        by: Option<AccountAddress>,
        nullifier: Nullifier,
        domain: u16,
        timestamp: Timestamp,
    },
    AdminChanged {
        old_admin: AccountAddress,
        new_admin: AccountAddress,
        timestamp: Timestamp,
    },
}

/// The outcome of an operation: a success value or exactly one error kind.
pub type ContractResult<T> = Result<T, Error>;

/// Initialization parameter: the sole admin and the initial IDP roster.
#[derive(PartialEq, Eq, Debug)]
pub struct InitParams {
    pub admin: AccountAddress,
    pub idps: Vec<AccountAddress>,
}

/// Parameter of `set_admin`.
#[derive(Clone, Copy, PartialEq, Eq, Debug)]
pub struct SetAdminParam {
    pub new_admin: AccountAddress,
}

/// Parameter of `add_idp`.
#[derive(Clone, Copy, PartialEq, Eq, Debug)]
pub struct AddIdpParam {
    pub idp: AccountAddress,
}

/// Parameter of `add_idps_batch`.
#[derive(PartialEq, Eq, Debug)]
pub struct AddIdpsBatchParam {
    pub idps: Vec<AccountAddress>,
}

/// Parameter of `remove_idp`.
#[derive(Clone, Copy, PartialEq, Eq, Debug)]
pub struct RemoveIdpParam {
    pub idp: AccountAddress,
}

/// Result of `remove_idp`: whether the identity was actually removed.
#[derive(Clone, Copy, PartialEq, Eq, Debug)]
pub struct RemoveIdpResult {
    pub removed: bool,
}

/// Parameter of `remove_idps_batch`.
#[derive(PartialEq, Eq, Debug)]
pub struct RemoveIdpsBatchParam {
    pub idps: Vec<AccountAddress>,
}

/// Result of `remove_idps_batch`: how many identities were actually removed.
#[derive(Clone, Copy, PartialEq, Eq, Debug)]
pub struct RemoveIdpsBatchResult {
    pub removed_count: u32,
}

/// Parameter of `register`.
#[derive(Clone, Copy, PartialEq, Eq, Debug)]
pub struct RegisterParam {
    pub subject: AccountAddress,
    pub commitment: Commitment,
}

/// Parameter of `revoke`.
#[derive(Clone, Copy, PartialEq, Eq, Debug)]
pub struct RevokeParam {
    pub subject: AccountAddress,
}

/// Parameter of `use_nullifier`.
#[derive(Clone, Copy, PartialEq, Eq, Debug)]
pub struct UseNullifierParam {
    pub nullifier: Nullifier,
    pub domain: u16,
}

/// Parameter of the `nullifier_used` query.
#[derive(Clone, Copy, PartialEq, Eq, Debug)]
pub struct NullifierUsedParam {
    pub nullifier: Nullifier,
    pub domain: u16,
}

/// Byte-for-byte equality of two 32-byte values.
pub fn bytes32_eq(a: &[u8; 32], b: &[u8; 32]) -> (r: bool)
    ensures
        r == (a@ == b@),
{
    let mut i: usize = 0;
    while i < 32
        invariant
            i <= 32,
            forall|j: int| 0 <= j < i ==> a@[j] == b@[j],
        decreases 32 - i,
    {
        if a[i] != b[i] {
            return false;
        }
        i += 1;
    }
    proof {
        assert(a@ =~= b@);
    }
    true
}

/// Equality of two account identities, stated over their views.
pub fn addr_eq(a: &AccountAddress, b: &AccountAddress) -> (r: bool)
    ensures
        r == (a@ == b@),
{
    bytes32_eq(&a.0, &b.0)
}

/// Equality of two domain-scoped nullifier keys, stated over their views.
pub fn nullifier_key_eq(a: &NullifierKey, b: &NullifierKey) -> (r: bool)
    ensures
        r == (a@ == b@),
{
    a.domain == b.domain && bytes32_eq(&a.nullifier.0, &b.nullifier.0)
}

} // verus!
