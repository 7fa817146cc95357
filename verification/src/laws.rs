//! Laws of the registry: properties that relate several operations, proved
//! over the same views that the operations' own contracts are stated in.
//! Each lemma's hypotheses are exactly what the contracts of the involved
//! operations ensure on their success paths.

use vstd::prelude::*;

use crate::registry::{remove_batch_count, remove_batch_set, State};
use crate::types::{AccountAddress, Commitment, Nullifier, Timestamp};

verus! {

/// A subject holds at most one commitment at a time: after a successful
/// registration of a commitment for a subject, the subject is verified
/// with exactly that commitment — so a second registration for the same
/// subject meets `register`'s `AlreadyRegistered` case, fails whatever
/// commitment it carries, and leaves the first commitment in place.
pub proof fn lemma_register_is_exclusive(
    pre: State,
    post: State,
    subject: AccountAddress,
    c1: Commitment,
)
    requires
        post.verified_map() == pre.verified_map().insert(subject@, c1@),
    ensures
        post.verified_map().contains_key(subject@),
        post.verified_map()[subject@] == c1@,
{
}

/// Revocation takes effect: after a successful registration of a subject
/// and a successful revocation of it at time `t`, the subject is no
/// longer verified — `is_verified` answers false and `get_commitment`
/// answers nothing — and `get_revoked_at` answers exactly `t`.
pub proof fn lemma_register_then_revoke(
    pre: State,
    mid: State,
    post: State,
    subject: AccountAddress,
    c1: Commitment,
    t: Timestamp,
)
    requires
        mid.verified_map() == pre.verified_map().insert(subject@, c1@),
        mid.revoked_map() == pre.revoked_map().remove(subject@),
        post.verified_map() == mid.verified_map().remove(subject@),
        post.revoked_map() == mid.revoked_map().insert(subject@, t),
    ensures
        !post.verified_map().contains_key(subject@),
        post.revoked_map().contains_key(subject@),
        post.revoked_map()[subject@] == t,
{
}

/// Re-registration erases revocation history: after registering a
/// subject, revoking it, and successfully registering it again with a new
/// commitment, the subject carries no revocation record — `get_revoked_at`
/// answers nothing — and `get_commitment` answers the new commitment.
pub proof fn lemma_reregistration_clears_revocation(
    pre: State,
    st1: State,
    st2: State,
    post: State,
    subject: AccountAddress,
    c1: Commitment,
    c2: Commitment,
    t: Timestamp,
)
    requires
        st1.verified_map() == pre.verified_map().insert(subject@, c1@),
        st1.revoked_map() == pre.revoked_map().remove(subject@),
        st2.verified_map() == st1.verified_map().remove(subject@),
        st2.revoked_map() == st1.revoked_map().insert(subject@, t),
        post.verified_map() == st2.verified_map().insert(subject@, c2@),
        post.revoked_map() == st2.revoked_map().remove(subject@),
    ensures
        !post.revoked_map().contains_key(subject@),
        post.verified_map().contains_key(subject@),
        post.verified_map()[subject@] == c2@,
{
}

/// Domain separation: consuming a nullifier under one domain consumes
/// exactly that key — repeating it under the same domain meets
/// `use_nullifier`'s `NullifierUsed` case, while the same raw nullifier
/// under a different domain is still available, provided it was not
/// consumed there before.
pub proof fn lemma_domain_separation(
    pre: State,
    post: State,
    n: Nullifier,
    d1: u16,
    d2: u16,
)
    requires
        d1 != d2,
        !pre.nullifiers_set().contains((d2, n@)),
        post.nullifiers_set() == pre.nullifiers_set().insert((d1, n@)),
    ensures
        post.nullifiers_set().contains((d1, n@)),
        !post.nullifiers_set().contains((d2, n@)),
{
}

/// A batch removal accounts exactly for the members it removed: the
/// remaining roster is a subset of the starting one, and the reported
/// count is exactly the number of identities that left it — no more than
/// the batch's length.
pub proof fn lemma_remove_batch_count_exact(s0: Set<Seq<u8>>, ids: Seq<AccountAddress>)
    requires
        s0.finite(),
    ensures
        remove_batch_set(s0, ids).finite(),
        remove_batch_set(s0, ids).subset_of(s0),
        remove_batch_count(s0, ids) + remove_batch_set(s0, ids).len() == s0.len(),
        remove_batch_count(s0, ids) <= ids.len(),
    decreases ids.len(),
{
    if ids.len() > 0 {
        lemma_remove_batch_count_exact(s0, ids.drop_last());
        let prev = remove_batch_set(s0, ids.drop_last());
        vstd::set::axiom_set_remove_finite(prev, ids.last()@);
        vstd::set::axiom_set_remove_len(prev, ids.last()@);
        assert forall|x: (Seq<u8>)| remove_batch_set(s0, ids).contains(x) implies s0.contains(
            x,
        ) by {
            assert(prev.contains(x));
        }
    }
}

} // verus!
