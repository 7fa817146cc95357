//! The registry aggregate and its operations: authorization checks, the
//! IDP roster, the subject registry, the nullifier ledger and the read-only
//! queries. Every operation is all-or-nothing: on an error the state is
//! unchanged. Each mutation returns the audit events it gives rise to; the
//! host shell emits them best-effort, and an emission failure never rolls
//! the operation back.

use vstd::prelude::*;

use crate::store::{
    distinct_keys, distinct_views, lemma_distinct_keys_remove_at, lemma_distinct_views_remove_at,
    lemma_map_view_contains, lemma_map_view_push, lemma_map_view_remove_at, lemma_map_view_value,
    lemma_set_view_contains, lemma_set_view_push, lemma_set_view_remove_at, map_view, set_view,
};
use crate::types::{
    AccountAddress, Caller, Commitment, ContractResult, Error, Event, InitParams, NullifierKey,
    Timestamp, addr_eq, nullifier_key_eq,
};

verus! {

/// The root aggregate: one admin, the IDP roster, the subject registry,
/// the consumed nullifier keys and the revocation bookkeeping. It is
/// created once by `init` and mutated exclusively through the operations
/// of this module.
pub struct State {
    admin: AccountAddress,
    idps: Vec<AccountAddress>,
    verified: Vec<(AccountAddress, Commitment)>,
    used_nullifiers: Vec<NullifierKey>,
    revoked_at: Vec<(AccountAddress, Timestamp)>,
}

impl State {
    /// The current admin identity.
    pub closed spec fn admin_account(self) -> AccountAddress {
        self.admin
    }

    /// The current admin identity, as bytes.
    pub open spec fn spec_admin(self) -> Seq<u8> {
        self.admin_account()@
    }

    /// The set of authorized identity providers.
    pub closed spec fn idps_set(self) -> Set<Seq<u8>> {
        set_view(self.idps@)
    }

    /// The active commitment of each verified subject.
    pub closed spec fn verified_map(self) -> Map<Seq<u8>, Seq<u8>> {
        map_view(self.verified@)
    }

    /// The set of consumed (domain, nullifier) keys.
    pub closed spec fn nullifiers_set(self) -> Set<(u16, Seq<u8>)> {
        set_view(self.used_nullifiers@)
    }

    /// The most recent revocation time of each subject that has had no new
    /// commitment since.
    pub closed spec fn revoked_map(self) -> Map<Seq<u8>, Timestamp> {
        map_view(self.revoked_at@)
    }

    /// Well-formedness: each collection keeps distinct keys, and no subject
    /// is both verified and carrying a revocation record. `init`
    /// establishes it and every operation preserves it.
    pub closed spec fn wf(self) -> bool {
        &&& distinct_views(self.idps@)
        &&& distinct_keys(self.verified@)
        &&& distinct_views(self.used_nullifiers@)
        &&& distinct_keys(self.revoked_at@)
        &&& forall|k: Seq<u8>|
            self.verified_map().contains_key(k) ==> !self.revoked_map().contains_key(k)
    }

    /// Builds a fresh aggregate from the admin and the initial roster;
    /// duplicate roster entries collapse into one membership.
    pub fn new(admin: AccountAddress, idps: Vec<AccountAddress>) -> (s: State)
        ensures
            s.wf(),
            s.admin_account() == admin,
            s.idps_set() == set_view(idps@),
            s.verified_map() == Map::<Seq<u8>, Seq<u8>>::empty(),
            s.nullifiers_set() == Set::<(u16, Seq<u8>)>::empty(),
            s.revoked_map() == Map::<Seq<u8>, Timestamp>::empty(),
    {
        let mut roster: Vec<AccountAddress> = Vec::new();
        let n = idps.len();
        let mut i: usize = 0;
        while i < n
            invariant
                n == idps@.len(),
                i <= n,
                distinct_views(roster@),
                set_view(roster@) == set_view(idps@.take(i as int)),
            decreases n - i,
        {
            let id = idps[i];
            proof {
                assert(idps@.take(i + 1).drop_last() =~= idps@.take(i as int));
                assert(idps@.take(i + 1).last() == id);
                assert(set_view(idps@.take(i + 1)) == set_view(idps@.take(i as int)).insert(id@));
            }
            insert_idp(&mut roster, id);
            i += 1;
        }
        proof {
            assert(idps@.take(n as int) =~= idps@);
        }
        State {
            admin,
            idps: roster,
            verified: Vec::new(),
            used_nullifiers: Vec::new(),
            revoked_at: Vec::new(),
        }
    }

    /// Restores an aggregate from a persisted snapshot, as handed out by
    /// the snapshot accessors: the collections must carry distinct keys,
    /// and no subject may be both verified and carrying a revocation
    /// record.
    pub fn from_parts(
        admin: AccountAddress,
        idps: Vec<AccountAddress>,
        verified: Vec<(AccountAddress, Commitment)>,
        used_nullifiers: Vec<NullifierKey>,
        revoked_at: Vec<(AccountAddress, Timestamp)>,
    ) -> (s: State)
        requires
            distinct_views(idps@),
            distinct_keys(verified@),
            distinct_views(used_nullifiers@),
            distinct_keys(revoked_at@),
            forall|k: Seq<u8>|
                map_view(verified@).contains_key(k) ==> !map_view(revoked_at@).contains_key(k),
        ensures
            s.wf(),
            s.admin_account() == admin,
            s.idps_set() == set_view(idps@),
            s.verified_map() == map_view(verified@),
            s.nullifiers_set() == set_view(used_nullifiers@),
            s.revoked_map() == map_view(revoked_at@),
    {
        State { admin, idps, verified, used_nullifiers, revoked_at }
    }

    /// Snapshot of the IDP roster, for host persistence.
    pub fn idps_entries(&self) -> (r: &Vec<AccountAddress>)
        requires
            self.wf(),
        ensures
            distinct_views(r@),
            set_view(r@) == self.idps_set(),
    {
        &self.idps
    }

    /// Snapshot of the subject registry, for host persistence.
    pub fn verified_entries(&self) -> (r: &Vec<(AccountAddress, Commitment)>)
        requires
            self.wf(),
        ensures
            distinct_keys(r@),
            map_view(r@) == self.verified_map(),
            forall|k: Seq<u8>|
                map_view(r@).contains_key(k) ==> !self.revoked_map().contains_key(k),
    {
        &self.verified
    }

    /// Snapshot of the consumed nullifier keys, for host persistence.
    pub fn used_nullifier_entries(&self) -> (r: &Vec<NullifierKey>)
        requires
            self.wf(),
        ensures
            distinct_views(r@),
            set_view(r@) == self.nullifiers_set(),
    {
        &self.used_nullifiers
    }

    /// Snapshot of the revocation records, for host persistence.
    pub fn revoked_entries(&self) -> (r: &Vec<(AccountAddress, Timestamp)>)
        requires
            self.wf(),
        ensures
            distinct_keys(r@),
            map_view(r@) == self.revoked_map(),
    {
        &self.revoked_at
    }
}

/// First roster index holding the given identity, if any.
fn find_idp(idps: &Vec<AccountAddress>, id: &AccountAddress) -> (r: Option<usize>)
    ensures
        match r {
            Some(i) => i < idps@.len() && idps@[i as int]@ == id@,
            None => forall|j: int| 0 <= j < idps@.len() ==> idps@[j]@ != id@,
        },
{
    let n = idps.len();
    let mut i: usize = 0;
    while i < n
        invariant
            n == idps@.len(),
            i <= n,
            forall|j: int| 0 <= j < i ==> idps@[j]@ != id@,
        decreases n - i,
    {
        if addr_eq(&idps[i], id) {
            return Some(i);
        }
        i += 1;
    }
    None
}

/// First subject-registry index holding the given subject, if any.
fn find_verified(entries: &Vec<(AccountAddress, Commitment)>, subject: &AccountAddress) -> (r:
    Option<usize>)
    ensures
        match r {
            Some(i) => i < entries@.len() && entries@[i as int].0@ == subject@,
            None => forall|j: int| 0 <= j < entries@.len() ==> entries@[j].0@ != subject@,
        },
{
    let n = entries.len();
    let mut i: usize = 0;
    while i < n
        invariant
            n == entries@.len(),
            i <= n,
            forall|j: int| 0 <= j < i ==> entries@[j].0@ != subject@,
        decreases n - i,
    {
        if addr_eq(&entries[i].0, subject) {
            return Some(i);
        }
        i += 1;
    }
    None
}

/// First revocation-record index holding the given subject, if any.
fn find_revoked(entries: &Vec<(AccountAddress, Timestamp)>, subject: &AccountAddress) -> (r:
    Option<usize>)
    ensures
        match r {
            Some(i) => i < entries@.len() && entries@[i as int].0@ == subject@,
            None => forall|j: int| 0 <= j < entries@.len() ==> entries@[j].0@ != subject@,
        },
{
    let n = entries.len();
    let mut i: usize = 0;
    while i < n
        invariant
            n == entries@.len(),
            i <= n,
            forall|j: int| 0 <= j < i ==> entries@[j].0@ != subject@,
        decreases n - i,
    {
        if addr_eq(&entries[i].0, subject) {
            return Some(i);
        }
        i += 1;
    }
    None
}

/// First ledger index holding the given nullifier key, if any.
fn find_nullifier(keys: &Vec<NullifierKey>, key: &NullifierKey) -> (r: Option<usize>)
    ensures
        match r {
            Some(i) => i < keys@.len() && keys@[i as int]@ == key@,
            None => forall|j: int| 0 <= j < keys@.len() ==> keys@[j]@ != key@,
        },
{
    let n = keys.len();
    let mut i: usize = 0;
    while i < n
        invariant
            n == keys@.len(),
            i <= n,
            forall|j: int| 0 <= j < i ==> keys@[j]@ != key@,
        decreases n - i,
    {
        if nullifier_key_eq(&keys[i], key) {
            return Some(i);
        }
        i += 1;
    }
    None
}

/// Whether the caller is the account holding the admin role.
pub open spec fn spec_is_admin(caller: Caller, st: State) -> bool {
    caller.is_account() && caller.account()@ == st.spec_admin()
}

/// Whether the caller is an account that is a member of the IDP roster.
pub open spec fn spec_is_idp(caller: Caller, st: State) -> bool {
    caller.is_account() && st.idps_set().contains(caller.account()@)
}

/// Succeeds exactly when the caller is the admin.
pub fn ensure_admin(caller: &Caller, state: &State) -> (r: ContractResult<()>)
    ensures
        match r {
            Ok(_) => spec_is_admin(*caller, *state),
            Err(e) => !spec_is_admin(*caller, *state) && e == Error::Unauthorized,
        },
{
    match caller {
        Caller::Account(a) => {
            if addr_eq(a, &state.admin) {
                Ok(())
            } else {
                Err(Error::Unauthorized)
            }
        },
        Caller::Contract => Err(Error::Unauthorized),
    }
}

/// Succeeds exactly when the caller is an account on the IDP roster, and
/// hands that account back for attribution in events.
pub fn ensure_idp(caller: &Caller, state: &State) -> (r: ContractResult<AccountAddress>)
    ensures
        match r {
            Ok(a) => *caller == Caller::Account(a) && state.idps_set().contains(a@),
            Err(e) => !spec_is_idp(*caller, *state) && e == Error::NotIdp,
        },
{
    match caller {
        Caller::Account(a) => {
            proof {
                lemma_set_view_contains(state.idps@, a@);
            }
            match find_idp(&state.idps, a) {
                Some(_) => Ok(*a),
                None => Err(Error::NotIdp),
            }
        },
        Caller::Contract => Err(Error::NotIdp),
    }
}

/// An operation that leaves the subject registry and the revocation
/// records untouched keeps the aggregate well-formed.
proof fn lemma_wf_unchanged_subjects(pre: State, post: State)
    requires
        pre.wf(),
        distinct_views(post.idps@),
        distinct_views(post.used_nullifiers@),
        post.verified@ == pre.verified@,
        post.revoked_at@ == pre.revoked_at@,
    ensures
        post.wf(),
{
    assert forall|k: Seq<u8>| post.verified_map().contains_key(k) implies !post.revoked_map().contains_key(
        k,
    ) by {
        assert(pre.verified_map().contains_key(k));
    }
}

/// Idempotent roster insert: afterwards the identity is a member, and
/// nothing else changed.
fn insert_idp(idps: &mut Vec<AccountAddress>, id: AccountAddress)
    requires
        distinct_views(old(idps)@),
    ensures
        distinct_views(final(idps)@),
        set_view(final(idps)@) == set_view(old(idps)@).insert(id@),
{
    match find_idp(idps, &id) {
        Some(_) => {
            proof {
                lemma_set_view_contains(idps@, id@);
                assert(set_view(idps@).insert(id@) =~= set_view(idps@));
            }
        },
        None => {
            proof {
                lemma_set_view_push(idps@, id);
                assert forall|p: int, q: int|
                    0 <= p < q < idps@.push(id).len() implies idps@.push(id)[p]@ != idps@.push(
                    id,
                )[q]@ by {
                    if q < idps@.len() {
                        assert(idps@.push(id)[p] == idps@[p]);
                        assert(idps@.push(id)[q] == idps@[q]);
                    } else {
                        assert(idps@.push(id)[q] == id);
                        assert(idps@.push(id)[p] == idps@[p]);
                        assert(idps@[p]@ != id@);
                    }
                }
            }
            idps.push(id);
        },
    }
}

/// Roster removal: reports whether the identity was a member, and
/// afterwards it is none.
fn remove_idp_entry(idps: &mut Vec<AccountAddress>, id: &AccountAddress) -> (removed: bool)
    requires
        distinct_views(old(idps)@),
    ensures
        distinct_views(final(idps)@),
        removed == set_view(old(idps)@).contains(id@),
        set_view(final(idps)@) == set_view(old(idps)@).remove(id@),
        !removed ==> *final(idps) == *old(idps),
{
    proof {
        lemma_set_view_contains(idps@, id@);
    }
    match find_idp(idps, id) {
        Some(i) => {
            proof {
                lemma_set_view_remove_at(idps@, i as int);
                lemma_distinct_views_remove_at(idps@, i as int);
            }
            idps.remove(i);
            true
        },
        None => {
            proof {
                assert(set_view(idps@).remove(id@) =~= set_view(idps@));
            }
            false
        },
    }
}

/// Constructs the aggregate from the initialization parameter: the given
/// admin and roster, with no verified subject, no consumed nullifier and
/// no revocation record.
pub fn init(params: InitParams) -> (s: State)
    ensures
        s.wf(),
        s.admin_account() == params.admin,
        s.idps_set() == set_view(params.idps@),
        s.verified_map() == Map::<Seq<u8>, Seq<u8>>::empty(),
        s.nullifiers_set() == Set::<(u16, Seq<u8>)>::empty(),
        s.revoked_map() == Map::<Seq<u8>, Timestamp>::empty(),
{
    State::new(params.admin, params.idps)
}

/// One `IdpAdded` event per roster entry handed to a batch add, duplicates
/// included: a batch add signals each element exactly as a single add does.
pub open spec fn idp_added_events(ids: Seq<AccountAddress>) -> Seq<Event> {
    ids.map_values(|id: AccountAddress| (Event::IdpAdded { idp: id }))
}

/// The roster left after removing the batch's elements in order.
pub open spec fn remove_batch_set(s0: Set<Seq<u8>>, ids: Seq<AccountAddress>) -> Set<Seq<u8>>
    decreases ids.len(),
{
    if ids.len() == 0 {
        s0
    } else {
        remove_batch_set(s0, ids.drop_last()).remove(ids.last()@)
    }
}

/// How many elements of the batch were members at their turn: a duplicate
/// or an absent identity does not count.
pub open spec fn remove_batch_count(s0: Set<Seq<u8>>, ids: Seq<AccountAddress>) -> nat
    decreases ids.len(),
{
    if ids.len() == 0 {
        0
    } else {
        remove_batch_count(s0, ids.drop_last()) + (if remove_batch_set(
            s0,
            ids.drop_last(),
        ).contains(ids.last()@) {
            1nat
        } else {
            0nat
        })
    }
}

/// One `IdpRemoved` event per batch element that was actually removed, in
/// batch order.
pub open spec fn remove_batch_events(s0: Set<Seq<u8>>, ids: Seq<AccountAddress>) -> Seq<Event>
    decreases ids.len(),
{
    if ids.len() == 0 {
        Seq::empty()
    } else {
        remove_batch_events(s0, ids.drop_last()) + (if remove_batch_set(
            s0,
            ids.drop_last(),
        ).contains(ids.last()@) {
            seq![(Event::IdpRemoved { idp: ids.last() })]
        } else {
            Seq::empty()
        })
    }
}

/// Unconditionally hands the admin role to the given identity. Admin-only;
/// on success the rest of the state is untouched and one `AdminChanged`
/// event is due.
pub fn set_admin(
    state: &mut State,
    caller: &Caller,
    now: Timestamp,
    param: crate::types::SetAdminParam,
) -> (r: ContractResult<Vec<Event>>)
    requires
        old(state).wf(),
    ensures
        final(state).wf(),
        match r {
            Ok(events) => {
                &&& spec_is_admin(*caller, *old(state))
                &&& final(state).admin_account() == param.new_admin
                &&& final(state).idps_set() == old(state).idps_set()
                &&& final(state).verified_map() == old(state).verified_map()
                &&& final(state).nullifiers_set() == old(state).nullifiers_set()
                &&& final(state).revoked_map() == old(state).revoked_map()
                &&& events@ == seq![
                    (Event::AdminChanged {
                        old_admin: old(state).admin_account(),
                        new_admin: param.new_admin,
                        timestamp: now,
                    }),
                ]
            },
            Err(e) => {
                &&& *final(state) == *old(state)
                &&& !spec_is_admin(*caller, *old(state))
                &&& e == Error::Unauthorized
            },
        },
{
    if let Err(e) = ensure_admin(caller, state) {
        return Err(e);
    }
    let old_admin = state.admin;
    state.admin = param.new_admin;
    let mut events: Vec<Event> = Vec::new();
    events.push(Event::AdminChanged { old_admin, new_admin: param.new_admin, timestamp: now });
    proof {
        assert(events@ =~= seq![
            (Event::AdminChanged {
                old_admin: old(state).admin_account(),
                new_admin: param.new_admin,
                timestamp: now,
            }),
        ]);
        lemma_wf_unchanged_subjects(*old(state), *state);
    }
    Ok(events)
}

/// Adds one identity to the IDP roster. Admin-only; idempotent: adding a
/// member again changes nothing, yet still signals one `IdpAdded` event,
/// exactly as for a fresh member.
pub fn add_idp(state: &mut State, caller: &Caller, param: crate::types::AddIdpParam) -> (r:
    ContractResult<Vec<Event>>)
    requires
        old(state).wf(),
    ensures
        final(state).wf(),
        match r {
            Ok(events) => {
                &&& spec_is_admin(*caller, *old(state))
                &&& final(state).idps_set() == old(state).idps_set().insert(param.idp@)
                &&& final(state).admin_account() == old(state).admin_account()
                &&& final(state).verified_map() == old(state).verified_map()
                &&& final(state).nullifiers_set() == old(state).nullifiers_set()
                &&& final(state).revoked_map() == old(state).revoked_map()
                &&& events@ == seq![(Event::IdpAdded { idp: param.idp })]
            },
            Err(e) => {
                &&& *final(state) == *old(state)
                &&& !spec_is_admin(*caller, *old(state))
                &&& e == Error::Unauthorized
            },
        },
{
    if let Err(e) = ensure_admin(caller, state) {
        return Err(e);
    }
    insert_idp(&mut state.idps, param.idp);
    let mut events: Vec<Event> = Vec::new();
    events.push(Event::IdpAdded { idp: param.idp });
    proof {
        assert(events@ =~= seq![(Event::IdpAdded { idp: param.idp })]);
        lemma_wf_unchanged_subjects(*old(state), *state);
    }
    Ok(events)
}

/// Adds each identity of the batch in order, as `add_idp` would: the
/// roster gains every element, and one `IdpAdded` event per element is
/// due, duplicates included. Admin-only.
pub fn add_idps_batch(
    state: &mut State,
    caller: &Caller,
    param: crate::types::AddIdpsBatchParam,
) -> (r: ContractResult<Vec<Event>>)
    requires
        old(state).wf(),
    ensures
        final(state).wf(),
        match r {
            Ok(events) => {
                &&& spec_is_admin(*caller, *old(state))
                &&& final(state).idps_set() == old(state).idps_set().union(set_view(param.idps@))
                &&& final(state).admin_account() == old(state).admin_account()
                &&& final(state).verified_map() == old(state).verified_map()
                &&& final(state).nullifiers_set() == old(state).nullifiers_set()
                &&& final(state).revoked_map() == old(state).revoked_map()
                &&& events@ == idp_added_events(param.idps@)
            },
            Err(e) => {
                &&& *final(state) == *old(state)
                &&& !spec_is_admin(*caller, *old(state))
                &&& e == Error::Unauthorized
            },
        },
{
    if let Err(e) = ensure_admin(caller, state) {
        return Err(e);
    }
    let ghost s0 = *state;
    let mut events: Vec<Event> = Vec::new();
    let n = param.idps.len();
    let mut i: usize = 0;
    while i < n
        invariant
            n == param.idps@.len(),
            i <= n,
            distinct_views(state.idps@),
            set_view(state.idps@) == s0.idps_set().union(set_view(param.idps@.take(i as int))),
            events@ == idp_added_events(param.idps@.take(i as int)),
            state.admin == s0.admin,
            state.verified@ == s0.verified@,
            state.used_nullifiers@ == s0.used_nullifiers@,
            state.revoked_at@ == s0.revoked_at@,
        decreases n - i,
    {
        let id = param.idps[i];
        proof {
            assert(param.idps@.take(i + 1).drop_last() =~= param.idps@.take(i as int));
            assert(param.idps@.take(i + 1).last() == id);
            assert(set_view(param.idps@.take(i + 1)) == set_view(
                param.idps@.take(i as int),
            ).insert(id@));
            assert(s0.idps_set().union(set_view(param.idps@.take(i as int))).insert(id@)
                =~= s0.idps_set().union(set_view(param.idps@.take(i + 1))));
        }
        insert_idp(&mut state.idps, id);
        events.push(Event::IdpAdded { idp: id });
        proof {
            assert(events@ =~= idp_added_events(param.idps@.take(i + 1)));
        }
        i += 1;
    }
    proof {
        assert(param.idps@.take(n as int) =~= param.idps@);
        lemma_wf_unchanged_subjects(*old(state), *state);
    }
    Ok(events)
}

/// Removes one identity from the IDP roster if present, and reports
/// whether it was. Admin-only; an `IdpRemoved` event is due only on an
/// actual removal.
pub fn remove_idp(state: &mut State, caller: &Caller, param: crate::types::RemoveIdpParam) -> (r:
    ContractResult<(crate::types::RemoveIdpResult, Vec<Event>)>)
    requires
        old(state).wf(),
    ensures
        final(state).wf(),
        match r {
            Ok(out) => {
                &&& spec_is_admin(*caller, *old(state))
                &&& out.0.removed == old(state).idps_set().contains(param.idp@)
                &&& final(state).idps_set() == old(state).idps_set().remove(param.idp@)
                &&& final(state).admin_account() == old(state).admin_account()
                &&& final(state).verified_map() == old(state).verified_map()
                &&& final(state).nullifiers_set() == old(state).nullifiers_set()
                &&& final(state).revoked_map() == old(state).revoked_map()
                &&& out.0.removed ==> out.1@ == seq![(Event::IdpRemoved { idp: param.idp })]
                &&& !out.0.removed ==> out.1@ == Seq::<Event>::empty() && *final(state) == *old(
                    state,
                )
            },
            Err(e) => {
                &&& *final(state) == *old(state)
                &&& !spec_is_admin(*caller, *old(state))
                &&& e == Error::Unauthorized
            },
        },
{
    if let Err(e) = ensure_admin(caller, state) {
        return Err(e);
    }
    let removed = remove_idp_entry(&mut state.idps, &param.idp);
    let mut events: Vec<Event> = Vec::new();
    if removed {
        events.push(Event::IdpRemoved { idp: param.idp });
        proof {
            assert(events@ =~= seq![(Event::IdpRemoved { idp: param.idp })]);
        }
    } else {
        proof {
            assert(events@ =~= Seq::<Event>::empty());
        }
    }
    proof {
        lemma_wf_unchanged_subjects(*old(state), *state);
    }
    Ok((crate::types::RemoveIdpResult { removed }, events))
}

/// Removes each identity of the batch in order, counting only those that
/// were members at their turn; one `IdpRemoved` event is due per actual
/// removal. Admin-only. The count is a 32-bit value, so the batch may not
/// exceed that range.
pub fn remove_idps_batch(
    state: &mut State,
    caller: &Caller,
    param: crate::types::RemoveIdpsBatchParam,
) -> (r: ContractResult<(crate::types::RemoveIdpsBatchResult, Vec<Event>)>)
    requires
        old(state).wf(),
        param.idps@.len() <= 0xffff_ffff,
    ensures
        final(state).wf(),
        match r {
            Ok(out) => {
                &&& spec_is_admin(*caller, *old(state))
                &&& out.0.removed_count as nat == remove_batch_count(
                    old(state).idps_set(),
                    param.idps@,
                )
                &&& final(state).idps_set() == remove_batch_set(
                    old(state).idps_set(),
                    param.idps@,
                )
                &&& final(state).admin_account() == old(state).admin_account()
                &&& final(state).verified_map() == old(state).verified_map()
                &&& final(state).nullifiers_set() == old(state).nullifiers_set()
                &&& final(state).revoked_map() == old(state).revoked_map()
                &&& out.1@ == remove_batch_events(old(state).idps_set(), param.idps@)
            },
            Err(e) => {
                &&& *final(state) == *old(state)
                &&& !spec_is_admin(*caller, *old(state))
                &&& e == Error::Unauthorized
            },
        },
{
    if let Err(e) = ensure_admin(caller, state) {
        return Err(e);
    }
    let ghost s0 = *state;
    let mut events: Vec<Event> = Vec::new();
    let mut removed_count: u32 = 0;
    let n = param.idps.len();
    let mut i: usize = 0;
    while i < n
        invariant
            n == param.idps@.len(),
            n <= 0xffff_ffff,
            i <= n,
            removed_count <= i,
            distinct_views(state.idps@),
            set_view(state.idps@) == remove_batch_set(
                s0.idps_set(),
                param.idps@.take(i as int),
            ),
            removed_count as nat == remove_batch_count(
                s0.idps_set(),
                param.idps@.take(i as int),
            ),
            events@ == remove_batch_events(s0.idps_set(), param.idps@.take(i as int)),
            state.admin == s0.admin,
            state.verified@ == s0.verified@,
            state.used_nullifiers@ == s0.used_nullifiers@,
            state.revoked_at@ == s0.revoked_at@,
        decreases n - i,
    {
        let id = param.idps[i];
        proof {
            assert(param.idps@.take(i + 1).drop_last() =~= param.idps@.take(i as int));
            assert(param.idps@.take(i + 1).last() == id);
        }
        let removed = remove_idp_entry(&mut state.idps, &id);
        if removed {
            removed_count += 1;
            events.push(Event::IdpRemoved { idp: id });
            proof {
                assert(events@ =~= remove_batch_events(s0.idps_set(), param.idps@.take(i + 1)));
            }
        } else {
            proof {
                assert(events@ =~= remove_batch_events(s0.idps_set(), param.idps@.take(i + 1)));
            }
        }
        i += 1;
    }
    proof {
        assert(param.idps@.take(n as int) =~= param.idps@);
        lemma_wf_unchanged_subjects(*old(state), *state);
    }
    Ok((crate::types::RemoveIdpsBatchResult { removed_count }, events))
}

/// Grants a subject its commitment: IDP-only; fails `AlreadyRegistered`
/// while the subject holds an active commitment. A success erases any
/// revocation record of the subject and signals one `Registered` event
/// attributed to the calling IDP.
pub fn register(
    state: &mut State,
    caller: &Caller,
    now: Timestamp,
    param: crate::types::RegisterParam,
) -> (r: ContractResult<Vec<Event>>)
    requires
        old(state).wf(),
    ensures
        final(state).wf(),
        match r {
            Ok(events) => {
                &&& spec_is_idp(*caller, *old(state))
                &&& !old(state).verified_map().contains_key(param.subject@)
                &&& final(state).verified_map() == old(state).verified_map().insert(
                    param.subject@,
                    param.commitment@,
                )
                &&& final(state).revoked_map() == old(state).revoked_map().remove(param.subject@)
                &&& final(state).admin_account() == old(state).admin_account()
                &&& final(state).idps_set() == old(state).idps_set()
                &&& final(state).nullifiers_set() == old(state).nullifiers_set()
                &&& events@ == seq![
                    (Event::Registered {
                        idp: caller.account(),
                        subject: param.subject,
                        commitment: param.commitment,
                        timestamp: now,
                    }),
                ]
            },
            Err(e) => {
                &&& *final(state) == *old(state)
                &&& (e == Error::NotIdp <==> !spec_is_idp(*caller, *old(state)))
                &&& (e == Error::AlreadyRegistered <==> spec_is_idp(*caller, *old(state))
                    && old(state).verified_map().contains_key(param.subject@))
                &&& (e == Error::NotIdp || e == Error::AlreadyRegistered)
            },
        },
{
    let idp = match ensure_idp(caller, state) {
        Ok(a) => a,
        Err(e) => {
            return Err(e);
        },
    };
    proof {
        lemma_map_view_contains(state.verified@, param.subject@);
    }
    match find_verified(&state.verified, &param.subject) {
        Some(_) => Err(Error::AlreadyRegistered),
        None => {
            let entry = (param.subject, param.commitment);
            proof {
                lemma_map_view_push(state.verified@, entry);
                assert forall|p: int, q: int|
                    0 <= p < q < state.verified@.push(entry).len() implies state.verified@.push(
                    entry,
                )[p].0@ != state.verified@.push(entry)[q].0@ by {
                    if q < state.verified@.len() {
                        assert(state.verified@.push(entry)[p] == state.verified@[p]);
                        assert(state.verified@.push(entry)[q] == state.verified@[q]);
                    } else {
                        assert(state.verified@.push(entry)[q] == entry);
                        assert(state.verified@.push(entry)[p] == state.verified@[p]);
                    }
                }
            }
            state.verified.push(entry);
            proof {
                lemma_map_view_contains(state.revoked_at@, param.subject@);
            }
            match find_revoked(&state.revoked_at, &param.subject) {
                Some(i) => {
                    proof {
                        lemma_map_view_remove_at(state.revoked_at@, i as int);
                        lemma_distinct_keys_remove_at(state.revoked_at@, i as int);
                    }
                    state.revoked_at.remove(i);
                },
                None => {
                    proof {
                        assert(map_view(state.revoked_at@).remove(param.subject@) =~= map_view(
                            state.revoked_at@,
                        ));
                    }
                },
            }
            proof {
                assert forall|k: Seq<u8>|
                    state.verified_map().contains_key(k) implies !state.revoked_map().contains_key(
                    k,
                ) by {
                    if k != param.subject@ {
                        assert(old(state).verified_map().contains_key(k));
                    }
                }
            }
            let mut events: Vec<Event> = Vec::new();
            events.push(
                Event::Registered {
                    idp,
                    subject: param.subject,
                    commitment: param.commitment,
                    timestamp: now,
                },
            );
            proof {
                assert(events@ =~= seq![
                    (Event::Registered {
                        idp: caller.account(),
                        subject: param.subject,
                        commitment: param.commitment,
                        timestamp: now,
                    }),
                ]);
            }
            Ok(events)
        },
    }
}

/// Withdraws a subject's commitment: IDP-only; fails `NotRegistered`
/// while the subject holds none. Any roster member may revoke, not only
/// the registering IDP. A success records the revocation time and signals
/// one `Revoked` event attributed to the calling IDP.
pub fn revoke(
    state: &mut State,
    caller: &Caller,
    now: Timestamp,
    param: crate::types::RevokeParam,
) -> (r: ContractResult<Vec<Event>>)
    requires
        old(state).wf(),
    ensures
        final(state).wf(),
        match r {
            Ok(events) => {
                &&& spec_is_idp(*caller, *old(state))
                &&& old(state).verified_map().contains_key(param.subject@)
                &&& final(state).verified_map() == old(state).verified_map().remove(param.subject@)
                &&& final(state).revoked_map() == old(state).revoked_map().insert(
                    param.subject@,
                    now,
                )
                &&& final(state).admin_account() == old(state).admin_account()
                &&& final(state).idps_set() == old(state).idps_set()
                &&& final(state).nullifiers_set() == old(state).nullifiers_set()
                &&& events@ == seq![
                    (Event::Revoked { idp: caller.account(), subject: param.subject, timestamp: now }),
                ]
            },
            Err(e) => {
                &&& *final(state) == *old(state)
                &&& (e == Error::NotIdp <==> !spec_is_idp(*caller, *old(state)))
                &&& (e == Error::NotRegistered <==> spec_is_idp(*caller, *old(state))
                    && !old(state).verified_map().contains_key(param.subject@))
                &&& (e == Error::NotIdp || e == Error::NotRegistered)
            },
        },
{
    let idp = match ensure_idp(caller, state) {
        Ok(a) => a,
        Err(e) => {
            return Err(e);
        },
    };
    proof {
        lemma_map_view_contains(state.verified@, param.subject@);
    }
    match find_verified(&state.verified, &param.subject) {
        None => Err(Error::NotRegistered),
        Some(i) => {
            proof {
                lemma_map_view_remove_at(state.verified@, i as int);
                lemma_distinct_keys_remove_at(state.verified@, i as int);
            }
            state.verified.remove(i);
            let entry = (param.subject, now);
            proof {
                assert(old(state).verified_map().contains_key(param.subject@));
                assert(!old(state).revoked_map().contains_key(param.subject@));
                lemma_map_view_contains(state.revoked_at@, param.subject@);
                assert(!map_view(state.revoked_at@).contains_key(param.subject@));
                lemma_map_view_push(state.revoked_at@, entry);
                assert forall|p: int, q: int|
                    0 <= p < q < state.revoked_at@.push(entry).len() implies state.revoked_at@.push(
                    entry,
                )[p].0@ != state.revoked_at@.push(entry)[q].0@ by {
                    if q < state.revoked_at@.len() {
                        assert(state.revoked_at@.push(entry)[p] == state.revoked_at@[p]);
                        assert(state.revoked_at@.push(entry)[q] == state.revoked_at@[q]);
                    } else {
                        assert(state.revoked_at@.push(entry)[q] == entry);
                        assert(state.revoked_at@.push(entry)[p] == state.revoked_at@[p]);
                    }
                }
            }
            state.revoked_at.push(entry);
            proof {
                assert forall|k: Seq<u8>|
                    state.verified_map().contains_key(k) implies !state.revoked_map().contains_key(
                    k,
                ) by {
                    assert(old(state).verified_map().contains_key(k));
                    assert(k != param.subject@);
                }
            }
            let mut events: Vec<Event> = Vec::new();
            events.push(Event::Revoked { idp, subject: param.subject, timestamp: now });
            proof {
                assert(events@ =~= seq![
                    (Event::Revoked {
                        idp: caller.account(),
                        subject: param.subject,
                        timestamp: now,
                    }),
                ]);
            }
            Ok(events)
        },
    }
}

/// The event attribution of a nullifier use: the calling account where it
/// is currently verified, else absent. Audit convenience only — it has no
/// effect on any later check, though it does disclose the caller's
/// verified status in the audit stream.
pub open spec fn spec_attribution(caller: Caller, st: State) -> Option<AccountAddress> {
    if caller.is_account() && st.verified_map().contains_key(caller.account()@) {
        Some(caller.account())
    } else {
        None
    }
}

/// Consumes a (domain, nullifier) key, callable by anyone: fails
/// `NullifierUsed` exactly when the key was consumed before, and a
/// consumed key stays consumed forever. The same raw nullifier under
/// another domain is an independent key. One `NullifierUsed` event is due
/// on success, attributed per `spec_attribution`.
pub fn use_nullifier(
    state: &mut State,
    caller: &Caller,
    now: Timestamp,
    param: crate::types::UseNullifierParam,
) -> (r: ContractResult<Vec<Event>>)
    requires
        old(state).wf(),
    ensures
        final(state).wf(),
        old(state).nullifiers_set().subset_of(final(state).nullifiers_set()),
        match r {
            Ok(events) => {
                &&& !old(state).nullifiers_set().contains((param.domain, param.nullifier@))
                &&& final(state).nullifiers_set() == old(state).nullifiers_set().insert(
                    (param.domain, param.nullifier@),
                )
                &&& final(state).admin_account() == old(state).admin_account()
                &&& final(state).idps_set() == old(state).idps_set()
                &&& final(state).verified_map() == old(state).verified_map()
                &&& final(state).revoked_map() == old(state).revoked_map()
                &&& events@ == seq![
                    (Event::NullifierUsed {
                        by: spec_attribution(*caller, *old(state)),
                        nullifier: param.nullifier,
                        domain: param.domain,
                        timestamp: now,
                    }),
                ]
            },
            Err(e) => {
                &&& *final(state) == *old(state)
                &&& old(state).nullifiers_set().contains((param.domain, param.nullifier@))
                &&& e == Error::NullifierUsed
            },
        },
{
    let key = NullifierKey { domain: param.domain, nullifier: param.nullifier };
    proof {
        lemma_set_view_contains(state.used_nullifiers@, key@);
    }
    match find_nullifier(&state.used_nullifiers, &key) {
        Some(_) => Err(Error::NullifierUsed),
        None => {
            proof {
                lemma_set_view_push(state.used_nullifiers@, key);
                assert forall|p: int, q: int|
                    0 <= p < q < state.used_nullifiers@.push(key).len() implies state.used_nullifiers@.push(
                    key,
                )[p]@ != state.used_nullifiers@.push(key)[q]@ by {
                    if q < state.used_nullifiers@.len() {
                        assert(state.used_nullifiers@.push(key)[p] == state.used_nullifiers@[p]);
                        assert(state.used_nullifiers@.push(key)[q] == state.used_nullifiers@[q]);
                    } else {
                        assert(state.used_nullifiers@.push(key)[q] == key);
                        assert(state.used_nullifiers@.push(key)[p] == state.used_nullifiers@[p]);
                    }
                }
            }
            state.used_nullifiers.push(key);
            let by = match caller {
                Caller::Account(a) => {
                    proof {
                        lemma_map_view_contains(state.verified@, a@);
                    }
                    match find_verified(&state.verified, a) {
                        Some(_) => Some(*a),
                        None => None,
                    }
                },
                Caller::Contract => None,
            };
            let mut events: Vec<Event> = Vec::new();
            events.push(
                Event::NullifierUsed {
                    by,
                    nullifier: param.nullifier,
                    domain: param.domain,
                    timestamp: now,
                },
            );
            proof {
                lemma_wf_unchanged_subjects(*old(state), *state);
                assert(events@ =~= seq![
                    (Event::NullifierUsed {
                        by: spec_attribution(*caller, *old(state)),
                        nullifier: param.nullifier,
                        domain: param.domain,
                        timestamp: now,
                    }),
                ]);
            }
            Ok(events)
        },
    }
}

/// Whether the subject currently holds an active commitment. Read-only,
/// callable by anyone.
pub fn is_verified(state: &State, subject: &AccountAddress) -> (r: bool)
    ensures
        r == state.verified_map().contains_key(subject@),
{
    proof {
        lemma_map_view_contains(state.verified@, subject@);
    }
    find_verified(&state.verified, subject).is_some()
}

/// The subject's active commitment, if any. Read-only, callable by
/// anyone: the commitment-to-subject mapping is publicly disclosed by
/// design.
pub fn get_commitment(state: &State, subject: &AccountAddress) -> (r: Option<Commitment>)
    requires
        state.wf(),
    ensures
        match r {
            Some(c) => state.verified_map().contains_key(subject@) && c@ == state.verified_map()[subject@],
            None => !state.verified_map().contains_key(subject@),
        },
{
    proof {
        lemma_map_view_contains(state.verified@, subject@);
    }
    match find_verified(&state.verified, subject) {
        Some(i) => {
            proof {
                lemma_map_view_value(state.verified@, i as int);
            }
            Some(state.verified[i].1)
        },
        None => None,
    }
}

/// Whether the identity is on the IDP roster. Read-only, callable by
/// anyone.
pub fn is_idp(state: &State, identity: &AccountAddress) -> (r: bool)
    ensures
        r == state.idps_set().contains(identity@),
{
    proof {
        lemma_set_view_contains(state.idps@, identity@);
    }
    find_idp(&state.idps, identity).is_some()
}

/// The current admin identity. Read-only, callable by anyone.
pub fn get_admin(state: &State) -> (r: AccountAddress)
    ensures
        r == state.admin_account(),
{
    state.admin
}

/// Whether the (domain, nullifier) key was already consumed. Read-only,
/// callable by anyone.
pub fn nullifier_used(state: &State, param: &crate::types::NullifierUsedParam) -> (r: bool)
    ensures
        r == state.nullifiers_set().contains((param.domain, param.nullifier@)),
{
    let key = NullifierKey { domain: param.domain, nullifier: param.nullifier };
    proof {
        lemma_set_view_contains(state.used_nullifiers@, key@);
    }
    find_nullifier(&state.used_nullifiers, &key).is_some()
}

/// The subject's most recent revocation time, present exactly while the
/// subject has had no new commitment since that revocation. Read-only,
/// callable by anyone.
pub fn get_revoked_at(state: &State, subject: &AccountAddress) -> (r: Option<Timestamp>)
    requires
        state.wf(),
    ensures
        match r {
            Some(t) => state.revoked_map().contains_key(subject@) && t == state.revoked_map()[subject@],
            None => !state.revoked_map().contains_key(subject@),
        },
{
    proof {
        lemma_map_view_contains(state.revoked_at@, subject@);
    }
    match find_revoked(&state.revoked_at, subject) {
        Some(i) => {
            proof {
                lemma_map_view_value(state.revoked_at@, i as int);
            }
            Some(state.revoked_at[i].1)
        },
        None => None,
    }
}

} // verus!
