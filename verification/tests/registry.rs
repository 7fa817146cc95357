use zk_kyc_registry::registry::{
    add_idp, add_idps_batch, get_admin, get_commitment, get_revoked_at, init, is_idp, is_verified,
    nullifier_used, register, remove_idp, remove_idps_batch, revoke, set_admin, use_nullifier,
    State,
};
use zk_kyc_registry::types::{
    AccountAddress, AddIdpParam, AddIdpsBatchParam, Caller, Commitment, Error, Event, InitParams,
    Nullifier, NullifierKey, NullifierUsedParam, RegisterParam, RemoveIdpParam,
    RemoveIdpsBatchParam, RevokeParam, SetAdminParam, UseNullifierParam,
};

fn addr(tag: u8) -> AccountAddress {
    AccountAddress([tag; 32])
}

fn commitment(tag: u8) -> Commitment {
    Commitment([tag; 32])
}

fn nullifier(tag: u8) -> Nullifier {
    Nullifier([tag; 32])
}

/// A registry with admin `addr(0)` and the single IDP `addr(1)`.
fn fresh_registry() -> State {
    init(InitParams { admin: addr(0), idps: vec![addr(1)] })
}

#[test]
fn test_init() {
    let state = fresh_registry();
    assert_eq!(get_admin(&state), addr(0));
    assert!(is_idp(&state, &addr(1)));
    assert!(!is_idp(&state, &addr(0)));
    assert!(!is_idp(&state, &addr(9)));
    assert!(!is_verified(&state, &addr(5)));
    assert_eq!(get_commitment(&state, &addr(5)), None);
    assert_eq!(get_revoked_at(&state, &addr(5)), None);
    assert!(!nullifier_used(&state, &NullifierUsedParam { nullifier: nullifier(7), domain: 1 }));
}

#[test]
fn test_init_deduplicates_roster() {
    let mut state = init(InitParams { admin: addr(0), idps: vec![addr(1), addr(1), addr(2)] });
    assert!(is_idp(&state, &addr(1)));
    assert!(is_idp(&state, &addr(2)));
    let (res, _) = remove_idp(&mut state, &Caller::Account(addr(0)), RemoveIdpParam {
        idp: addr(1),
    })
    .unwrap();
    assert!(res.removed);
    assert!(!is_idp(&state, &addr(1)));
}

#[test]
fn test_nullifier_key_domain_makes_distinct_keys() {
    let n = nullifier(42);
    let key1 = NullifierKey { domain: 1, nullifier: n };
    let key2 = NullifierKey { domain: 2, nullifier: n };
    assert_ne!(key1, key2);
}

#[test]
fn test_register_already_registered() {
    let mut state = fresh_registry();
    let idp = Caller::Account(addr(1));
    let subject = addr(5);
    register(&mut state, &idp, 100, RegisterParam { subject, commitment: commitment(0x01) })
        .unwrap();
    let second = register(&mut state, &idp, 101, RegisterParam {
        subject,
        commitment: commitment(0x02),
    });
    assert_eq!(second, Err(Error::AlreadyRegistered));
    assert!(is_verified(&state, &subject));
    assert_eq!(get_commitment(&state, &subject), Some(commitment(0x01)));
}

#[test]
fn test_register_then_revoke() {
    let mut state = fresh_registry();
    let idp = Caller::Account(addr(1));
    let subject = addr(5);
    register(&mut state, &idp, 100, RegisterParam { subject, commitment: commitment(0x01) })
        .unwrap();
    assert!(is_verified(&state, &subject));
    revoke(&mut state, &idp, 250, RevokeParam { subject }).unwrap();
    assert!(!is_verified(&state, &subject));
    assert_eq!(get_commitment(&state, &subject), None);
    assert_eq!(get_revoked_at(&state, &subject), Some(250));
}

#[test]
fn test_reregistration_clears_revocation() {
    let mut state = fresh_registry();
    let idp = Caller::Account(addr(1));
    let subject = addr(5);
    register(&mut state, &idp, 100, RegisterParam { subject, commitment: commitment(0x01) })
        .unwrap();
    revoke(&mut state, &idp, 250, RevokeParam { subject }).unwrap();
    register(&mut state, &idp, 300, RegisterParam { subject, commitment: commitment(0x02) })
        .unwrap();
    assert_eq!(get_revoked_at(&state, &subject), None);
    assert_eq!(get_commitment(&state, &subject), Some(commitment(0x02)));
}

#[test]
fn test_revoke_not_registered() {
    let mut state = fresh_registry();
    let idp = Caller::Account(addr(1));
    let r = revoke(&mut state, &idp, 100, RevokeParam { subject: addr(5) });
    assert_eq!(r, Err(Error::NotRegistered));
    // The state is untouched.
    assert_eq!(get_admin(&state), addr(0));
    assert!(is_idp(&state, &addr(1)));
    assert!(!is_verified(&state, &addr(5)));
    assert_eq!(get_revoked_at(&state, &addr(5)), None);
}

#[test]
fn test_revoke_registered_then_revoked_subject() {
    let mut state = fresh_registry();
    let idp = Caller::Account(addr(1));
    let subject = addr(5);
    register(&mut state, &idp, 100, RegisterParam { subject, commitment: commitment(0x01) })
        .unwrap();
    revoke(&mut state, &idp, 200, RevokeParam { subject }).unwrap();
    let again = revoke(&mut state, &idp, 300, RevokeParam { subject });
    assert_eq!(again, Err(Error::NotRegistered));
    assert_eq!(get_revoked_at(&state, &subject), Some(200));
}

#[test]
fn test_non_idp_cannot_register_or_revoke() {
    let mut state = fresh_registry();
    let outsider = Caller::Account(addr(9));
    let subject = addr(5);
    let r = register(&mut state, &outsider, 100, RegisterParam {
        subject,
        commitment: commitment(0x01),
    });
    assert_eq!(r, Err(Error::NotIdp));
    assert_eq!(revoke(&mut state, &outsider, 100, RevokeParam { subject }), Err(Error::NotIdp));
    // The admin is not implicitly an IDP.
    let admin = Caller::Account(addr(0));
    let r = register(&mut state, &admin, 100, RegisterParam {
        subject,
        commitment: commitment(0x01),
    });
    assert_eq!(r, Err(Error::NotIdp));
    // A contract caller carries no account identity at all.
    let r = register(&mut state, &Caller::Contract, 100, RegisterParam {
        subject,
        commitment: commitment(0x01),
    });
    assert_eq!(r, Err(Error::NotIdp));
    assert!(!is_verified(&state, &subject));
}

#[test]
fn test_non_admin_cannot_manage_roster() {
    let mut state = fresh_registry();
    // An IDP is not the admin.
    let idp = Caller::Account(addr(1));
    assert_eq!(
        add_idp(&mut state, &idp, AddIdpParam { idp: addr(2) }),
        Err(Error::Unauthorized)
    );
    assert_eq!(
        remove_idp(&mut state, &idp, RemoveIdpParam { idp: addr(1) }),
        Err(Error::Unauthorized)
    );
    assert_eq!(
        set_admin(&mut state, &idp, 100, SetAdminParam { new_admin: addr(1) }),
        Err(Error::Unauthorized)
    );
    assert_eq!(
        add_idps_batch(&mut state, &idp, AddIdpsBatchParam { idps: vec![addr(2)] }),
        Err(Error::Unauthorized)
    );
    assert_eq!(
        remove_idps_batch(&mut state, &idp, RemoveIdpsBatchParam { idps: vec![addr(1)] }),
        Err(Error::Unauthorized)
    );
    assert_eq!(
        set_admin(&mut state, &Caller::Contract, 100, SetAdminParam { new_admin: addr(1) }),
        Err(Error::Unauthorized)
    );
    // Nothing changed.
    assert_eq!(get_admin(&state), addr(0));
    assert!(is_idp(&state, &addr(1)));
    assert!(!is_idp(&state, &addr(2)));
}

#[test]
fn test_add_idp_is_idempotent() {
    let mut state = fresh_registry();
    let admin = Caller::Account(addr(0));
    let events = add_idp(&mut state, &admin, AddIdpParam { idp: addr(1) }).unwrap();
    // Adding a member again still signals the event, as for a fresh member.
    assert_eq!(events, vec![Event::IdpAdded { idp: addr(1) }]);
    assert!(is_idp(&state, &addr(1)));
    let (res, _) = remove_idp(&mut state, &admin, RemoveIdpParam { idp: addr(1) }).unwrap();
    assert!(res.removed);
    // One membership: a single removal empties it.
    assert!(!is_idp(&state, &addr(1)));
}

#[test]
fn test_remove_idp_absent() {
    let mut state = fresh_registry();
    let admin = Caller::Account(addr(0));
    let (res, events) = remove_idp(&mut state, &admin, RemoveIdpParam { idp: addr(9) }).unwrap();
    assert!(!res.removed);
    assert_eq!(events, Vec::<Event>::new());
    assert!(is_idp(&state, &addr(1)));
}

#[test]
fn test_remove_idps_batch_mixed_count() {
    let mut state = init(InitParams { admin: addr(0), idps: vec![addr(1), addr(2)] });
    let admin = Caller::Account(addr(0));
    // Present, absent, duplicate of an already-removed one, present.
    let batch = vec![addr(1), addr(9), addr(1), addr(2)];
    let (res, events) =
        remove_idps_batch(&mut state, &admin, RemoveIdpsBatchParam { idps: batch }).unwrap();
    assert_eq!(res.removed_count, 2);
    assert_eq!(
        events,
        vec![Event::IdpRemoved { idp: addr(1) }, Event::IdpRemoved { idp: addr(2) }]
    );
    assert!(!is_idp(&state, &addr(1)));
    assert!(!is_idp(&state, &addr(2)));
}

#[test]
fn test_add_idps_batch_events_include_duplicates() {
    let mut state = fresh_registry();
    let admin = Caller::Account(addr(0));
    let events =
        add_idps_batch(&mut state, &admin, AddIdpsBatchParam { idps: vec![addr(3), addr(3)] })
            .unwrap();
    assert_eq!(
        events,
        vec![Event::IdpAdded { idp: addr(3) }, Event::IdpAdded { idp: addr(3) }]
    );
    assert!(is_idp(&state, &addr(3)));
}

#[test]
fn test_set_admin_transfers_role() {
    let mut state = fresh_registry();
    let old_admin = Caller::Account(addr(0));
    let events =
        set_admin(&mut state, &old_admin, 400, SetAdminParam { new_admin: addr(7) }).unwrap();
    assert_eq!(
        events,
        vec![Event::AdminChanged { old_admin: addr(0), new_admin: addr(7), timestamp: 400 }]
    );
    assert_eq!(get_admin(&state), addr(7));
    // The old admin has lost the role; the new one holds it.
    assert_eq!(
        add_idp(&mut state, &old_admin, AddIdpParam { idp: addr(2) }),
        Err(Error::Unauthorized)
    );
    add_idp(&mut state, &Caller::Account(addr(7)), AddIdpParam { idp: addr(2) }).unwrap();
    assert!(is_idp(&state, &addr(2)));
}

#[test]
fn test_register_event_contents() {
    let mut state = fresh_registry();
    let events = register(&mut state, &Caller::Account(addr(1)), 123, RegisterParam {
        subject: addr(5),
        commitment: commitment(0x01),
    })
    .unwrap();
    assert_eq!(
        events,
        vec![Event::Registered {
            idp: addr(1),
            subject: addr(5),
            commitment: commitment(0x01),
            timestamp: 123,
        }]
    );
}

#[test]
fn test_revoke_by_other_idp() {
    let mut state = init(InitParams { admin: addr(0), idps: vec![addr(1), addr(2)] });
    let subject = addr(5);
    register(&mut state, &Caller::Account(addr(1)), 100, RegisterParam {
        subject,
        commitment: commitment(0x01),
    })
    .unwrap();
    // Any roster member may revoke, not only the registering IDP.
    let events =
        revoke(&mut state, &Caller::Account(addr(2)), 200, RevokeParam { subject }).unwrap();
    assert_eq!(
        events,
        vec![Event::Revoked { idp: addr(2), subject, timestamp: 200 }]
    );
    assert!(!is_verified(&state, &subject));
}

#[test]
fn test_domain_separation() {
    let mut state = fresh_registry();
    let anyone = Caller::Account(addr(9));
    let n = nullifier(0xAA);
    use_nullifier(&mut state, &anyone, 100, UseNullifierParam { nullifier: n, domain: 1 })
        .unwrap();
    let replay =
        use_nullifier(&mut state, &anyone, 101, UseNullifierParam { nullifier: n, domain: 1 });
    assert_eq!(replay, Err(Error::NullifierUsed));
    // The same raw nullifier under another domain is an independent key.
    use_nullifier(&mut state, &anyone, 102, UseNullifierParam { nullifier: n, domain: 2 })
        .unwrap();
    assert!(nullifier_used(&state, &NullifierUsedParam { nullifier: n, domain: 1 }));
    assert!(nullifier_used(&state, &NullifierUsedParam { nullifier: n, domain: 2 }));
    assert!(!nullifier_used(&state, &NullifierUsedParam { nullifier: n, domain: 3 }));
}

#[test]
fn test_use_nullifier_attribution() {
    let mut state = fresh_registry();
    let subject = addr(5);
    register(&mut state, &Caller::Account(addr(1)), 100, RegisterParam {
        subject,
        commitment: commitment(0x01),
    })
    .unwrap();
    // A verified caller is linked in the event.
    let events = use_nullifier(&mut state, &Caller::Account(subject), 150, UseNullifierParam {
        nullifier: nullifier(0xAA),
        domain: 1,
    })
    .unwrap();
    assert_eq!(
        events,
        vec![Event::NullifierUsed {
            by: Some(subject),
            nullifier: nullifier(0xAA),
            domain: 1,
            timestamp: 150,
        }]
    );
    // An unverified caller is not.
    let events = use_nullifier(&mut state, &Caller::Account(addr(9)), 160, UseNullifierParam {
        nullifier: nullifier(0xBB),
        domain: 1,
    })
    .unwrap();
    assert_eq!(
        events,
        vec![Event::NullifierUsed {
            by: None,
            nullifier: nullifier(0xBB),
            domain: 1,
            timestamp: 160,
        }]
    );
    // A contract caller is never linked.
    let events = use_nullifier(&mut state, &Caller::Contract, 170, UseNullifierParam {
        nullifier: nullifier(0xCC),
        domain: 1,
    })
    .unwrap();
    assert_eq!(
        events,
        vec![Event::NullifierUsed {
            by: None,
            nullifier: nullifier(0xCC),
            domain: 1,
            timestamp: 170,
        }]
    );
}

#[test]
fn test_snapshot_round_trip() {
    let mut state = fresh_registry();
    let idp = Caller::Account(addr(1));
    register(&mut state, &idp, 100, RegisterParam { subject: addr(5), commitment: commitment(1) })
        .unwrap();
    register(&mut state, &idp, 110, RegisterParam { subject: addr(6), commitment: commitment(2) })
        .unwrap();
    revoke(&mut state, &idp, 120, RevokeParam { subject: addr(6) }).unwrap();
    use_nullifier(&mut state, &Caller::Contract, 130, UseNullifierParam {
        nullifier: nullifier(0xAA),
        domain: 1,
    })
    .unwrap();
    let restored = State::from_parts(
        get_admin(&state),
        state.idps_entries().clone(),
        state.verified_entries().clone(),
        state.used_nullifier_entries().clone(),
        state.revoked_entries().clone(),
    );
    assert_eq!(get_admin(&restored), addr(0));
    assert!(is_idp(&restored, &addr(1)));
    assert_eq!(get_commitment(&restored, &addr(5)), Some(commitment(1)));
    assert!(!is_verified(&restored, &addr(6)));
    assert_eq!(get_revoked_at(&restored, &addr(6)), Some(120));
    assert!(nullifier_used(&restored, &NullifierUsedParam { nullifier: nullifier(0xAA), domain: 1 }));
}

#[test]
fn test_end_to_end() {
    // Init with admin A and roster [I1].
    let admin_id = addr(0xA0);
    let idp1 = addr(0x11);
    let mut state = init(InitParams { admin: admin_id, idps: vec![idp1] });
    let subject = addr(0x55);

    // I1 registers subject S with commitment 0x01...
    register(&mut state, &Caller::Account(idp1), 1_000, RegisterParam {
        subject,
        commitment: commitment(0x01),
    })
    .unwrap();
    assert!(is_verified(&state, &subject));

    // I1 revokes S.
    revoke(&mut state, &Caller::Account(idp1), 2_000, RevokeParam { subject }).unwrap();
    assert!(!is_verified(&state, &subject));
    assert_eq!(get_revoked_at(&state, &subject), Some(2_000));

    // Any party consumes nullifier 0xAA... in domain 1; a replay fails;
    // the same value in domain 2 succeeds.
    let n = nullifier(0xAA);
    use_nullifier(&mut state, &Caller::Account(addr(0x99)), 3_000, UseNullifierParam {
        nullifier: n,
        domain: 1,
    })
    .unwrap();
    let replay = use_nullifier(&mut state, &Caller::Account(addr(0x99)), 3_001, UseNullifierParam {
        nullifier: n,
        domain: 1,
    });
    assert_eq!(replay, Err(Error::NullifierUsed));
    use_nullifier(&mut state, &Caller::Account(addr(0x99)), 3_002, UseNullifierParam {
        nullifier: n,
        domain: 2,
    })
    .unwrap();
}
