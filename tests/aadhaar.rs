use aadhaar_ballot::aadhaar::{Config, Error, Event, GenesisConfig, Pallet};
use aadhaar_ballot::dispatch::{DispatchError, EnsureOrigin, Origin};
use aadhaar_ballot::types::{AadhaarId, AccountId, Aadhaar};

const INITIAL_USER_ACCOUNT: AccountId = 1;
const INITIAL_USER_AADHAAR: AadhaarId = *b"1111111111111111";

fn new_test_ext() -> Pallet {
    GenesisConfig { initial_aadhaars: vec![(INITIAL_USER_AADHAAR, INITIAL_USER_ACCOUNT)] }
        .build(Config { register_origin: EnsureOrigin::Signed })
        .unwrap()
}

fn registered(p: &Pallet, account_id: AccountId, aadhaar_id: AadhaarId) -> bool {
    p.aadhaar(&aadhaar_id).is_some()
        && p.get_account_id(&aadhaar_id) == Some(account_id)
        && p.get_aadhaar_id(&account_id) == Some(aadhaar_id)
}

#[test]
fn test_genesis_worked() {
    let p = new_test_ext();
    assert_eq!(p.aadhaar(&INITIAL_USER_AADHAAR).is_some(), true);
    assert_eq!(p.get_account_id(&INITIAL_USER_AADHAAR).is_some(), true);
    assert_eq!(p.does_aadhaar_exists(&INITIAL_USER_ACCOUNT), true);
}

#[test]
fn test_register_aadhaar() {
    let mut p = new_test_ext();
    let new_account_id: AccountId = 2;
    let new_aadhaar_id: AadhaarId = *b"2222222222222222";

    assert!(p
        .register_aadhaar(Origin::Signed(INITIAL_USER_ACCOUNT), new_account_id, new_aadhaar_id)
        .is_ok());

    assert_eq!(p.aadhaar(&new_aadhaar_id).is_some(), true);
    assert_eq!(p.get_account_id(&new_aadhaar_id).is_some(), true);
    assert_eq!(p.does_aadhaar_exists(&new_account_id), true);
}

#[test]
fn test_register_existing_aadhaar_fails() {
    let mut p = new_test_ext();
    let user_account_id: AccountId = 2;
    let user_aadhaar_id: AadhaarId = *b"2222222222222222";

    assert!(p
        .register_aadhaar(Origin::Signed(INITIAL_USER_ACCOUNT), user_account_id, user_aadhaar_id)
        .is_ok());

    assert_eq!(p.aadhaar(&user_aadhaar_id).is_some(), true);
    assert_eq!(p.get_account_id(&user_aadhaar_id).is_some(), true);
    assert_eq!(p.does_aadhaar_exists(&user_account_id), true);

    let new_user_account_id: AccountId = 3;

    assert_eq!(
        p.register_aadhaar(Origin::Signed(INITIAL_USER_ACCOUNT), new_user_account_id, user_aadhaar_id),
        Err(DispatchError::Aadhaar(Error::AadhaarAlreadyExists)),
    );
    assert_eq!(p.does_aadhaar_exists(&new_user_account_id), false);
    assert_eq!(p.get_account_id(&user_aadhaar_id), Some(user_account_id));
}

#[test]
fn test_register_existing_account_id_fails() {
    let mut p = new_test_ext();
    let user_account_id: AccountId = 2;
    let user_aadhaar_id: AadhaarId = *b"2222222222222222";

    assert!(p
        .register_aadhaar(Origin::Signed(INITIAL_USER_ACCOUNT), user_account_id, user_aadhaar_id)
        .is_ok());

    assert_eq!(p.aadhaar(&user_aadhaar_id).is_some(), true);
    assert_eq!(p.get_account_id(&user_aadhaar_id).is_some(), true);
    assert_eq!(p.does_aadhaar_exists(&user_account_id), true);

    let new_user_aadhaar_id: AadhaarId = *b"3333333333333333";

    assert_eq!(
        p.register_aadhaar(Origin::Signed(INITIAL_USER_ACCOUNT), user_account_id, new_user_aadhaar_id),
        Err(DispatchError::Aadhaar(Error::AccountIdRegistered)),
    );
    assert_eq!(p.aadhaar(&new_user_aadhaar_id), None);
    assert_eq!(p.get_aadhaar_id(&user_account_id), Some(user_aadhaar_id));
}

#[test]
fn register_two_distinct_pairs() {
    let mut p = Pallet::new(Config { register_origin: EnsureOrigin::Signed });
    let a: AadhaarId = *b"4444444444444444";
    let b: AadhaarId = *b"5555555555555555";
    assert_eq!(
        p.register_aadhaar(Origin::Signed(9), 4, a),
        Ok(Event::AadhaarRegistered { account_id: 4, aadhaar_id: a }),
    );
    assert_eq!(
        p.register_aadhaar(Origin::Signed(9), 5, b),
        Ok(Event::AadhaarRegistered { account_id: 5, aadhaar_id: b }),
    );
    assert!(registered(&p, 4, a));
    assert!(registered(&p, 5, b));
    assert_eq!(p.aadhaar(&a), Some(Aadhaar { aadhaar_id: a, account_id: 4 }));
}

#[test]
fn token_checked_before_account() {
    let mut p = new_test_ext();
    // both the token and the account are taken: the token is reported
    assert_eq!(
        p.do_register_aadhaar(&INITIAL_USER_ACCOUNT, INITIAL_USER_AADHAAR),
        Err(Error::AadhaarAlreadyExists),
    );
}

#[test]
fn register_refuses_other_origins() {
    let mut p = new_test_ext();
    let id: AadhaarId = *b"2222222222222222";
    assert_eq!(p.register_aadhaar(Origin::Unsigned, 2, id), Err(DispatchError::BadOrigin));
    assert_eq!(p.register_aadhaar(Origin::Root, 2, id), Err(DispatchError::BadOrigin));
    assert_eq!(p.does_aadhaar_exists(&2), false);

    let mut q = Pallet::new(Config { register_origin: EnsureOrigin::SignedBy(7) });
    assert_eq!(q.register_aadhaar(Origin::Signed(8), 2, id), Err(DispatchError::BadOrigin));
    assert!(q.register_aadhaar(Origin::Signed(7), 2, id).is_ok());

    let mut r = Pallet::new(Config { register_origin: EnsureOrigin::Root });
    assert_eq!(r.register_aadhaar(Origin::Signed(7), 2, id), Err(DispatchError::BadOrigin));
    assert!(r.register_aadhaar(Origin::Root, 2, id).is_ok());
}

#[test]
fn genesis_stops_at_duplicate() {
    let id: AadhaarId = *b"1111111111111111";
    let other: AadhaarId = *b"2222222222222222";
    let config = Config { register_origin: EnsureOrigin::Signed };
    let dup_id = GenesisConfig { initial_aadhaars: vec![(id, 1), (id, 2)] }.build(config);
    assert!(matches!(dup_id, Err(Error::AadhaarAlreadyExists)));
    let dup_account = GenesisConfig { initial_aadhaars: vec![(id, 1), (other, 1)] }.build(config);
    assert!(matches!(dup_account, Err(Error::AccountIdRegistered)));
    let ok = GenesisConfig { initial_aadhaars: vec![(id, 1), (other, 2)] }.build(config).unwrap();
    assert!(registered(&ok, 1, id));
    assert!(registered(&ok, 2, other));
}

#[test]
fn lookups_of_unknown_values() {
    let p = new_test_ext();
    assert_eq!(p.get_aadhaar_id(&42), None);
    assert_eq!(p.get_account_id(b"9999999999999999"), None);
    assert_eq!(p.aadhaar(b"9999999999999999"), None);
    assert_eq!(p.does_aadhaar_exists(&42), false);
}

#[test]
fn account_from_public_key() {
    let mut pk = [0u8; 32];
    assert_eq!(Pallet::get_accountid_from_pubkey(&pk), 0);
    pk[0] = 0x01;
    pk[1] = 0x02;
    pk[7] = 0x80;
    pk[8] = 0xff;
    assert_eq!(Pallet::get_accountid_from_pubkey(&pk), 0x8000_0000_0000_0201);
    let all = [0xffu8; 32];
    assert_eq!(Pallet::get_accountid_from_pubkey(&all), u64::MAX);
}
