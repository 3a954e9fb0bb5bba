use aadhaar_ballot::aadhaar::{Config, GenesisConfig};
use aadhaar_ballot::access::{
    CheckAccess, DispatchInfo, InvalidTransaction, TransactionValidityError, ValidTransaction,
};
use aadhaar_ballot::dispatch::EnsureOrigin;

#[test]
fn access_admits_registered_accounts_only() {
    let registry = GenesisConfig { initial_aadhaars: vec![(*b"1111111111111111", 1)] }
        .build(Config { register_origin: EnsureOrigin::Signed })
        .unwrap();
    let check = CheckAccess::new();
    let info = DispatchInfo { weight: 12_345 };
    let admitted = ValidTransaction { priority: 12_345, longevity: u64::MAX, propagate: true };
    assert_eq!(check.validate(&registry, &1, &info), Ok(admitted));
    // the same snapshot gives the same answer
    assert_eq!(check.validate(&registry, &1, &info), Ok(admitted));
    let refused = TransactionValidityError::Invalid(InvalidTransaction::Custom(0));
    assert_eq!(check.validate(&registry, &2, &info), Err(refused));
    assert_eq!(check.pre_dispatch(&registry, &1, &info), Ok(()));
    assert_eq!(check.pre_dispatch(&registry, &2, &info), Err(refused));
}
