//! Admission control: before a call is dispatched, its signer must have a
//! registered identity, whatever the call is.
use vstd::prelude::*;
use crate::aadhaar;
use crate::types::{AadhaarId, AccountId};

verus! {

pub type TransactionPriority = u64;

pub type TransactionLongevity = u64;

/// The code with which a call from an account without identity is refused.
pub const NO_IDENTITY_CODE: u8 = 0;

/// What admission control knows of a call: its declared cost.
#[derive(Clone, Copy, PartialEq, Eq, Debug)]
pub struct DispatchInfo {
    pub weight: u64,
}

/// An admitted call: how it is ranked, for how long it stays valid, and
/// whether it is passed on to other nodes.
#[derive(Clone, Copy, PartialEq, Eq, Debug)]
pub struct ValidTransaction {
    pub priority: TransactionPriority,
    pub longevity: TransactionLongevity,
    pub propagate: bool,
}

/// Why a call cannot be included.
#[derive(Clone, Copy, PartialEq, Eq, Debug)]
pub enum InvalidTransaction {
    /// A refusal with a code of this crate's own.
    Custom(u8),
}

/// Why a call was refused.
#[derive(Clone, Copy, PartialEq, Eq, Debug)]
pub enum TransactionValidityError {
    Invalid(InvalidTransaction),
}

pub type TransactionValidity = Result<ValidTransaction, TransactionValidityError>;

/// The admission answer for a call signed by `who`: admitted, ranked by its
/// cost and valid for ever, when `who` has an identity; refused with
/// [`NO_IDENTITY_CODE`] otherwise.
pub open spec fn admission(
    by_account: Map<AccountId, AadhaarId>,
    who: AccountId,
    info: DispatchInfo,
) -> TransactionValidity {
    if by_account.contains_key(who) {
        Ok(
            ValidTransaction {
                priority: info.weight,
                longevity: u64::MAX,
                propagate: true,
            },
        )
    } else {
        Err(TransactionValidityError::Invalid(InvalidTransaction::Custom(NO_IDENTITY_CODE)))
    }
}

/// Admits a call only when its signer has a registered identity. The check
/// reads the registry and changes nothing.
#[derive(Clone, Copy, PartialEq, Eq, Debug)]
pub struct CheckAccess {}

impl CheckAccess {
    pub fn new() -> (r: CheckAccess) {
        CheckAccess {  }
    }

    /// The admission answer for a call signed by `who`.
    pub fn validate(&self, registry: &aadhaar::Pallet, who: &AccountId, info: &DispatchInfo) -> (r:
        TransactionValidity)
        requires
            registry.wf(),
        ensures
            r == admission(registry.by_account(), *who, *info),
    {
        if registry.does_aadhaar_exists(who) {
            Ok(
                ValidTransaction {
                    priority: info.weight as TransactionPriority,
                    longevity: TransactionLongevity::MAX,
                    propagate: true,
                },
            )
        } else {
            Err(TransactionValidityError::Invalid(InvalidTransaction::Custom(NO_IDENTITY_CODE)))
        }
    }

    /// The check made right before dispatch: the same answer as
    /// [`CheckAccess::validate`], without the ranking.
    pub fn pre_dispatch(self, registry: &aadhaar::Pallet, who: &AccountId, info: &DispatchInfo) -> (r:
        Result<(), TransactionValidityError>)
        requires
            registry.wf(),
        ensures
            r == (match admission(registry.by_account(), *who, *info) {
                Ok(_) => Ok(()),
                Err(e) => Err(e),
            }),
    {
        match self.validate(registry, who, info) {
            Ok(_) => Ok(()),
            Err(e) => Err(e),
        }
    }
}

} // verus!
