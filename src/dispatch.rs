//! Origins of calls, the rules that admit them, and the errors a call ends with.
use vstd::prelude::*;
use crate::types::AccountId;

verus! {

/// Who a call comes from.
#[derive(Clone, Copy, PartialEq, Eq, Debug, Structural)]
pub enum Origin {
    /// The ledger itself.
    Root,
    /// An account that signed the call.
    Signed(AccountId),
    /// Nobody in particular.
    Unsigned,
}

/// A rule on the origins that a call accepts.
#[derive(Clone, Copy, PartialEq, Eq, Debug, Structural)]
pub enum EnsureOrigin {
    /// Only the ledger itself.
    Root,
    /// Any signed origin.
    Signed,
    /// Only the given account.
    SignedBy(AccountId),
}

impl EnsureOrigin {
    pub open spec fn admits(self, origin: Origin) -> bool {
        match self {
            EnsureOrigin::Root => origin == Origin::Root,
            EnsureOrigin::Signed => origin is Signed,
            EnsureOrigin::SignedBy(a) => origin == Origin::Signed(a),
        }
    }

    /// Checks that the rule admits `origin`.
    pub fn ensure_origin(&self, origin: &Origin) -> (r: Result<(), DispatchError>)
        ensures
            r == (if self.admits(*origin) {
                Ok(())
            } else {
                Err(DispatchError::BadOrigin)
            }),
    {
        let ok = match (*self, *origin) {
            (EnsureOrigin::Root, Origin::Root) => true,
            (EnsureOrigin::Signed, Origin::Signed(_)) => true,
            (EnsureOrigin::SignedBy(a), Origin::Signed(b)) => a == b,
            _ => false,
        };
        if ok {
            Ok(())
        } else {
            Err(DispatchError::BadOrigin)
        }
    }

    /// Checks that the rule admits `origin` and that it is signed; returns
    /// the signing account.
    pub fn ensure_account(&self, origin: &Origin) -> (r: Result<AccountId, DispatchError>)
        ensures
            r == (match *origin {
                Origin::Signed(a) if self.admits(*origin) => Ok(a),
                _ => Err(DispatchError::BadOrigin),
            }),
    {
        match self.ensure_origin(origin) {
            Ok(()) => ensure_signed(origin),
            Err(e) => Err(e),
        }
    }
}

/// Returns the account that signed `origin`.
pub fn ensure_signed(origin: &Origin) -> (r: Result<AccountId, DispatchError>)
    ensures
        r == (match *origin {
            Origin::Signed(a) => Ok(a),
            _ => Err(DispatchError::BadOrigin),
        }),
{
    match *origin {
        Origin::Signed(a) => Ok(a),
        _ => Err(DispatchError::BadOrigin),
    }
}

/// Why a call failed.
#[derive(Clone, Copy, PartialEq, Eq, Debug)]
pub enum DispatchError {
    /// The origin is not one the call accepts.
    BadOrigin,
    /// An error of the identity registry.
    Aadhaar(crate::aadhaar::Error),
    /// An error of the ballot.
    Ballot(crate::ballot::Error),
}

} // verus!
