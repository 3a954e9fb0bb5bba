//! The identity registry: a bijection between identity tokens and accounts.
use vstd::prelude::*;
use crate::dispatch::{DispatchError, EnsureOrigin, Origin};
use crate::storage::StorageMap;
use crate::types::{AadhaarId, AccountId, Aadhaar, PublicKey};

verus! {

/// Why a registration failed.
#[derive(Clone, Copy, PartialEq, Eq, Debug, Structural)]
pub enum Error {
    /// The identity token is already registered
    AadhaarAlreadyExists,
    /// The account is already linked to an identity token
    AccountIdRegistered,
}

/// What a successful registration reports.
#[derive(Clone, Copy, PartialEq, Eq, Debug)]
pub enum Event {
    /// A new identity was registered
    AadhaarRegistered { account_id: AccountId, aadhaar_id: AadhaarId },
}

/// The registry's settings.
#[derive(Clone, Copy, PartialEq, Eq, Debug)]
pub struct Config {
    /// The origins that may register identities.
    pub register_origin: EnsureOrigin,
}

/// Identities to register when the registry is created.
pub struct GenesisConfig {
    pub initial_aadhaars: Vec<(AadhaarId, AccountId)>,
}

/// One registration on the two indices: the error it ends with, or the
/// indices after it. The token is checked before the account.
pub open spec fn register_step(
    by_id: Map<AadhaarId, AccountId>,
    by_account: Map<AccountId, AadhaarId>,
    account_id: AccountId,
    aadhaar_id: AadhaarId,
) -> Result<(Map<AadhaarId, AccountId>, Map<AccountId, AadhaarId>), Error> {
    if by_id.contains_key(aadhaar_id) {
        Err(Error::AadhaarAlreadyExists)
    } else if by_account.contains_key(account_id) {
        Err(Error::AccountIdRegistered)
    } else {
        Ok((by_id.insert(aadhaar_id, account_id), by_account.insert(account_id, aadhaar_id)))
    }
}

/// The registrations of `pairs`, one after the other, stopping at the first
/// error.
pub open spec fn register_all(
    by_id: Map<AadhaarId, AccountId>,
    by_account: Map<AccountId, AadhaarId>,
    pairs: Seq<(AadhaarId, AccountId)>,
) -> Result<(Map<AadhaarId, AccountId>, Map<AccountId, AadhaarId>), Error>
    decreases pairs.len(),
{
    if pairs.len() == 0 {
        Ok((by_id, by_account))
    } else {
        match register_all(by_id, by_account, pairs.drop_last()) {
            Ok((f, r)) => register_step(f, r, pairs.last().1, pairs.last().0),
            Err(e) => Err(e),
        }
    }
}

/// Once a prefix of `pairs` fails, every longer prefix fails the same way.
proof fn lemma_register_all_error_persists(
    by_id: Map<AadhaarId, AccountId>,
    by_account: Map<AccountId, AadhaarId>,
    pairs: Seq<(AadhaarId, AccountId)>,
    i: int,
    k: int,
)
    requires
        0 <= i <= k <= pairs.len(),
        register_all(by_id, by_account, pairs.take(i)) is Err,
    ensures
        register_all(by_id, by_account, pairs.take(k)) == register_all(
            by_id,
            by_account,
            pairs.take(i),
        ),
    decreases k - i,
{
    if k > i {
        lemma_register_all_error_persists(by_id, by_account, pairs, i, k - 1);
        assert(pairs.take(k).drop_last() =~= pairs.take(k - 1));
    }
}

/// Two registrations in a row, of distinct tokens that are not registered
/// yet to distinct accounts that have none, both succeed; afterwards each
/// token leads to its account and each account back to its token.
pub proof fn lemma_register_two_distinct(
    by_id: Map<AadhaarId, AccountId>,
    by_account: Map<AccountId, AadhaarId>,
    a1: AccountId,
    i1: AadhaarId,
    a2: AccountId,
    i2: AadhaarId,
)
    requires
        a1 != a2,
        i1 != i2,
        !by_id.contains_key(i1),
        !by_id.contains_key(i2),
        !by_account.contains_key(a1),
        !by_account.contains_key(a2),
    ensures
        register_step(by_id, by_account, a1, i1) is Ok,
        match register_step(by_id, by_account, a1, i1) {
            Ok((f1, b1)) => match register_step(f1, b1, a2, i2) {
                Ok((f2, b2)) => {
                    &&& f2.contains_key(i1) && f2[i1] == a1
                    &&& f2.contains_key(i2) && f2[i2] == a2
                    &&& b2.contains_key(a1) && b2[a1] == i1
                    &&& b2.contains_key(a2) && b2[a2] == i2
                },
                Err(_) => false,
            },
            Err(_) => false,
        },
{
}

/// After `account_id` registered `aadhaar_id`, registering the same token
/// again fails with `AadhaarAlreadyExists`, whatever the account; and
/// registering an unused token to the same account fails with
/// `AccountIdRegistered`.
pub proof fn lemma_register_repeated(
    by_id: Map<AadhaarId, AccountId>,
    by_account: Map<AccountId, AadhaarId>,
    account_id: AccountId,
    aadhaar_id: AadhaarId,
    other_account: AccountId,
    other_id: AadhaarId,
)
    requires
        register_step(by_id, by_account, account_id, aadhaar_id) is Ok,
        other_id != aadhaar_id,
        !by_id.contains_key(other_id),
    ensures
        match register_step(by_id, by_account, account_id, aadhaar_id) {
            Ok((f, b)) => {
                &&& register_step(f, b, other_account, aadhaar_id) == Err::<
                    (Map<AadhaarId, AccountId>, Map<AccountId, AadhaarId>),
                    Error,
                >(Error::AadhaarAlreadyExists)
                &&& register_step(f, b, account_id, other_id) == Err::<
                    (Map<AadhaarId, AccountId>, Map<AccountId, AadhaarId>),
                    Error,
                >(Error::AccountIdRegistered)
            },
            Err(_) => false,
        },
{
}

/// The number that `bytes` stand for, least significant byte first.
pub open spec fn le_value(bytes: Seq<u8>) -> nat
    decreases bytes.len(),
{
    if bytes.len() == 0 {
        0
    } else {
        (bytes[0] + 256 * le_value(bytes.drop_first())) as nat
    }
}

pub open spec fn pow256(n: nat) -> nat
    decreases n,
{
    if n == 0 {
        1
    } else {
        256 * pow256((n - 1) as nat)
    }
}

proof fn lemma_pow256_eight()
    ensures
        pow256(8) == 0x1_0000_0000_0000_0000nat,
{
    assert(pow256(0) == 1);
    assert(pow256(1) == 0x100);
    assert(pow256(2) == 0x1_0000);
    assert(pow256(3) == 0x100_0000);
    assert(pow256(4) == 0x1_0000_0000);
    assert(pow256(5) == 0x100_0000_0000);
    assert(pow256(6) == 0x1_0000_0000_0000);
    assert(pow256(7) == 0x100_0000_0000_0000);
}

proof fn lemma_pow256_grows(a: nat, b: nat)
    requires
        a <= b,
    ensures
        pow256(a) <= pow256(b),
    decreases b - a,
{
    if a < b {
        lemma_pow256_grows(a, (b - 1) as nat);
        assert(pow256(b) == 256 * pow256((b - 1) as nat));
    }
}

/// The identity registry.
pub struct Pallet {
    config: Config,
    /// Records by identity token.
    aadhaars: StorageMap<AadhaarId, Aadhaar>,
    /// Account by identity token.
    lookup: StorageMap<AadhaarId, AccountId>,
    /// Identity token by account.
    rlookup: StorageMap<AccountId, AadhaarId>,
}

impl Pallet {
    /// Account by identity token.
    pub closed spec fn by_id(&self) -> Map<AadhaarId, AccountId> {
        self.lookup@
    }

    /// Identity token by account.
    pub closed spec fn by_account(&self) -> Map<AccountId, AadhaarId> {
        self.rlookup@
    }

    pub closed spec fn register_origin(&self) -> EnsureOrigin {
        self.config.register_origin
    }

    /// The two indices are inverse to each other and the records agree
    /// with them.
    pub closed spec fn wf(&self) -> bool {
        &&& self.aadhaars.wf()
        &&& self.lookup.wf()
        &&& self.rlookup.wf()
        &&& forall|id: AadhaarId|
            #![trigger self.lookup@.contains_key(id)]
            #![trigger self.aadhaars@.contains_key(id)]
            self.lookup@.contains_key(id) <==> self.aadhaars@.contains_key(id)
        &&& forall|id: AadhaarId|
            #![trigger self.lookup@.contains_key(id)]
            self.lookup@.contains_key(id) ==> {
                &&& self.aadhaars@[id] == Aadhaar { aadhaar_id: id, account_id: self.lookup@[id] }
                &&& self.rlookup@.contains_key(self.lookup@[id])
                &&& self.rlookup@[self.lookup@[id]] == id
            }
        &&& forall|a: AccountId|
            #![trigger self.rlookup@.contains_key(a)]
            self.rlookup@.contains_key(a) ==> {
                &&& self.lookup@.contains_key(self.rlookup@[a])
                &&& self.lookup@[self.rlookup@[a]] == a
            }
    }

    /// An empty registry.
    pub fn new(config: Config) -> (r: Pallet)
        ensures
            r.wf(),
            r.by_id() == Map::<AadhaarId, AccountId>::empty(),
            r.by_account() == Map::<AccountId, AadhaarId>::empty(),
            r.register_origin() == config.register_origin,
    {
        Pallet {
            config,
            aadhaars: StorageMap::new(),
            lookup: StorageMap::new(),
            rlookup: StorageMap::new(),
        }
    }

    /// The account of an sr25519 public key: its first eight bytes read as a
    /// little-endian number, the encoding of an account.
    pub fn get_accountid_from_pubkey(pk: &PublicKey) -> (r: AccountId)
        ensures
            r == le_value(pk@.take(8)),
    {
        let mut acc: u64 = 0;
        let mut i: usize = 8;
        while i > 0
            invariant
                i <= 8,
                acc == le_value(pk@.subrange(i as int, 8)),
                acc < pow256((8 - i) as nat),
            decreases i,
        {
            let ghost before = acc;
            i = i - 1;
            let b = pk[i];
            proof {
                assert(pk@.subrange(i as int, 8).drop_first() =~= pk@.subrange(i + 1, 8));
                assert(pow256((8 - i) as nat) == 256 * pow256((8 - i - 1) as nat));
                lemma_pow256_eight();
                assert(pow256((8 - i) as nat) <= pow256(8)) by {
                    lemma_pow256_grows((8 - i) as nat, 8);
                }
                assert(before * 256 + b < 256 * pow256((8 - i - 1) as nat)) by (nonlinear_arith)
                    requires
                        before < pow256((8 - i - 1) as nat),
                        b < 256,
                ;
            }
            acc = acc * 256 + b as u64;
        }
        proof {
            assert(pk@.subrange(0, 8) =~= pk@.take(8));
        }
        acc
    }

    /// Links `aadhaar_id` to `account_id`, unless the token or the account
    /// is taken already; nothing is written on an error.
    pub fn do_register_aadhaar(&mut self, account_id: &AccountId, aadhaar_id: AadhaarId) -> (r:
        Result<(), Error>)
        requires
            old(self).wf(),
        ensures
            final(self).wf(),
            final(self).register_origin() == old(self).register_origin(),
            match register_step(old(self).by_id(), old(self).by_account(), *account_id, aadhaar_id) {
                Ok((f, b)) => r == Ok::<(), Error>(()) && final(self).by_id() == f
                    && final(self).by_account() == b,
                Err(e) => r == Err::<(), Error>(e) && *final(self) == *old(self),
            },
    {
        if self.lookup.contains_key(&aadhaar_id) {
            return Err(Error::AadhaarAlreadyExists);
        }
        if self.rlookup.contains_key(account_id) {
            return Err(Error::AccountIdRegistered);
        }
        self.aadhaars.insert(aadhaar_id, Aadhaar { aadhaar_id, account_id: *account_id });
        self.lookup.insert(aadhaar_id, *account_id);
        self.rlookup.insert(*account_id, aadhaar_id);
        Ok(())
    }

    /// Registers an identity on behalf of `origin`, which the registry's
    /// settings must admit.
    pub fn register_aadhaar(&mut self, origin: Origin, account_id: AccountId, aadhaar_id: AadhaarId)
        -> (r: Result<Event, DispatchError>)
        requires
            old(self).wf(),
        ensures
            final(self).wf(),
            final(self).register_origin() == old(self).register_origin(),
            !old(self).register_origin().admits(origin) ==> r == Err::<Event, DispatchError>(
                DispatchError::BadOrigin,
            ) && *final(self) == *old(self),
            old(self).register_origin().admits(origin) ==> match register_step(
                old(self).by_id(),
                old(self).by_account(),
                account_id,
                aadhaar_id,
            ) {
                Ok((f, b)) => r == Ok::<Event, DispatchError>(
                    Event::AadhaarRegistered { account_id, aadhaar_id },
                ) && final(self).by_id() == f && final(self).by_account() == b,
                Err(e) => r == Err::<Event, DispatchError>(DispatchError::Aadhaar(e))
                    && *final(self) == *old(self),
            },
    {
        match self.config.register_origin.ensure_origin(&origin) {
            Ok(()) => {},
            Err(e) => {
                return Err(e);
            },
        }
        match self.do_register_aadhaar(&account_id, aadhaar_id) {
            Ok(()) => Ok(Event::AadhaarRegistered { account_id, aadhaar_id }),
            Err(e) => Err(DispatchError::Aadhaar(e)),
        }
    }

    /// Registers `aadhaars` in order; stops at the first pair that cannot be
    /// registered, and then holds the registrations of the pairs before it.
    pub fn initialize_aadhaars(&mut self, aadhaars: &Vec<(AadhaarId, AccountId)>) -> (r: Result<
        (),
        Error,
    >)
        requires
            old(self).wf(),
        ensures
            final(self).wf(),
            final(self).register_origin() == old(self).register_origin(),
            match register_all(old(self).by_id(), old(self).by_account(), aadhaars@) {
                Ok((f, b)) => r == Ok::<(), Error>(()) && final(self).by_id() == f
                    && final(self).by_account() == b,
                Err(e) => r == Err::<(), Error>(e),
            },
            r is Err ==> exists|j: int|
                0 <= j < aadhaars@.len() && #[trigger] register_all(
                    old(self).by_id(),
                    old(self).by_account(),
                    aadhaars@.take(j),
                ) == Ok::<(Map<AadhaarId, AccountId>, Map<AccountId, AadhaarId>), Error>(
                    (final(self).by_id(), final(self).by_account()),
                ) && register_step(
                    final(self).by_id(),
                    final(self).by_account(),
                    aadhaars@[j].1,
                    aadhaars@[j].0,
                ) is Err,
    {
        let ghost f0 = self.by_id();
        let ghost b0 = self.by_account();
        let mut i: usize = 0;
        proof {
            assert(aadhaars@.take(0) =~= Seq::<(AadhaarId, AccountId)>::empty());
        }
        while i < aadhaars.len()
            invariant
                self.wf(),
                self.register_origin() == old(self).register_origin(),
                f0 == old(self).by_id(),
                b0 == old(self).by_account(),
                i <= aadhaars@.len(),
                register_all(f0, b0, aadhaars@.take(i as int)) == Ok::<
                    (Map<AadhaarId, AccountId>, Map<AccountId, AadhaarId>),
                    Error,
                >((self.by_id(), self.by_account())),
            decreases aadhaars@.len() - i,
        {
            let (aadhaar_id, account_id) = aadhaars[i];
            proof {
                assert(aadhaars@.take(i + 1).drop_last() =~= aadhaars@.take(i as int));
            }
            match self.do_register_aadhaar(&account_id, aadhaar_id) {
                Ok(()) => {},
                Err(e) => {
                    proof {
                        lemma_register_all_error_persists(
                            f0,
                            b0,
                            aadhaars@,
                            i + 1,
                            aadhaars@.len() as int,
                        );
                        assert(aadhaars@.take(aadhaars@.len() as int) =~= aadhaars@);
                        assert(register_all(f0, b0, aadhaars@.take(i as int)) == Ok::<
                            (Map<AadhaarId, AccountId>, Map<AccountId, AadhaarId>),
                            Error,
                        >((self.by_id(), self.by_account())));
                    }
                    return Err(e);
                },
            }
            i = i + 1;
        }
        proof {
            assert(aadhaars@.take(aadhaars@.len() as int) =~= aadhaars@);
        }
        Ok(())
    }

    /// Whether `account_id` has a registered identity.
    pub fn does_aadhaar_exists(&self, account_id: &AccountId) -> (r: bool)
        requires
            self.wf(),
        ensures
            r == self.by_account().contains_key(*account_id),
    {
        match self.get_aadhaar_id(account_id) {
            Some(_) => true,
            None => false,
        }
    }

    /// The identity token of `account_id`, if it has one.
    pub fn get_aadhaar_id(&self, account_id: &AccountId) -> (r: Option<AadhaarId>)
        requires
            self.wf(),
        ensures
            r == (if self.by_account().contains_key(*account_id) {
                Some(self.by_account()[*account_id])
            } else {
                None
            }),
    {
        self.rlookup.get(account_id)
    }

    /// The account linked to `aadhaar_id`, if there is one.
    pub fn get_account_id(&self, aadhaar_id: &AadhaarId) -> (r: Option<AccountId>)
        requires
            self.wf(),
        ensures
            r == (if self.by_id().contains_key(*aadhaar_id) {
                Some(self.by_id()[*aadhaar_id])
            } else {
                None
            }),
    {
        self.lookup.get(aadhaar_id)
    }

    /// The record of `aadhaar_id`, if it is registered.
    pub fn aadhaar(&self, aadhaar_id: &AadhaarId) -> (r: Option<Aadhaar>)
        requires
            self.wf(),
        ensures
            r == (if self.by_id().contains_key(*aadhaar_id) {
                Some(Aadhaar { aadhaar_id: *aadhaar_id, account_id: self.by_id()[*aadhaar_id] })
            } else {
                None
            }),
    {
        self.aadhaars.get(aadhaar_id)
    }
}

/// The registry's two indices are inverse to each other: a token leads to an
/// account exactly when that account leads back to the token.
pub proof fn lemma_bijection(p: &Pallet)
    requires
        p.wf(),
    ensures
        forall|i: AadhaarId, a: AccountId|
            (#[trigger] p.by_id().contains_key(i) && p.by_id()[i] == a) <==> (
            #[trigger] p.by_account().contains_key(a) && p.by_account()[a] == i),
{
}

impl GenesisConfig {
    /// A registry holding the initial identities, registered in order.
    pub fn build(&self, config: Config) -> (r: Result<Pallet, Error>)
        ensures
            match register_all(
                Map::<AadhaarId, AccountId>::empty(),
                Map::<AccountId, AadhaarId>::empty(),
                self.initial_aadhaars@,
            ) {
                Ok((f, b)) => match r {
                    Ok(p) => p.wf() && p.by_id() == f && p.by_account() == b && p.register_origin()
                        == config.register_origin,
                    Err(_) => false,
                },
                Err(e) => r == Err::<Pallet, Error>(e),
            },
    {
        let mut pallet = Pallet::new(config);
        match pallet.initialize_aadhaars(&self.initial_aadhaars) {
            Ok(()) => Ok(pallet),
            Err(e) => Err(e),
        }
    }
}

} // verus!
