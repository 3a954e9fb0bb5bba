//! Voting sessions: their states, candidates and votes.
use vstd::prelude::*;
use crate::aadhaar;
use crate::dispatch::{DispatchError, EnsureOrigin, Origin};
use crate::storage::StorageMap;
use crate::types::{AadhaarId, AccountId, Candidate, VoteIndex, VoteState};

verus! {

/// How many candidate entries, and how many vote entries, one reset
/// removes at most.
pub const RESET_LIMIT: u32 = 20;

/// Why a ballot call failed.
#[derive(Clone, Copy, PartialEq, Eq, Debug, Structural)]
pub enum Error {
    /// No candidate of that identity in that session
    VoteSessionNotFound,
    /// The voter has already voted in that session
    VoteAlreadyCast,
    /// The session is not in the voting state
    VotingNotActive,
    /// The calling account has no registered identity
    MissingIdentity,
    /// The candidate's vote count is at its largest value
    VoteCountOverflow,
    /// Every session number has been handed out
    VoteIndexExhausted,
}

/// What a successful ballot call reports.
#[derive(PartialEq, Eq, Debug)]
pub enum Event {
    /// Voting started by the given identity
    VotingStarted { aadhaar_id: AadhaarId, vote_index: VoteIndex },
    /// Voting stopped by the given identity
    VotingStopped { aadhaar_id: AadhaarId, vote_index: VoteIndex },
    /// Session reset by the given identity; `complete` tells whether no
    /// candidate or vote of the session is left
    VotingReset { aadhaar_id: AadhaarId, vote_index: VoteIndex, complete: bool },
    /// Candidates added to a session
    AddedCandidates { vote_index: VoteIndex, candidates: Vec<AccountId> },
    /// A vote was cast
    Voted { vote_index: VoteIndex, candidate: AadhaarId },
}

/// The ballot's settings.
#[derive(Clone, Copy, PartialEq, Eq, Debug)]
pub struct Config {
    /// The origins that may manage voting sessions.
    pub election_commission_origin: EnsureOrigin,
}

/// The session number the first session gets.
#[allow(non_snake_case)]
pub fn VoteIndexDefault() -> (r: VoteIndex)
    ensures
        r == 0,
{
    0
}

/// The state of a session that was never touched.
#[allow(non_snake_case)]
pub fn StateDefault() -> (r: VoteState)
    ensures
        r == VoteState::Idle,
{
    VoteState::Idle
}

/// What the ballot holds, as mathematical values.
pub struct BallotModel {
    pub election_commission_origin: EnsureOrigin,
    /// The number the next session gets.
    pub vote_index: VoteIndex,
    /// Session states; a session not in the map is idle.
    pub states: Map<VoteIndex, VoteState>,
    /// The identity that opened each session.
    pub chiefs: Map<VoteIndex, AadhaarId>,
    /// Candidates by session and identity.
    pub candidates: Map<(VoteIndex, AadhaarId), Candidate>,
    /// Votes cast, by session and voter identity.
    pub votes: Map<(VoteIndex, AadhaarId), bool>,
}

pub open spec fn state_of(m: BallotModel, vote_index: VoteIndex) -> VoteState {
    if m.states.contains_key(vote_index) {
        m.states[vote_index]
    } else {
        VoteState::Idle
    }
}

/// Opening a session: the caller's identity and the session's number, and
/// the ballot after it. Once the largest number has been handed out, no
/// session can be opened any more, so no number is handed out twice.
pub open spec fn start_voting_spec(
    m: BallotModel,
    by_account: Map<AccountId, AadhaarId>,
    account_id: AccountId,
) -> Result<((AadhaarId, VoteIndex), BallotModel), Error> {
    if !by_account.contains_key(account_id) {
        Err(Error::MissingIdentity)
    } else if m.vote_index == u32::MAX {
        Err(Error::VoteIndexExhausted)
    } else {
        let id = by_account[account_id];
        Ok(
            (
                (id, m.vote_index),
                BallotModel {
                    vote_index: (m.vote_index + 1) as VoteIndex,
                    states: m.states.insert(m.vote_index, VoteState::Voting),
                    chiefs: m.chiefs.insert(m.vote_index, id),
                    ..m
                },
            ),
        )
    }
}

/// Closing a session that is in the voting state.
pub open spec fn stop_voting_spec(
    m: BallotModel,
    by_account: Map<AccountId, AadhaarId>,
    account_id: AccountId,
    vote_index: VoteIndex,
) -> Result<((AadhaarId, VoteIndex), BallotModel), Error> {
    if state_of(m, vote_index) != VoteState::Voting {
        Err(Error::VotingNotActive)
    } else if !by_account.contains_key(account_id) {
        Err(Error::MissingIdentity)
    } else {
        Ok(
            (
                (by_account[account_id], vote_index),
                BallotModel { states: m.states.insert(vote_index, VoteState::Ended), ..m },
            ),
        )
    }
}

/// `after` is `before` less at most `limit` keys of session `vote_index`;
/// fewer than `limit` are removed only when none of that session is left.
pub open spec fn cleared_within<V>(
    before: Map<(VoteIndex, AadhaarId), V>,
    after: Map<(VoteIndex, AadhaarId), V>,
    vote_index: VoteIndex,
    limit: nat,
) -> bool {
    &&& before.dom().finite()
    &&& after.submap_of(before)
    &&& forall|k: (VoteIndex, AadhaarId)|
        #![trigger before.contains_key(k)]
        before.contains_key(k) && k.0 != vote_index ==> after.contains_key(k)
    &&& before.dom().difference(after.dom()).len() <= limit
    &&& before.dom().difference(after.dom()).len() < limit ==> forall|k: (VoteIndex, AadhaarId)|
        #[trigger] after.contains_key(k) ==> k.0 != vote_index
}

/// No key of session `vote_index` is in `m`.
pub open spec fn session_empty<V>(m: Map<(VoteIndex, AadhaarId), V>, vote_index: VoteIndex) -> bool {
    forall|k: (VoteIndex, AadhaarId)| #[trigger] m.contains_key(k) ==> k.0 != vote_index
}

/// A reset of session `vote_index` took `m` to `next`, and `complete` tells
/// whether it left no candidate or vote of the session.
pub open spec fn reset_voting_post(
    m: BallotModel,
    next: BallotModel,
    vote_index: VoteIndex,
    complete: bool,
) -> bool {
    &&& next.election_commission_origin == m.election_commission_origin
    &&& next.vote_index == m.vote_index
    &&& next.states == m.states.insert(vote_index, VoteState::Idle)
    &&& next.chiefs == m.chiefs.remove(vote_index)
    &&& cleared_within(m.candidates, next.candidates, vote_index, RESET_LIMIT as nat)
    &&& cleared_within(m.votes, next.votes, vote_index, RESET_LIMIT as nat)
    &&& complete == (session_empty(next.candidates, vote_index) && session_empty(
        next.votes,
        vote_index,
    ))
}

/// The candidates after adding `accounts` to session `vote_index` in order:
/// each registered account's identity gets an entry with no votes, and
/// accounts without an identity are passed over.
pub open spec fn add_candidates_spec(
    candidates: Map<(VoteIndex, AadhaarId), Candidate>,
    by_account: Map<AccountId, AadhaarId>,
    vote_index: VoteIndex,
    accounts: Seq<AccountId>,
) -> Map<(VoteIndex, AadhaarId), Candidate>
    decreases accounts.len(),
{
    if accounts.len() == 0 {
        candidates
    } else {
        let before = add_candidates_spec(candidates, by_account, vote_index, accounts.drop_last());
        let a = accounts.last();
        if by_account.contains_key(a) {
            before.insert(
                (vote_index, by_account[a]),
                Candidate { aadhaar_id: by_account[a], vote_count: 0 },
            )
        } else {
            before
        }
    }
}

/// A vote of `voter` for `candidate` in session `vote_index`. The checks
/// come in this order: the voter's identity, the candidate's entry, an
/// earlier vote of the voter, the session's state, the count's range.
pub open spec fn vote_spec(
    m: BallotModel,
    by_account: Map<AccountId, AadhaarId>,
    voter: AccountId,
    vote_index: VoteIndex,
    candidate: AadhaarId,
) -> Result<BallotModel, Error> {
    if !by_account.contains_key(voter) {
        Err(Error::MissingIdentity)
    } else if !m.candidates.contains_key((vote_index, candidate)) {
        Err(Error::VoteSessionNotFound)
    } else if m.votes.contains_key((vote_index, by_account[voter])) {
        Err(Error::VoteAlreadyCast)
    } else if state_of(m, vote_index) != VoteState::Voting {
        Err(Error::VotingNotActive)
    } else if m.candidates[(vote_index, candidate)].vote_count == u16::MAX {
        Err(Error::VoteCountOverflow)
    } else {
        Ok(
            BallotModel {
                candidates: m.candidates.insert(
                    (vote_index, candidate),
                    Candidate {
                        aadhaar_id: candidate,
                        vote_count: (m.candidates[(vote_index, candidate)].vote_count
                            + 1) as u16,
                    },
                ),
                votes: m.votes.insert((vote_index, by_account[voter]), true),
                ..m
            },
        )
    }
}

/// The keys of session `vote_index` in `m`.
pub open spec fn session_keys<V>(m: Map<(VoteIndex, AadhaarId), V>, vote_index: VoteIndex) -> Set<
    (VoteIndex, AadhaarId),
> {
    m.dom().filter(|k: (VoteIndex, AadhaarId)| k.0 == vote_index)
}

/// A bounded removal that started from at most `limit` keys of the session
/// left none of them.
proof fn lemma_cleared_within_small<V>(
    before: Map<(VoteIndex, AadhaarId), V>,
    after: Map<(VoteIndex, AadhaarId), V>,
    vote_index: VoteIndex,
    limit: nat,
)
    requires
        cleared_within(before, after, vote_index, limit),
        session_keys(before, vote_index).len() <= limit,
    ensures
        session_empty(after, vote_index),
{
    broadcast use vstd::set::group_set_axioms;

    let gone = before.dom().difference(after.dom());
    let keys = session_keys(before, vote_index);
    if !session_empty(after, vote_index) {
        let k = choose|k: (VoteIndex, AadhaarId)| #[trigger]
            after.contains_key(k) && k.0 == vote_index;
        assert(gone.insert(k).subset_of(keys)) by {
            assert forall|x: (VoteIndex, AadhaarId)| #[trigger]
                gone.insert(k).contains(x) implies keys.contains(x) by {
                if x != k {
                    assert(before.contains_key(x) && !after.contains_key(x));
                }
            }
        }
        vstd::set_lib::lemma_len_subset(gone.insert(k), keys);
        vstd::set_lib::lemma_len_subset(gone, before.dom());
    }
}

/// Opening a session hands out the number the ballot holds; a later
/// opening, after any calls that keep the number (stopping, resetting,
/// adding candidates, voting), gets the next one.
pub proof fn lemma_session_numbers_increase(
    m: BallotModel,
    between: BallotModel,
    by_account: Map<AccountId, AadhaarId>,
    first: AccountId,
    second: AccountId,
)
    requires
        m.vote_index < u32::MAX - 1,
        by_account.contains_key(first),
        by_account.contains_key(second),
        between.vote_index == start_voting_spec(m, by_account, first)->Ok_0.1.vote_index,
    ensures
        start_voting_spec(m, by_account, first) is Ok,
        start_voting_spec(between, by_account, second) is Ok,
        start_voting_spec(m, by_account, first)->Ok_0.0.1 == m.vote_index,
        start_voting_spec(between, by_account, second)->Ok_0.0.1 == m.vote_index + 1,
{
}

/// Once the largest session number has been handed out, opening a session
/// by a registered caller fails with `VoteIndexExhausted`, so the ballot
/// stays as it was and no number comes twice.
pub proof fn lemma_exhausted_counter_refuses(
    m: BallotModel,
    by_account: Map<AccountId, AadhaarId>,
    account_id: AccountId,
)
    requires
        m.vote_index == u32::MAX,
        by_account.contains_key(account_id),
    ensures
        start_voting_spec(m, by_account, account_id) == Err::<
            ((AadhaarId, VoteIndex), BallotModel),
            Error,
        >(Error::VoteIndexExhausted),
{
}

/// Stopping, resetting, adding candidates and voting keep the number the
/// next session gets.
pub proof fn lemma_other_calls_keep_session_number(
    m: BallotModel,
    next: BallotModel,
    by_account: Map<AccountId, AadhaarId>,
    account_id: AccountId,
    vote_index: VoteIndex,
    candidate: AadhaarId,
    accounts: Seq<AccountId>,
    complete: bool,
)
    ensures
        stop_voting_spec(m, by_account, account_id, vote_index) is Ok ==> stop_voting_spec(
            m,
            by_account,
            account_id,
            vote_index,
        )->Ok_0.1.vote_index == m.vote_index,
        vote_spec(m, by_account, account_id, vote_index, candidate) is Ok ==> vote_spec(
            m,
            by_account,
            account_id,
            vote_index,
            candidate,
        )->Ok_0.vote_index == m.vote_index,
        reset_voting_post(m, next, vote_index, complete) ==> next.vote_index == m.vote_index,
        (BallotModel {
            candidates: add_candidates_spec(m.candidates, by_account, vote_index, accounts),
            ..m
        }).vote_index == m.vote_index,
{
}

/// A vote in a session that has no candidates fails with
/// `VoteSessionNotFound`, whoever the registered voter is.
pub proof fn lemma_vote_without_candidates(
    m: BallotModel,
    by_account: Map<AccountId, AadhaarId>,
    voter: AccountId,
    vote_index: VoteIndex,
    candidate: AadhaarId,
)
    requires
        by_account.contains_key(voter),
        session_empty(m.candidates, vote_index),
    ensures
        vote_spec(m, by_account, voter, vote_index, candidate) == Err::<BallotModel, Error>(
            Error::VoteSessionNotFound,
        ),
{
    assert(!m.candidates.contains_key((vote_index, candidate)));
}

/// Adding accounts none of which has an identity adds no candidate.
pub proof fn lemma_unregistered_candidates_skipped(
    candidates: Map<(VoteIndex, AadhaarId), Candidate>,
    by_account: Map<AccountId, AadhaarId>,
    vote_index: VoteIndex,
    accounts: Seq<AccountId>,
)
    requires
        forall|j: int| 0 <= j < accounts.len() ==> !by_account.contains_key(#[trigger] accounts[j]),
    ensures
        add_candidates_spec(candidates, by_account, vote_index, accounts) == candidates,
    decreases accounts.len(),
{
    if accounts.len() > 0 {
        lemma_unregistered_candidates_skipped(
            candidates,
            by_account,
            vote_index,
            accounts.drop_last(),
        );
        assert(!by_account.contains_key(accounts[accounts.len() - 1]));
    }
}

/// After a successful vote the candidate has exactly one vote more, and any
/// further vote of the same voter in that session, for a candidate there,
/// fails with `VoteAlreadyCast`.
pub proof fn lemma_vote_once(
    m: BallotModel,
    by_account: Map<AccountId, AadhaarId>,
    voter: AccountId,
    vote_index: VoteIndex,
    candidate: AadhaarId,
    again: AadhaarId,
)
    requires
        vote_spec(m, by_account, voter, vote_index, candidate) is Ok,
    ensures
        ({
            let next = vote_spec(m, by_account, voter, vote_index, candidate)->Ok_0;
            &&& next.candidates.contains_key((vote_index, candidate))
            &&& next.candidates[(vote_index, candidate)].vote_count == m.candidates[(
                vote_index,
                candidate,
            )].vote_count + 1
            &&& next.candidates.contains_key((vote_index, again)) ==> vote_spec(
                next,
                by_account,
                voter,
                vote_index,
                again,
            ) == Err::<BallotModel, Error>(Error::VoteAlreadyCast)
        }),
{
}

/// A reset leaves the session idle and without its opener, keeps the
/// candidates and votes of other sessions, and, when the session held at
/// most [`RESET_LIMIT`] candidates and as many votes, leaves none of them
/// and reports itself complete.
pub proof fn lemma_reset_clears_session(
    m: BallotModel,
    next: BallotModel,
    vote_index: VoteIndex,
    complete: bool,
)
    requires
        reset_voting_post(m, next, vote_index, complete),
    ensures
        state_of(next, vote_index) == VoteState::Idle,
        !next.chiefs.contains_key(vote_index),
        forall|k: (VoteIndex, AadhaarId)|
            #![trigger m.candidates.contains_key(k)]
            m.candidates.contains_key(k) && k.0 != vote_index ==> next.candidates.contains_key(k)
                && next.candidates[k] == m.candidates[k],
        forall|k: (VoteIndex, AadhaarId)|
            #![trigger m.votes.contains_key(k)]
            m.votes.contains_key(k) && k.0 != vote_index ==> next.votes.contains_key(k)
                && next.votes[k] == m.votes[k],
        session_keys(m.candidates, vote_index).len() <= RESET_LIMIT && session_keys(
            m.votes,
            vote_index,
        ).len() <= RESET_LIMIT ==> complete && session_empty(next.candidates, vote_index)
            && session_empty(next.votes, vote_index),
{
    if session_keys(m.candidates, vote_index).len() <= RESET_LIMIT && session_keys(
        m.votes,
        vote_index,
    ).len() <= RESET_LIMIT {
        lemma_cleared_within_small(m.candidates, next.candidates, vote_index, RESET_LIMIT as nat);
        lemma_cleared_within_small(m.votes, next.votes, vote_index, RESET_LIMIT as nat);
    }
}

/// Stopping a session that is idle or ended fails with `VotingNotActive`.
pub proof fn lemma_stop_needs_voting(
    m: BallotModel,
    by_account: Map<AccountId, AadhaarId>,
    account_id: AccountId,
    vote_index: VoteIndex,
)
    requires
        state_of(m, vote_index) != VoteState::Voting,
    ensures
        stop_voting_spec(m, by_account, account_id, vote_index) == Err::<
            ((AadhaarId, VoteIndex), BallotModel),
            Error,
        >(Error::VotingNotActive),
{
}

/// A ballot call as far as its effect on the ballot goes; a call that its
/// origin check refused is `Refused`.
pub enum BallotCall {
    StartVoting(AccountId),
    StopVoting(AccountId, VoteIndex),
    ResetVoting(AccountId, VoteIndex),
    AddCandidates(VoteIndex, Seq<AccountId>),
    Vote(AccountId, VoteIndex, AadhaarId),
    Refused,
}

/// `next` is a state the ballot can be in after `call` on `m`, with the
/// registry's accounts `by_account`. A failed call changes nothing.
pub open spec fn ballot_step(
    m: BallotModel,
    by_account: Map<AccountId, AadhaarId>,
    call: BallotCall,
    next: BallotModel,
) -> bool {
    match call {
        BallotCall::StartVoting(a) => match start_voting_spec(m, by_account, a) {
            Ok((_, n)) => next == n,
            Err(_) => next == m,
        },
        BallotCall::StopVoting(a, i) => match stop_voting_spec(m, by_account, a, i) {
            Ok((_, n)) => next == n,
            Err(_) => next == m,
        },
        BallotCall::ResetVoting(a, i) => if by_account.contains_key(a) {
            exists|complete: bool| #[trigger] reset_voting_post(m, next, i, complete)
        } else {
            next == m
        },
        BallotCall::AddCandidates(i, accounts) => next == (BallotModel {
            candidates: add_candidates_spec(m.candidates, by_account, i, accounts),
            ..m
        }),
        BallotCall::Vote(a, i, c) => match vote_spec(m, by_account, a, i, c) {
            Ok(n) => next == n,
            Err(_) => next == m,
        },
        BallotCall::Refused => next == m,
    }
}

/// The session number `call` hands out on `m`, if it opens a session.
pub open spec fn handed_out(
    m: BallotModel,
    by_account: Map<AccountId, AadhaarId>,
    call: BallotCall,
) -> Option<VoteIndex> {
    match call {
        BallotCall::StartVoting(a) => match start_voting_spec(m, by_account, a) {
            Ok(((_, i), _)) => Some(i),
            Err(_) => None,
        },
        _ => None,
    }
}

/// How many of the first `n` calls of a history opened a session.
pub open spec fn sessions_opened(
    states: Seq<BallotModel>,
    registries: Seq<Map<AccountId, AadhaarId>>,
    calls: Seq<BallotCall>,
    n: nat,
) -> nat
    decreases n,
{
    if n == 0 {
        0
    } else {
        let k = (n - 1) as int;
        sessions_opened(states, registries, calls, (n - 1) as nat) + if handed_out(
            states[k],
            registries[k],
            calls[k],
        ) is Some {
            1nat
        } else {
            0nat
        }
    }
}

/// A history of calls: `states[i + 1]` follows from `states[i]` by
/// `calls[i]`, with the registry's accounts `registries[i]` at that time.
pub open spec fn is_history(
    states: Seq<BallotModel>,
    registries: Seq<Map<AccountId, AadhaarId>>,
    calls: Seq<BallotCall>,
) -> bool {
    &&& states.len() == calls.len() + 1
    &&& registries.len() == calls.len()
    &&& forall|i: int|
        0 <= i < calls.len() ==> ballot_step(
            #[trigger] states[i],
            registries[i],
            calls[i],
            states[i + 1],
        )
}

proof fn lemma_sessions_opened_grows(
    states: Seq<BallotModel>,
    registries: Seq<Map<AccountId, AadhaarId>>,
    calls: Seq<BallotCall>,
    a: nat,
    b: nat,
)
    requires
        a <= b,
    ensures
        sessions_opened(states, registries, calls, a) <= sessions_opened(
            states,
            registries,
            calls,
            b,
        ),
    decreases b - a,
{
    if a < b {
        lemma_sessions_opened_grows(states, registries, calls, a, (b - 1) as nat);
    }
}

/// In any history that starts from a ballot with no sessions, whatever
/// stops, resets, candidate lists, votes and refused calls come between,
/// the ballot's next number is the count of sessions opened so far, each
/// opening hands out that count, and so an earlier opening always got a
/// smaller number than a later one: no number is handed out twice.
pub proof fn lemma_session_numbers_over_history(
    states: Seq<BallotModel>,
    registries: Seq<Map<AccountId, AadhaarId>>,
    calls: Seq<BallotCall>,
)
    requires
        is_history(states, registries, calls),
        states[0].vote_index == 0,
    ensures
        forall|n: int|
            0 <= n < states.len() ==> (#[trigger] states[n]).vote_index == sessions_opened(
                states,
                registries,
                calls,
                n as nat,
            ),
        forall|i: int|
            0 <= i < calls.len() && (#[trigger] handed_out(states[i], registries[i], calls[i]))
                is Some ==> handed_out(states[i], registries[i], calls[i])->Some_0
                == sessions_opened(states, registries, calls, i as nat),
        forall|i: int, j: int|
            0 <= i < j < calls.len() && (#[trigger] handed_out(states[i], registries[i], calls[i]))
                is Some && (#[trigger] handed_out(states[j], registries[j], calls[j])) is Some
                ==> handed_out(states[i], registries[i], calls[i])->Some_0 < handed_out(
                states[j],
                registries[j],
                calls[j],
            )->Some_0,
{
    lemma_history_counts(states, registries, calls, calls.len() as nat);
    assert forall|i: int|
        0 <= i < calls.len() && (#[trigger] handed_out(states[i], registries[i], calls[i]))
            is Some implies handed_out(states[i], registries[i], calls[i])->Some_0
            == sessions_opened(states, registries, calls, i as nat) by {
        assert(states[i].vote_index == sessions_opened(states, registries, calls, i as nat));
    }
    assert forall|i: int, j: int|
        0 <= i < j < calls.len() && (#[trigger] handed_out(states[i], registries[i], calls[i]))
            is Some && (#[trigger] handed_out(states[j], registries[j], calls[j])) is Some
            implies handed_out(states[i], registries[i], calls[i])->Some_0 < handed_out(
            states[j],
            registries[j],
            calls[j],
        )->Some_0 by {
        assert(states[i].vote_index == sessions_opened(states, registries, calls, i as nat));
        assert(states[j].vote_index == sessions_opened(states, registries, calls, j as nat));
        lemma_sessions_opened_grows(states, registries, calls, (i + 1) as nat, j as nat);
    }
}

proof fn lemma_history_counts(
    states: Seq<BallotModel>,
    registries: Seq<Map<AccountId, AadhaarId>>,
    calls: Seq<BallotCall>,
    n: nat,
)
    requires
        is_history(states, registries, calls),
        states[0].vote_index == 0,
        n <= calls.len(),
    ensures
        forall|k: int|
            0 <= k <= n ==> (#[trigger] states[k]).vote_index == sessions_opened(
                states,
                registries,
                calls,
                k as nat,
            ),
    decreases n,
{
    if n > 0 {
        let k = (n - 1) as int;
        lemma_history_counts(states, registries, calls, (n - 1) as nat);
        assert(ballot_step(states[k], registries[k], calls[k], states[k + 1]));
        assert(states[k].vote_index == sessions_opened(states, registries, calls, k as nat));
        match calls[k] {
            BallotCall::ResetVoting(a, i) => {
                if registries[k].contains_key(a) {
                    let c = choose|c: bool| #[trigger] reset_voting_post(states[k], states[k + 1], i, c);
                }
            },
            _ => {},
        }
        assert(states[k + 1].vote_index == sessions_opened(states, registries, calls, n));
    }
}

/// Every candidate entry carries the identity it is keyed by.
pub proof fn lemma_candidate_keys(p: &Pallet)
    requires
        p.wf(),
    ensures
        forall|k: (VoteIndex, AadhaarId)|
            #[trigger] p@.candidates.contains_key(k) ==> p@.candidates[k].aadhaar_id == k.1,
{
}

/// The account behind `origin` when the ballot's settings admit it as the
/// election commission.
pub open spec fn commission_account(m: BallotModel, origin: Origin) -> Option<AccountId> {
    match origin {
        Origin::Signed(a) => if m.election_commission_origin.admits(origin) {
            Some(a)
        } else {
            None
        },
        _ => None,
    }
}

/// The voting sessions, their candidates and the votes cast.
pub struct Pallet {
    config: Config,
    current_vote_index: VoteIndex,
    chief_commissioner: StorageMap<VoteIndex, AadhaarId>,
    voting_state: StorageMap<VoteIndex, VoteState>,
    candidates: StorageMap<(VoteIndex, AadhaarId), Candidate>,
    votes: StorageMap<(VoteIndex, AadhaarId), bool>,
}

impl View for Pallet {
    type V = BallotModel;

    closed spec fn view(&self) -> BallotModel {
        BallotModel {
            election_commission_origin: self.config.election_commission_origin,
            vote_index: self.current_vote_index,
            states: self.voting_state@,
            chiefs: self.chief_commissioner@,
            candidates: self.candidates@,
            votes: self.votes@,
        }
    }
}

impl Pallet {
    /// The stores are well formed and each candidate entry carries the
    /// identity it is keyed by.
    pub closed spec fn wf(&self) -> bool {
        &&& self.chief_commissioner.wf()
        &&& self.voting_state.wf()
        &&& self.candidates.wf()
        &&& self.votes.wf()
        &&& forall|k: (VoteIndex, AadhaarId)|
            #[trigger] self.candidates@.contains_key(k) ==> self.candidates@[k].aadhaar_id == k.1
    }

    /// A ballot with no sessions.
    pub fn new(config: Config) -> (r: Pallet)
        ensures
            r.wf(),
            r@ == (BallotModel {
                election_commission_origin: config.election_commission_origin,
                vote_index: 0,
                states: Map::empty(),
                chiefs: Map::empty(),
                candidates: Map::empty(),
                votes: Map::empty(),
            }),
    {
        Pallet {
            config,
            current_vote_index: VoteIndexDefault(),
            chief_commissioner: StorageMap::new(),
            voting_state: StorageMap::new(),
            candidates: StorageMap::new(),
            votes: StorageMap::new(),
        }
    }

    /// The state of session `vote_index`.
    pub fn vote_state(&self, vote_index: VoteIndex) -> (r: VoteState)
        requires
            self.wf(),
        ensures
            r == state_of(self@, vote_index),
    {
        match self.voting_state.get(&vote_index) {
            Some(s) => s,
            None => StateDefault(),
        }
    }

    /// Opens a new session chaired by `account_id`'s identity; returns that
    /// identity and the session's number.
    pub fn do_start_voting(&mut self, registry: &aadhaar::Pallet, account_id: &AccountId) -> (r:
        Result<(AadhaarId, VoteIndex), Error>)
        requires
            old(self).wf(),
            registry.wf(),
        ensures
            final(self).wf(),
            match start_voting_spec(old(self)@, registry.by_account(), *account_id) {
                Ok((out, m)) => r == Ok::<(AadhaarId, VoteIndex), Error>(out) && final(self)@ == m,
                Err(e) => r == Err::<(AadhaarId, VoteIndex), Error>(e)
                    && *final(self) == *old(self),
            },
    {
        let aadhaar_id = match registry.get_aadhaar_id(account_id) {
            Some(id) => id,
            None => {
                return Err(Error::MissingIdentity);
            },
        };
        let vote_index = self.current_vote_index;
        if vote_index == VoteIndex::MAX {
            return Err(Error::VoteIndexExhausted);
        }
        self.voting_state.insert(vote_index, VoteState::Voting);
        self.chief_commissioner.insert(vote_index, aadhaar_id);
        self.current_vote_index = vote_index + 1;
        Ok((aadhaar_id, vote_index))
    }

    /// Ends session `vote_index`, which must be in the voting state.
    pub fn do_stop_voting(
        &mut self,
        registry: &aadhaar::Pallet,
        account_id: &AccountId,
        vote_index: VoteIndex,
    ) -> (r: Result<(AadhaarId, VoteIndex), Error>)
        requires
            old(self).wf(),
            registry.wf(),
        ensures
            final(self).wf(),
            match stop_voting_spec(old(self)@, registry.by_account(), *account_id, vote_index) {
                Ok((out, m)) => r == Ok::<(AadhaarId, VoteIndex), Error>(out) && final(self)@ == m,
                Err(e) => r == Err::<(AadhaarId, VoteIndex), Error>(e)
                    && *final(self) == *old(self),
            },
    {
        if self.vote_state(vote_index) != VoteState::Voting {
            return Err(Error::VotingNotActive);
        }
        let aadhaar_id = match registry.get_aadhaar_id(account_id) {
            Some(id) => id,
            None => {
                return Err(Error::MissingIdentity);
            },
        };
        self.voting_state.insert(vote_index, VoteState::Ended);
        Ok((aadhaar_id, vote_index))
    }

    /// Sets session `vote_index` back to idle, forgets who opened it, and
    /// removes up to [`RESET_LIMIT`] of its candidates and as many of its
    /// votes. Returns the caller's identity, the session's number, and
    /// whether nothing of the session is left; when something is, another
    /// reset removes more.
    pub fn do_reset_voting(
        &mut self,
        registry: &aadhaar::Pallet,
        account_id: &AccountId,
        vote_index: VoteIndex,
    ) -> (r: Result<(AadhaarId, VoteIndex, bool), Error>)
        requires
            old(self).wf(),
            registry.wf(),
        ensures
            final(self).wf(),
            !registry.by_account().contains_key(*account_id) ==> r == Err::<
                (AadhaarId, VoteIndex, bool),
                Error,
            >(Error::MissingIdentity) && *final(self) == *old(self),
            registry.by_account().contains_key(*account_id) ==> match r {
                Ok((id, i, complete)) => id == registry.by_account()[*account_id] && i
                    == vote_index && reset_voting_post(old(self)@, final(self)@, vote_index, complete),
                Err(_) => false,
            },
    {
        let aadhaar_id = match registry.get_aadhaar_id(account_id) {
            Some(id) => id,
            None => {
                return Err(Error::MissingIdentity);
            },
        };
        proof {
            self.candidates.lemma_finite();
            self.votes.lemma_finite();
        }
        self.voting_state.insert(vote_index, VoteState::Idle);
        self.chief_commissioner.remove(&vote_index);
        let (_, candidates_done) = self.candidates.clear_prefix(&vote_index, RESET_LIMIT);
        let (_, votes_done) = self.votes.clear_prefix(&vote_index, RESET_LIMIT);
        assert forall|k: (VoteIndex, AadhaarId)| #[trigger]
            self.candidates@.contains_key(k) implies self.candidates@[k].aadhaar_id == k.1 by {
            assert(old(self).candidates@.contains_key(k));
        }
        Ok((aadhaar_id, vote_index, candidates_done && votes_done))
    }

    /// Adds the identities of `candidates` to session `vote_index`, each with
    /// no votes; accounts without an identity are passed over.
    pub fn do_add_candidates(
        &mut self,
        registry: &aadhaar::Pallet,
        vote_index: VoteIndex,
        candidates: &Vec<AccountId>,
    ) -> (r: Result<(), Error>)
        requires
            old(self).wf(),
            registry.wf(),
        ensures
            final(self).wf(),
            r == Ok::<(), Error>(()),
            final(self)@ == (BallotModel {
                candidates: add_candidates_spec(
                    old(self)@.candidates,
                    registry.by_account(),
                    vote_index,
                    candidates@,
                ),
                ..old(self)@
            }),
    {
        let mut i: usize = 0;
        proof {
            assert(candidates@.take(0) =~= Seq::<AccountId>::empty());
        }
        while i < candidates.len()
            invariant
                self.wf(),
                registry.wf(),
                i <= candidates@.len(),
                self@ == (BallotModel {
                    candidates: add_candidates_spec(
                        old(self)@.candidates,
                        registry.by_account(),
                        vote_index,
                        candidates@.take(i as int),
                    ),
                    ..old(self)@
                }),
            decreases candidates@.len() - i,
        {
            proof {
                assert(candidates@.take(i + 1).drop_last() =~= candidates@.take(i as int));
            }
            if let Some(candidate_id) = registry.get_aadhaar_id(&candidates[i]) {
                self.candidates.insert(
                    (vote_index, candidate_id),
                    Candidate { aadhaar_id: candidate_id, vote_count: 0 },
                );
            }
            i = i + 1;
        }
        proof {
            assert(candidates@.take(candidates@.len() as int) =~= candidates@);
        }
        Ok(())
    }

    /// Casts `voter_acc`'s vote for `candidate_id` in session `vote_index`:
    /// the candidate's count goes up by one and the voter is marked as having
    /// voted there, or nothing changes and the first failed check is
    /// reported.
    pub fn do_vote(
        &mut self,
        registry: &aadhaar::Pallet,
        voter_acc: &AccountId,
        vote_index: VoteIndex,
        candidate_id: AadhaarId,
    ) -> (r: Result<(), Error>)
        requires
            old(self).wf(),
            registry.wf(),
        ensures
            final(self).wf(),
            match vote_spec(old(self)@, registry.by_account(), *voter_acc, vote_index, candidate_id) {
                Ok(m) => r == Ok::<(), Error>(()) && final(self)@ == m,
                Err(e) => r == Err::<(), Error>(e) && *final(self) == *old(self),
            },
    {
        let voter_id = match registry.get_aadhaar_id(voter_acc) {
            Some(id) => id,
            None => {
                return Err(Error::MissingIdentity);
            },
        };
        let mut candidate = match self.candidates.get(&(vote_index, candidate_id)) {
            Some(c) => c,
            None => {
                return Err(Error::VoteSessionNotFound);
            },
        };
        if self.votes.contains_key(&(vote_index, voter_id)) {
            return Err(Error::VoteAlreadyCast);
        }
        if self.vote_state(vote_index) != VoteState::Voting {
            return Err(Error::VotingNotActive);
        }
        if candidate.vote_count == u16::MAX {
            return Err(Error::VoteCountOverflow);
        }
        candidate.vote_count = candidate.vote_count + 1;
        self.candidates.insert((vote_index, candidate_id), candidate);
        self.votes.insert((vote_index, voter_id), true);
        Ok(())
    }

    /// Opens a new session on behalf of the election commission.
    pub fn start_voting(&mut self, registry: &aadhaar::Pallet, origin: Origin) -> (r: Result<
        Event,
        DispatchError,
    >)
        requires
            old(self).wf(),
            registry.wf(),
        ensures
            final(self).wf(),
            match commission_account(old(self)@, origin) {
                None => r == Err::<Event, DispatchError>(DispatchError::BadOrigin)
                    && *final(self) == *old(self),
                Some(a) => match start_voting_spec(old(self)@, registry.by_account(), a) {
                    Ok(((aadhaar_id, vote_index), m)) => r == Ok::<Event, DispatchError>(
                        Event::VotingStarted { aadhaar_id, vote_index },
                    ) && final(self)@ == m,
                    Err(e) => r == Err::<Event, DispatchError>(DispatchError::Ballot(e))
                        && *final(self) == *old(self),
                },
            },
    {
        let account_id = match self.config.election_commission_origin.ensure_account(&origin) {
            Ok(a) => a,
            Err(e) => {
                return Err(e);
            },
        };
        match self.do_start_voting(registry, &account_id) {
            Ok((aadhaar_id, vote_index)) => Ok(Event::VotingStarted { aadhaar_id, vote_index }),
            Err(e) => Err(DispatchError::Ballot(e)),
        }
    }

    /// Ends session `vote_index` on behalf of the election commission.
    pub fn stop_voting(&mut self, registry: &aadhaar::Pallet, origin: Origin, vote_index: VoteIndex)
        -> (r: Result<Event, DispatchError>)
        requires
            old(self).wf(),
            registry.wf(),
        ensures
            final(self).wf(),
            match commission_account(old(self)@, origin) {
                None => r == Err::<Event, DispatchError>(DispatchError::BadOrigin)
                    && *final(self) == *old(self),
                Some(a) => match stop_voting_spec(old(self)@, registry.by_account(), a, vote_index) {
                    Ok(((aadhaar_id, vote_index), m)) => r == Ok::<Event, DispatchError>(
                        Event::VotingStopped { aadhaar_id, vote_index },
                    ) && final(self)@ == m,
                    Err(e) => r == Err::<Event, DispatchError>(DispatchError::Ballot(e))
                        && *final(self) == *old(self),
                },
            },
    {
        let account_id = match self.config.election_commission_origin.ensure_account(&origin) {
            Ok(a) => a,
            Err(e) => {
                return Err(e);
            },
        };
        match self.do_stop_voting(registry, &account_id, vote_index) {
            Ok((aadhaar_id, vote_index)) => Ok(Event::VotingStopped { aadhaar_id, vote_index }),
            Err(e) => Err(DispatchError::Ballot(e)),
        }
    }

    /// Resets session `vote_index` on behalf of the election commission; see
    /// [`Pallet::do_reset_voting`].
    pub fn reset_voting(&mut self, registry: &aadhaar::Pallet, origin: Origin, vote_index: VoteIndex)
        -> (r: Result<Event, DispatchError>)
        requires
            old(self).wf(),
            registry.wf(),
        ensures
            final(self).wf(),
            match commission_account(old(self)@, origin) {
                None => r == Err::<Event, DispatchError>(DispatchError::BadOrigin)
                    && *final(self) == *old(self),
                Some(a) => if registry.by_account().contains_key(a) {
                    match r {
                        Ok(Event::VotingReset { aadhaar_id, vote_index: i, complete }) => aadhaar_id
                            == registry.by_account()[a] && i == vote_index && reset_voting_post(
                            old(self)@,
                            final(self)@,
                            vote_index,
                            complete,
                        ),
                        _ => false,
                    }
                } else {
                    r == Err::<Event, DispatchError>(DispatchError::Ballot(Error::MissingIdentity))
                        && *final(self) == *old(self)
                },
            },
    {
        let account_id = match self.config.election_commission_origin.ensure_account(&origin) {
            Ok(a) => a,
            Err(e) => {
                return Err(e);
            },
        };
        match self.do_reset_voting(registry, &account_id, vote_index) {
            Ok((aadhaar_id, vote_index, complete)) => Ok(
                Event::VotingReset { aadhaar_id, vote_index, complete },
            ),
            Err(e) => Err(DispatchError::Ballot(e)),
        }
    }

    /// Adds candidates to session `vote_index` on behalf of the election
    /// commission; see [`Pallet::do_add_candidates`].
    pub fn add_candidates(
        &mut self,
        registry: &aadhaar::Pallet,
        origin: Origin,
        vote_index: VoteIndex,
        candidates: Vec<AccountId>,
    ) -> (r: Result<Event, DispatchError>)
        requires
            old(self).wf(),
            registry.wf(),
        ensures
            final(self).wf(),
            match commission_account(old(self)@, origin) {
                None => r == Err::<Event, DispatchError>(DispatchError::BadOrigin)
                    && *final(self) == *old(self),
                Some(_) => r == Ok::<Event, DispatchError>(
                    Event::AddedCandidates { vote_index, candidates },
                ) && final(self)@ == (BallotModel {
                    candidates: add_candidates_spec(
                        old(self)@.candidates,
                        registry.by_account(),
                        vote_index,
                        candidates@,
                    ),
                    ..old(self)@
                }),
            },
    {
        match self.config.election_commission_origin.ensure_account(&origin) {
            Ok(_) => {},
            Err(e) => {
                return Err(e);
            },
        }
        match self.do_add_candidates(registry, vote_index, &candidates) {
            Ok(()) => Ok(Event::AddedCandidates { vote_index, candidates }),
            Err(e) => Err(DispatchError::Ballot(e)),
        }
    }

    /// Casts the vote of the account that signed `origin`; see
    /// [`Pallet::do_vote`].
    pub fn vote(
        &mut self,
        registry: &aadhaar::Pallet,
        origin: Origin,
        vote_index: VoteIndex,
        candidate: AadhaarId,
    ) -> (r: Result<Event, DispatchError>)
        requires
            old(self).wf(),
            registry.wf(),
        ensures
            final(self).wf(),
            match origin {
                Origin::Signed(a) => match vote_spec(
                    old(self)@,
                    registry.by_account(),
                    a,
                    vote_index,
                    candidate,
                ) {
                    Ok(m) => r == Ok::<Event, DispatchError>(Event::Voted { vote_index, candidate })
                        && final(self)@ == m,
                    Err(e) => r == Err::<Event, DispatchError>(DispatchError::Ballot(e))
                        && *final(self) == *old(self),
                },
                _ => r == Err::<Event, DispatchError>(DispatchError::BadOrigin) && *final(self)
                    == *old(self),
            },
    {
        let account_id = match crate::dispatch::ensure_signed(&origin) {
            Ok(a) => a,
            Err(e) => {
                return Err(e);
            },
        };
        match self.do_vote(registry, &account_id, vote_index, candidate) {
            Ok(()) => Ok(Event::Voted { vote_index, candidate }),
            Err(e) => Err(DispatchError::Ballot(e)),
        }
    }

    /// The number the next session gets.
    pub fn current_vote_index(&self) -> (r: VoteIndex)
        ensures
            r == self@.vote_index,
    {
        self.current_vote_index
    }

    /// The identity that opened session `vote_index`, unless it was reset.
    pub fn chief_commissioner(&self, vote_index: VoteIndex) -> (r: Option<AadhaarId>)
        requires
            self.wf(),
        ensures
            r == (if self@.chiefs.contains_key(vote_index) {
                Some(self@.chiefs[vote_index])
            } else {
                None
            }),
    {
        self.chief_commissioner.get(&vote_index)
    }

    /// Whether `aadhaar_id` is a candidate of session `vote_index`.
    pub fn contains_candidate(&self, vote_index: VoteIndex, aadhaar_id: AadhaarId) -> (r: bool)
        requires
            self.wf(),
        ensures
            r == self@.candidates.contains_key((vote_index, aadhaar_id)),
    {
        self.candidates.contains_key(&(vote_index, aadhaar_id))
    }

    /// The candidate entry of `aadhaar_id` in session `vote_index`; an entry
    /// with a zero identity and no votes when there is none.
    pub fn candidates(&self, vote_index: VoteIndex, aadhaar_id: AadhaarId) -> (r: Candidate)
        requires
            self.wf(),
        ensures
            self@.candidates.contains_key((vote_index, aadhaar_id)) ==> r
                == self@.candidates[(vote_index, aadhaar_id)],
            !self@.candidates.contains_key((vote_index, aadhaar_id)) ==> r.vote_count == 0
                && forall|i: int| 0 <= i < 16 ==> r.aadhaar_id[i] == 0,
    {
        match self.candidates.get(&(vote_index, aadhaar_id)) {
            Some(c) => c,
            None => Candidate { aadhaar_id: [0u8; 16], vote_count: 0 },
        }
    }

    /// Whether `aadhaar_id` has voted in session `vote_index`.
    pub fn votes(&self, vote_index: VoteIndex, aadhaar_id: AadhaarId) -> (r: bool)
        requires
            self.wf(),
        ensures
            r == (self@.votes.contains_key((vote_index, aadhaar_id)) && self@.votes[(
                vote_index,
                aadhaar_id,
            )]),
    {
        match self.votes.get(&(vote_index, aadhaar_id)) {
            Some(v) => v,
            None => false,
        }
    }
}

} // verus!
