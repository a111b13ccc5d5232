//! The resolution lifecycle: propose, challenge, finalize.
//!
//! A proposer submits a signed outcome for a market together with an
//! evidence URI; the candidate can be challenged until its challenge deadline
//! and, if unchallenged, finalized after it. The market contract then
//! settles the market with the finalized outcome.
//!
//! The host's part: authorization of the callers, the ledger time (`now`),
//! the market contract's check of the oracle signature before a proposal,
//! which [`ResolutionContract::propose`] takes as its `verification`
//! argument, the `resolve_market` call on the market contract after a
//! successful [`ResolutionContract::finalize`], and the events.

pub mod error;
pub mod types;

use vstd::prelude::*;

use crate::address::Address;
use crate::table::{lemma_insert_all_unique, seq_insert_all, Table};
pub use error::ContractError;
use types::{CandidateStatus, ResolutionCandidate, ResolutionConfig};

verus! {

/// The shortest challenge window: one minute.
pub const MIN_CHALLENGE_WINDOW_SECONDS: u64 = 60;

/// The longest challenge window: fourteen days.
pub const MAX_CHALLENGE_WINDOW_SECONDS: u64 = 1_209_600;

/// The longest evidence or challenge URI, in bytes.
pub const MAX_URI_BYTES: u32 = 512;

/// Whether `seconds` is an accepted challenge window.
pub open spec fn valid_window(seconds: u64) -> bool {
    MIN_CHALLENGE_WINDOW_SECONDS <= seconds <= MAX_CHALLENGE_WINDOW_SECONDS
}

/// The length in bytes (UTF-8) of a URI, as a machine word.
pub open spec fn uri_bytes(uri: Seq<char>) -> usize {
    vstd::utf8::encode_utf8(uri).len() as usize
}

/// Whether a URI is accepted: non-empty and at most 512 bytes.
pub open spec fn valid_uri(uri: Seq<char>) -> bool {
    0 < uri_bytes(uri) <= MAX_URI_BYTES
}

/// Fails with `InvalidChallengeWindow` unless `seconds` lies between one
/// minute and fourteen days, both included.
pub fn validate_challenge_window(seconds: u64) -> (r: Result<(), ContractError>)
    ensures
        r is Ok <==> valid_window(seconds),
        r is Err ==> r == Err::<(), ContractError>(ContractError::InvalidChallengeWindow),
{
    if !(MIN_CHALLENGE_WINDOW_SECONDS <= seconds && seconds <= MAX_CHALLENGE_WINDOW_SECONDS) {
        return Err(ContractError::InvalidChallengeWindow);
    }
    Ok(())
}

/// Fails with `InvalidEvidenceUri` when `uri` is empty or longer than 512 bytes.
pub fn validate_uri(uri: &String) -> (r: Result<(), ContractError>)
    ensures
        r is Ok <==> valid_uri(uri@),
        r is Err ==> r == Err::<(), ContractError>(ContractError::InvalidEvidenceUri),
{
    let len = uri.as_str().len();
    if len == 0 || len > MAX_URI_BYTES as usize {
        return Err(ContractError::InvalidEvidenceUri);
    }
    Ok(())
}

/// Fails with `NotAdmin` unless `admin` is the configured admin.
pub fn require_admin(admin: &Address, config: &ResolutionConfig) -> (r: Result<(), ContractError>)
    ensures
        r is Ok <==> *admin == config.admin,
        r is Err ==> r == Err::<(), ContractError>(ContractError::NotAdmin),
{
    if *admin != config.admin {
        return Err(ContractError::NotAdmin);
    }
    Ok(())
}

/// The abstract state of the resolution contract.
pub struct ResolutionView {
    pub config: Option<ResolutionConfig>,
    /// The candidates, by id.
    pub candidates: Map<u32, ResolutionCandidate>,
    /// The candidate proposed for each market, by market id.
    pub market_candidates: Map<u32, u32>,
    /// The last id handed out; ids start at 1.
    pub candidate_counter: u32,
}

/// Whether a candidate's own fields agree with its status and window.
pub open spec fn candidate_consistent(c: ResolutionCandidate) -> bool {
    &&& (c.status == CandidateStatus::Finalized) == (c.finalized_at is Some)
    &&& (c.status == CandidateStatus::Challenged) == (c.challenged_by is Some)
    &&& (c.challenged_by is Some) == (c.challenge_uri is Some)
    &&& c.proposed_at + MIN_CHALLENGE_WINDOW_SECONDS <= c.challenge_deadline
    &&& c.challenge_deadline <= c.proposed_at + MAX_CHALLENGE_WINDOW_SECONDS
}

/// What every reachable state satisfies: each candidate is stored under its
/// own id, ids lie between 1 and the counter, each market has at most one
/// candidate and the market index points at it, and every candidate is
/// consistent.
pub open spec fn registry_inv(v: ResolutionView) -> bool {
    &&& forall|id: u32| #[trigger]
        v.candidates.contains_key(id) ==> {
            let c = v.candidates[id];
            &&& c.id == id
            &&& 1 <= id <= v.candidate_counter
            &&& v.market_candidates.contains_key(c.market_id)
            &&& v.market_candidates[c.market_id] == id
            &&& candidate_consistent(c)
        }
    &&& forall|m: u32| #[trigger]
        v.market_candidates.contains_key(m) ==> {
            &&& v.candidates.contains_key(v.market_candidates[m])
            &&& v.candidates[v.market_candidates[m]].market_id == m
        }
}

/// Decided candidates (challenged or finalized) are never changed or
/// removed, and no candidate is removed.
pub open spec fn finalized_stable(before: ResolutionView, after: ResolutionView) -> bool {
    &&& forall|id: u32| #[trigger]
        before.candidates.contains_key(id) ==> after.candidates.contains_key(id)
    &&& forall|id: u32| #[trigger]
        before.candidates.contains_key(id) && before.candidates[id].status
            != CandidateStatus::Proposed ==> after.candidates[id] == before.candidates[id]
}

/// The outcome of the checks of a proposal, before the signature check.
pub open spec fn proposal_check(
    v: ResolutionView,
    market_id: u32,
    evidence_uri: Seq<char>,
    challenge_window_seconds: u64,
) -> Result<(), ContractError> {
    if !valid_uri(evidence_uri) {
        Err(ContractError::InvalidEvidenceUri)
    } else if !valid_window(challenge_window_seconds) {
        Err(ContractError::InvalidChallengeWindow)
    } else if v.market_candidates.contains_key(market_id) {
        Err(ContractError::CandidateAlreadyExists)
    } else {
        Ok(())
    }
}

/// The outcome of a challenge of candidate `id` at time `now`.
pub open spec fn challenge_check(v: ResolutionView, id: u32, challenge_uri: Seq<char>, now: u64) -> Result<
    (),
    ContractError,
> {
    if !valid_uri(challenge_uri) {
        Err(ContractError::InvalidEvidenceUri)
    } else if !v.candidates.contains_key(id) {
        Err(ContractError::CandidateNotFound)
    } else if v.candidates[id].status == CandidateStatus::Finalized {
        Err(ContractError::CandidateAlreadyFinalized)
    } else if v.candidates[id].status == CandidateStatus::Challenged {
        Err(ContractError::CandidateAlreadyChallenged)
    } else if now > v.candidates[id].challenge_deadline {
        Err(ContractError::ChallengeWindowClosed)
    } else {
        Ok(())
    }
}

/// The outcome of finalizing candidate `id` at time `now`.
pub open spec fn finalize_check(v: ResolutionView, id: u32, now: u64) -> Result<(), ContractError> {
    if !v.candidates.contains_key(id) {
        Err(ContractError::CandidateNotFound)
    } else if v.candidates[id].status == CandidateStatus::Finalized {
        Err(ContractError::CandidateAlreadyFinalized)
    } else if v.candidates[id].status == CandidateStatus::Challenged {
        Err(ContractError::CandidateAlreadyChallenged)
    } else if now <= v.candidates[id].challenge_deadline {
        Err(ContractError::ChallengeWindowOpen)
    } else {
        Ok(())
    }
}

/// A candidate can be challenged only up to its deadline and finalized only
/// after it: at no time can both succeed.
pub proof fn lemma_challenge_and_finalize_exclusive(
    v: ResolutionView,
    id: u32,
    challenge_uri: Seq<char>,
    now: u64,
)
    ensures
        !(challenge_check(v, id, challenge_uri, now) is Ok && finalize_check(v, id, now) is Ok),
{
}

/// Whether `c`'s fields agree with its status and window.
pub fn check_candidate(c: &ResolutionCandidate) -> (r: bool)
    ensures
        r == candidate_consistent(*c),
{
    let finalized = c.status == CandidateStatus::Finalized;
    let challenged = c.status == CandidateStatus::Challenged;
    finalized == c.finalized_at.is_some() && challenged == c.challenged_by.is_some()
        && c.challenged_by.is_some() == c.challenge_uri.is_some() && (c.proposed_at as u128)
        + (MIN_CHALLENGE_WINDOW_SECONDS as u128) <= (c.challenge_deadline as u128) && (
    c.challenge_deadline as u128) <= (c.proposed_at as u128) + (MAX_CHALLENGE_WINDOW_SECONDS as u128)
}

/// The contract's storage in a form that can be saved and loaded.
pub struct ResolutionSnapshot {
    pub config: Option<ResolutionConfig>,
    pub candidates: Vec<(u32, ResolutionCandidate)>,
    pub market_candidates: Vec<(u32, u32)>,
    pub candidate_counter: u32,
}

/// The state that a snapshot describes (a later entry for a key overrides
/// an earlier one).
pub open spec fn resolution_snapshot_view(s: ResolutionSnapshot) -> ResolutionView {
    ResolutionView {
        config: s.config,
        candidates: seq_insert_all(s.candidates@),
        market_candidates: seq_insert_all(s.market_candidates@),
        candidate_counter: s.candidate_counter,
    }
}

/// The resolution contract's state and entry points.
pub struct ResolutionContract {
    config: Option<ResolutionConfig>,
    candidates: Table<u32, ResolutionCandidate>,
    market_candidates: Table<u32, u32>,
    candidate_counter: u32,
}

impl View for ResolutionContract {
    type V = ResolutionView;

    closed spec fn view(&self) -> ResolutionView {
        ResolutionView {
            config: self.config,
            candidates: self.candidates.view(),
            market_candidates: self.market_candidates.view(),
            candidate_counter: self.candidate_counter,
        }
    }
}

impl ResolutionContract {
    /// The contract's invariant: well-formed tables and [`registry_inv`].
    pub closed spec fn inv(&self) -> bool {
        self.candidates.wf() && self.market_candidates.wf() && registry_inv(self@)
    }

    /// Every state reached through these entry points satisfies
    /// [`registry_inv`]: one candidate per market, stored under its own id,
    /// with ids between 1 and the counter and consistent fields.
    pub proof fn lemma_registry(&self)
        requires
            self.inv(),
        ensures
            registry_inv(self@),
    {
    }

    /// Whether the state satisfies [`registry_inv`].
    fn check_registry(&self) -> (r: bool)
        requires
            self.candidates.wf(),
            self.market_candidates.wf(),
        ensures
            r == registry_inv(self@),
    {
        let ghost v = self@;
        proof {
            self.candidates.lemma_entries();
            self.market_candidates.lemma_entries();
        }
        let n = self.candidates.len();
        let mut i: usize = 0;
        while i < n
            invariant
                self.candidates.wf(),
                self.market_candidates.wf(),
                v == self@,
                n == self.candidates.entries().len(),
                i <= n,
                forall|j: int|
                    0 <= j < i ==> {
                        let id = #[trigger] self.candidates.entries()[j].0;
                        let c = v.candidates[id];
                        &&& c.id == id
                        &&& 1 <= id <= v.candidate_counter
                        &&& v.market_candidates.contains_key(c.market_id)
                        &&& v.market_candidates[c.market_id] == id
                        &&& candidate_consistent(c)
                    },
            decreases n - i,
        {
            let entry = self.candidates.entry(i);
            let id = entry.0;
            let c = &entry.1;
            proof {
                self.candidates.lemma_entries();
                assert(v.candidates.contains_key(self.candidates.entries()[i as int].0));
            }
            let indexed = match self.market_candidates.get(&c.market_id) {
                Some(x) => *x == id,
                None => false,
            };
            if !(c.id == id && 1 <= id && id <= self.candidate_counter && indexed && check_candidate(c)) {
                return false;
            }
            i = i + 1;
        }
        let m = self.market_candidates.len();
        let mut k: usize = 0;
        while k < m
            invariant
                self.candidates.wf(),
                self.market_candidates.wf(),
                v == self@,
                m == self.market_candidates.entries().len(),
                k <= m,
                forall|j: int|
                    0 <= j < k ==> {
                        let mk = #[trigger] self.market_candidates.entries()[j].0;
                        &&& v.candidates.contains_key(v.market_candidates[mk])
                        &&& v.candidates[v.market_candidates[mk]].market_id == mk
                    },
            decreases m - k,
        {
            let (mk, id) = *self.market_candidates.entry(k);
            proof {
                self.market_candidates.lemma_entries();
                assert(v.market_candidates.contains_key(self.market_candidates.entries()[k as int].0));
            }
            let ok = match self.candidates.get(&id) {
                Some(c) => c.market_id == mk,
                None => false,
            };
            if !ok {
                return false;
            }
            k = k + 1;
        }
        proof {
            assert forall|id: u32| #[trigger] v.candidates.contains_key(id) implies {
                let c = v.candidates[id];
                &&& c.id == id
                &&& 1 <= id <= v.candidate_counter
                &&& v.market_candidates.contains_key(c.market_id)
                &&& v.market_candidates[c.market_id] == id
                &&& candidate_consistent(c)
            } by {
                let j = choose|j: int|
                    0 <= j < self.candidates.entries().len() && #[trigger] self.candidates.entries()[j].0
                        == id;
            }
            assert forall|mk: u32| #[trigger] v.market_candidates.contains_key(mk) implies {
                &&& v.candidates.contains_key(v.market_candidates[mk])
                &&& v.candidates[v.market_candidates[mk]].market_id == mk
            } by {
                let j = choose|j: int|
                    0 <= j < self.market_candidates.entries().len()
                        && #[trigger] self.market_candidates.entries()[j].0 == mk;
            }
        }
        true
    }

    /// A snapshot of the contract's storage, to be saved by the host.
    pub fn snapshot(&self) -> (r: ResolutionSnapshot)
        requires
            self.inv(),
        ensures
            resolution_snapshot_view(r) == self@,
    {
        let mut candidates: Vec<(u32, ResolutionCandidate)> = Vec::new();
        let n = self.candidates.len();
        let mut i: usize = 0;
        while i < n
            invariant
                self.candidates.wf(),
                n == self.candidates.entries().len(),
                i <= n,
                candidates@ == self.candidates.entries().take(i as int),
            decreases n - i,
        {
            let entry = self.candidates.entry(i);
            candidates.push((entry.0, entry.1.clone()));
            proof {
                assert(self.candidates.entries().take(i + 1) =~= self.candidates.entries().take(
                    i as int,
                ).push(self.candidates.entries()[i as int]));
            }
            i = i + 1;
        }
        proof {
            assert(self.candidates.entries().take(n as int) =~= self.candidates.entries());
            self.candidates.lemma_view();
            self.market_candidates.lemma_view();
            lemma_insert_all_unique(self.candidates.entries());
            lemma_insert_all_unique(self.market_candidates.entries());
        }
        ResolutionSnapshot {
            config: self.config,
            candidates,
            market_candidates: self.market_candidates.to_vec(),
            candidate_counter: self.candidate_counter,
        }
    }

    /// The contract whose storage `snapshot` describes, provided that
    /// storage satisfies [`registry_inv`]; `None` otherwise.
    pub fn restore(snapshot: ResolutionSnapshot) -> (r: Option<Self>)
        ensures
            r is Some <==> registry_inv(resolution_snapshot_view(snapshot)),
            r matches Some(c) ==> c.inv() && c@ == resolution_snapshot_view(snapshot),
    {
        let c = ResolutionContract {
            config: snapshot.config,
            candidates: Table::from_vec(snapshot.candidates),
            market_candidates: Table::from_vec(snapshot.market_candidates),
            candidate_counter: snapshot.candidate_counter,
        };
        if c.check_registry() {
            Some(c)
        } else {
            None
        }
    }

    /// A freshly deployed contract: unregistered, no candidates.
    pub fn new() -> (c: Self)
        ensures
            c.inv(),
            c@.config is None,
            c@.candidates == Map::<u32, ResolutionCandidate>::empty(),
            c@.market_candidates == Map::<u32, u32>::empty(),
            c@.candidate_counter == 0,
    {
        ResolutionContract {
            config: None,
            candidates: Table::new(),
            market_candidates: Table::new(),
            candidate_counter: 0,
        }
    }

    /// Registers the contract with its admin, factory and market contract.
    /// Fails with `AlreadyInitialized` once registered.
    pub fn initialize(&mut self, admin: Address, factory: Address, market_contract: Address) -> (r:
        Result<(), ContractError>)
        requires
            old(self).inv(),
        ensures
            final(self).inv(),
            r is Err <==> old(self)@.config is Some,
            r is Err ==> r == Err::<(), ContractError>(ContractError::AlreadyInitialized),
            r is Err ==> final(self)@ == old(self)@,
            r is Ok ==> final(self)@ == (ResolutionView {
                config: Some(ResolutionConfig { admin, factory, market_contract }),
                ..old(self)@
            }),
    {
        if self.config.is_some() {
            return Err(ContractError::AlreadyInitialized);
        }
        self.config = Some(ResolutionConfig { admin, factory, market_contract });
        Ok(())
    }

    /// The registration. The contract must be initialized.
    pub fn get_config(&self) -> (r: ResolutionConfig)
        requires
            self@.config is Some,
        ensures
            self@.config == Some(r),
    {
        self.config.unwrap()
    }

    /// Replaces the registered factory. Only the admin may do so: fails with
    /// `NotAdmin` otherwise. The contract must be initialized.
    pub fn set_factory(&mut self, admin: Address, factory: Address) -> (r: Result<(), ContractError>)
        requires
            old(self).inv(),
            old(self)@.config is Some,
        ensures
            final(self).inv(),
            r is Ok <==> old(self)@.config.unwrap().admin == admin,
            r is Err ==> r == Err::<(), ContractError>(ContractError::NotAdmin),
            r is Err ==> final(self)@ == old(self)@,
            r is Ok ==> final(self)@ == (ResolutionView {
                config: Some(ResolutionConfig { factory, ..old(self)@.config.unwrap() }),
                ..old(self)@
            }),
    {
        let config = self.config.unwrap();
        require_admin(&admin, &config)?;
        self.config = Some(
            ResolutionConfig {
                admin: config.admin,
                factory,
                market_contract: config.market_contract,
            },
        );
        Ok(())
    }

    /// Replaces the market contract that finalized candidates target. Only
    /// the admin may do so: fails with `NotAdmin` otherwise. The contract
    /// must be initialized.
    pub fn set_market_contract(&mut self, admin: Address, market_contract: Address) -> (r: Result<
        (),
        ContractError,
    >)
        requires
            old(self).inv(),
            old(self)@.config is Some,
        ensures
            final(self).inv(),
            r is Ok <==> old(self)@.config.unwrap().admin == admin,
            r is Err ==> r == Err::<(), ContractError>(ContractError::NotAdmin),
            r is Err ==> final(self)@ == old(self)@,
            r is Ok ==> final(self)@ == (ResolutionView {
                config: Some(ResolutionConfig { market_contract, ..old(self)@.config.unwrap() }),
                ..old(self)@
            }),
    {
        let config = self.config.unwrap();
        require_admin(&admin, &config)?;
        self.config = Some(
            ResolutionConfig { admin: config.admin, factory: config.factory, market_contract },
        );
        Ok(())
    }

    /// The checks that a proposal must pass before its signature is checked:
    /// a valid evidence URI, a valid challenge window, and no earlier
    /// candidate for the market.
    pub fn check_proposal(&self, market_id: u32, evidence_uri: &String, challenge_window_seconds: u64) -> (r:
        Result<(), ContractError>)
        requires
            self.inv(),
        ensures
            r == proposal_check(self@, market_id, evidence_uri@, challenge_window_seconds),
    {
        validate_uri(evidence_uri)?;
        validate_challenge_window(challenge_window_seconds)?;
        if self.market_candidates.contains_key(&market_id) {
            return Err(ContractError::CandidateAlreadyExists);
        }
        Ok(())
    }

    /// Proposes a signed resolution candidate for `market_id` at time `now`.
    ///
    /// `verification` is the market contract's verdict on `signature`,
    /// obtained once [`Self::check_proposal`] has passed. Fails with the
    /// first failing check of `check_proposal`, else with the error of
    /// `verification`; then nothing changes. On success the candidate gets
    /// the next id, status `Proposed`, and the challenge deadline
    /// `now + challenge_window_seconds`, becomes the market's candidate, and
    /// its id is returned.
    pub fn propose(
        &mut self,
        proposer: Address,
        market_id: u32,
        outcome: bool,
        signature: [u8; 64],
        evidence_uri: String,
        challenge_window_seconds: u64,
        now: u64,
        verification: Result<(), ContractError>,
    ) -> (r: Result<u32, ContractError>)
        requires
            old(self).inv(),
            old(self)@.config is Some,
            old(self)@.candidate_counter < u32::MAX,
            valid_window(challenge_window_seconds) ==> now + challenge_window_seconds <= u64::MAX,
        ensures
            final(self).inv(),
            finalized_stable(old(self)@, final(self)@),
            r is Err ==> final(self)@ == old(self)@,
            proposal_check(old(self)@, market_id, evidence_uri@, challenge_window_seconds) is Err
                ==> r == Err::<u32, ContractError>(
                proposal_check(old(self)@, market_id, evidence_uri@, challenge_window_seconds)->Err_0,
            ),
            proposal_check(old(self)@, market_id, evidence_uri@, challenge_window_seconds) is Ok
                && verification is Err ==> r == Err::<u32, ContractError>(
                verification->Err_0,
            ),
            proposal_check(old(self)@, market_id, evidence_uri@, challenge_window_seconds) is Ok
                && verification is Ok ==> {
                let id = (old(self)@.candidate_counter + 1) as u32;
                &&& r == Ok::<u32, ContractError>(id)
                &&& final(self)@ == ResolutionView {
                    candidates: old(self)@.candidates.insert(
                        id,
                        ResolutionCandidate {
                            id,
                            market_id,
                            outcome,
                            signature,
                            proposer,
                            evidence_uri,
                            proposed_at: now,
                            challenge_deadline: (now + challenge_window_seconds) as u64,
                            status: CandidateStatus::Proposed,
                            challenged_by: None,
                            challenge_uri: None,
                            finalized_at: None,
                        },
                    ),
                    market_candidates: old(self)@.market_candidates.insert(market_id, id),
                    candidate_counter: id,
                    ..old(self)@
                }
            },
    {
        match self.check_proposal(market_id, &evidence_uri, challenge_window_seconds) {
            Ok(()) => {},
            Err(e) => {
                return Err(e);
            },
        }
        match verification {
            Ok(()) => {},
            Err(e) => {
                return Err(e);
            },
        }
        let ghost before = self@;
        let id = self.candidate_counter + 1;
        let candidate = ResolutionCandidate {
            id,
            market_id,
            outcome,
            signature,
            proposer,
            evidence_uri,
            proposed_at: now,
            challenge_deadline: now + challenge_window_seconds,
            status: CandidateStatus::Proposed,
            challenged_by: None,
            challenge_uri: None,
            finalized_at: None,
        };
        proof {
            assert(!before.candidates.contains_key(id));
        }
        self.candidate_counter = id;
        self.candidates.insert(id, candidate);
        self.market_candidates.insert(market_id, id);
        proof {
            let after = self@;
            assert forall|cid: u32| #[trigger] after.candidates.contains_key(cid) implies {
                let c = after.candidates[cid];
                &&& c.id == cid
                &&& 1 <= cid <= after.candidate_counter
                &&& after.market_candidates.contains_key(c.market_id)
                &&& after.market_candidates[c.market_id] == cid
                &&& candidate_consistent(c)
            } by {
                if cid != id {
                    assert(before.candidates.contains_key(cid));
                    let c = before.candidates[cid];
                    assert(before.market_candidates.contains_key(c.market_id));
                    assert(c.market_id != market_id);
                }
            }
            assert forall|m: u32| #[trigger] after.market_candidates.contains_key(m) implies {
                &&& after.candidates.contains_key(after.market_candidates[m])
                &&& after.candidates[after.market_candidates[m]].market_id == m
            } by {
                if m != market_id {
                    assert(before.market_candidates.contains_key(m));
                    assert(before.candidates.contains_key(before.market_candidates[m]));
                }
            }
        }
        Ok(id)
    }

    /// Challenges candidate `candidate_id` at time `now` while its challenge
    /// window is open.
    ///
    /// Fails with `InvalidEvidenceUri`, `CandidateNotFound`,
    /// `CandidateAlreadyFinalized`, `CandidateAlreadyChallenged` or
    /// `ChallengeWindowClosed` (when `now` is past the deadline), in that
    /// order of checking; then nothing changes. On success the candidate is
    /// `Challenged` and records the challenger and the challenge URI.
    pub fn challenge(
        &mut self,
        challenger: Address,
        candidate_id: u32,
        challenge_uri: String,
        now: u64,
    ) -> (r: Result<(), ContractError>)
        requires
            old(self).inv(),
        ensures
            final(self).inv(),
            finalized_stable(old(self)@, final(self)@),
            r == challenge_check(old(self)@, candidate_id, challenge_uri@, now),
            r is Err ==> final(self)@ == old(self)@,
            r is Ok ==> final(self)@ == (ResolutionView {
                candidates: old(self)@.candidates.insert(
                    candidate_id,
                    ResolutionCandidate {
                        status: CandidateStatus::Challenged,
                        challenged_by: Some(challenger),
                        challenge_uri: Some(challenge_uri),
                        ..old(self)@.candidates[candidate_id]
                    },
                ),
                ..old(self)@
            }),
    {
        validate_uri(&challenge_uri)?;
        let mut candidate = match self.candidates.get(&candidate_id) {
            Some(c) => c.clone(),
            None => {
                return Err(ContractError::CandidateNotFound);
            },
        };
        if candidate.status == CandidateStatus::Finalized {
            return Err(ContractError::CandidateAlreadyFinalized);
        }
        if candidate.status == CandidateStatus::Challenged {
            return Err(ContractError::CandidateAlreadyChallenged);
        }
        if now > candidate.challenge_deadline {
            return Err(ContractError::ChallengeWindowClosed);
        }
        let ghost before = self@;
        candidate.status = CandidateStatus::Challenged;
        candidate.challenged_by = Some(challenger);
        candidate.challenge_uri = Some(challenge_uri);
        self.candidates.insert(candidate_id, candidate);
        proof {
            self.lemma_inv_after_candidate_update(before, candidate_id);
        }
        Ok(())
    }

    /// Keeping a candidate's id and market while replacing it with a
    /// consistent candidate keeps [`registry_inv`].
    proof fn lemma_inv_after_candidate_update(&self, before: ResolutionView, id: u32)
        requires
            registry_inv(before),
            before.candidates.contains_key(id),
            self@.candidates.contains_key(id),
            self@.candidates == before.candidates.insert(id, self@.candidates[id]),
            self@.candidates[id].id == before.candidates[id].id,
            self@.candidates[id].market_id == before.candidates[id].market_id,
            candidate_consistent(self@.candidates[id]),
            self@.market_candidates == before.market_candidates,
            self@.candidate_counter == before.candidate_counter,
        ensures
            registry_inv(self@),
    {
        let after = self@;
        assert forall|cid: u32| #[trigger] after.candidates.contains_key(cid) implies {
            let c = after.candidates[cid];
            &&& c.id == cid
            &&& 1 <= cid <= after.candidate_counter
            &&& after.market_candidates.contains_key(c.market_id)
            &&& after.market_candidates[c.market_id] == cid
            &&& candidate_consistent(c)
        } by {
            assert(before.candidates.contains_key(cid));
        }
        assert forall|m: u32| #[trigger] after.market_candidates.contains_key(m) implies {
            &&& after.candidates.contains_key(after.market_candidates[m])
            &&& after.candidates[after.market_candidates[m]].market_id == m
        } by {
            assert(before.market_candidates.contains_key(m));
        }
    }

    /// Finalizes candidate `candidate_id` at time `now`, once its challenge
    /// window has closed unchallenged, and returns it.
    ///
    /// Fails with `CandidateNotFound`, `CandidateAlreadyFinalized`,
    /// `CandidateAlreadyChallenged` or `ChallengeWindowOpen` (when `now` is
    /// not past the deadline), in that order of checking; then nothing
    /// changes. On success the candidate is `Finalized` at `now`; the caller
    /// then has the registered market contract resolve the market with the
    /// candidate's outcome and signature. The contract must be initialized.
    pub fn finalize(&mut self, finalizer: Address, candidate_id: u32, now: u64) -> (r: Result<
        ResolutionCandidate,
        ContractError,
    >)
        requires
            old(self).inv(),
            old(self)@.config is Some,
        ensures
            final(self).inv(),
            finalized_stable(old(self)@, final(self)@),
            r is Ok <==> finalize_check(old(self)@, candidate_id, now) is Ok,
            r is Err ==> r == Err::<ResolutionCandidate, ContractError>(
                finalize_check(old(self)@, candidate_id, now)->Err_0,
            ),
            r is Err ==> final(self)@ == old(self)@,
            r is Ok ==> {
                let c = ResolutionCandidate {
                    status: CandidateStatus::Finalized,
                    finalized_at: Some(now),
                    ..old(self)@.candidates[candidate_id]
                };
                &&& r == Ok::<ResolutionCandidate, ContractError>(c)
                &&& final(self)@ == ResolutionView {
                    candidates: old(self)@.candidates.insert(candidate_id, c),
                    ..old(self)@
                }
            },
    {
        let mut candidate = match self.candidates.get(&candidate_id) {
            Some(c) => c.clone(),
            None => {
                return Err(ContractError::CandidateNotFound);
            },
        };
        if candidate.status == CandidateStatus::Finalized {
            return Err(ContractError::CandidateAlreadyFinalized);
        }
        if candidate.status == CandidateStatus::Challenged {
            return Err(ContractError::CandidateAlreadyChallenged);
        }
        if now <= candidate.challenge_deadline {
            return Err(ContractError::ChallengeWindowOpen);
        }
        let ghost before = self@;
        candidate.status = CandidateStatus::Finalized;
        candidate.finalized_at = Some(now);
        let result = candidate.clone();
        self.candidates.insert(candidate_id, candidate);
        proof {
            self.lemma_inv_after_candidate_update(before, candidate_id);
        }
        Ok(result)
    }

    /// The candidate with id `candidate_id`, if any.
    pub fn get_candidate(&self, candidate_id: u32) -> (r: Option<ResolutionCandidate>)
        requires
            self.inv(),
        ensures
            r == (if self@.candidates.contains_key(candidate_id) {
                Some(self@.candidates[candidate_id])
            } else {
                None
            }),
    {
        match self.candidates.get(&candidate_id) {
            Some(c) => Some(c.clone()),
            None => None,
        }
    }

    /// The id of the candidate proposed for `market_id`, if any.
    pub fn get_candidate_id_for_market(&self, market_id: u32) -> (r: Option<u32>)
        requires
            self.inv(),
        ensures
            r == (if self@.market_candidates.contains_key(market_id) {
                Some(self@.market_candidates[market_id])
            } else {
                None
            }),
    {
        match self.market_candidates.get(&market_id) {
            Some(id) => Some(*id),
            None => None,
        }
    }
}

/// The challenge window of a proposed candidate is open exactly up to its
/// deadline: with an accepted URI, a challenge succeeds at every time up to
/// and including the deadline and fails with `ChallengeWindowClosed` at
/// every later time, however long ago the candidate was proposed.
pub proof fn lemma_challenge_open_until_deadline(
    v: ResolutionView,
    id: u32,
    challenge_uri: Seq<char>,
    now: u64,
)
    requires
        valid_uri(challenge_uri),
        v.candidates.contains_key(id),
        v.candidates[id].status == CandidateStatus::Proposed,
    ensures
        challenge_check(v, id, challenge_uri, now) is Ok <==> now <= v.candidates[id].challenge_deadline,
        now > v.candidates[id].challenge_deadline ==> challenge_check(v, id, challenge_uri, now)
            == Err::<(), ContractError>(ContractError::ChallengeWindowClosed),
{
}

/// A proposed (unchallenged, unfinalized) candidate can be finalized at
/// every time after its deadline, however late, and at no time before or at
/// it, when the window is still open.
pub proof fn lemma_finalize_after_deadline(v: ResolutionView, id: u32, now: u64)
    requires
        v.candidates.contains_key(id),
        v.candidates[id].status == CandidateStatus::Proposed,
    ensures
        finalize_check(v, id, now) is Ok <==> now > v.candidates[id].challenge_deadline,
        now <= v.candidates[id].challenge_deadline ==> finalize_check(v, id, now) == Err::<
            (),
            ContractError,
        >(ContractError::ChallengeWindowOpen),
{
}

} // verus!
