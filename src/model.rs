//! The mathematical model of the ledger: its state, the rules of each
//! operation as a step from state to state, and the invariant every
//! reachable state keeps.
use vstd::prelude::*;

use crate::types::{
    AccountId, CategoryScores, Config, Error, Event, Rating, ReputationProfile,
    MAX_REVIEWS_PER_USER_LIMIT,
};

verus! {

/// Number of ratings in `log` whose target is `t`.
pub open spec fn count_for(log: Seq<Rating>, t: AccountId) -> nat
    decreases log.len(),
{
    if log.len() == 0 {
        0
    } else {
        count_for(log.drop_last(), t) + if log.last().to == t { 1nat } else { 0nat }
    }
}

/// Sum of the scores of the ratings in `log` whose target is `t`.
pub open spec fn score_sum_for(log: Seq<Rating>, t: AccountId) -> nat
    decreases log.len(),
{
    if log.len() == 0 {
        0
    } else {
        score_sum_for(log.drop_last(), t) + if log.last().to == t {
            log.last().score as nat
        } else {
            0nat
        }
    }
}

/// Sums of the four sub-scores (communication, reliability, quality,
/// professionalism) of the ratings in `log` whose target is `t`.
pub open spec fn category_sums_for(log: Seq<Rating>, t: AccountId) -> (nat, nat, nat, nat)
    decreases log.len(),
{
    if log.len() == 0 {
        (0, 0, 0, 0)
    } else {
        let rest = category_sums_for(log.drop_last(), t);
        let c = log.last().category_ratings;
        if log.last().to == t {
            (
                rest.0 + c.communication as nat,
                rest.1 + c.reliability as nat,
                rest.2 + c.quality as nat,
                rest.3 + c.professionalism as nat,
            )
        } else {
            rest
        }
    }
}

/// Whether `log` holds a rating of `target` by `rater`.
pub open spec fn has_rating(log: Seq<Rating>, target: AccountId, rater: AccountId) -> bool {
    exists|i: int| 0 <= i < log.len() && #[trigger] log[i].to == target && log[i].from == rater
}

/// A score that a rating may carry.
pub open spec fn valid_score(score: u8) -> bool {
    1 <= score <= 5
}

/// The four sub-scores of a submission, widened.
pub open spec fn categories_of(
    communication: u8,
    reliability: u8,
    quality: u8,
    professionalism: u8,
) -> CategoryScores {
    CategoryScores {
        communication: communication as u32,
        reliability: reliability as u32,
        quality: quality as u32,
        professionalism: professionalism as u32,
    }
}

/// `p` after one more accepted rating with `score` and sub-scores `c`.
pub open spec fn with_rating(p: ReputationProfile, score: u8, c: CategoryScores) -> ReputationProfile {
    ReputationProfile {
        total_score: (p.total_score + score) as u32,
        review_count: (p.review_count + 1) as u32,
        category_scores: CategoryScores {
            communication: (p.category_scores.communication + c.communication) as u32,
            reliability: (p.category_scores.reliability + c.reliability) as u32,
            quality: (p.category_scores.quality + c.quality) as u32,
            professionalism: (p.category_scores.professionalism + c.professionalism) as u32,
        },
        ..p
    }
}

/// Every category of `c` is at most `bound`.
pub open spec fn categories_within(c: CategoryScores, bound: int) -> bool {
    &&& c.communication <= bound
    &&& c.reliability <= bound
    &&& c.quality <= bound
    &&& c.professionalism <= bound
}

/// One operation of the ledger, as the host hands it over with the
/// authenticated caller filled in.
#[derive(Clone, Copy, Debug, PartialEq, Eq)]
pub enum Call {
    CreateProfile { who: AccountId },
    SubmitRating {
        caller: AccountId,
        target: AccountId,
        score: u8,
        communication: u8,
        reliability: u8,
        quality: u8,
        professionalism: u8,
        review_hash: [u8; 32],
    },
    StakeReputation { who: AccountId, amount: u128 },
    DeactivateProfile { who: AccountId },
}

/// The contents of the ledger's three stores, its configuration and the
/// host clock's last reading.
pub struct LedgerState {
    /// One profile per account that has created one.
    pub profiles: Map<AccountId, ReputationProfile>,
    /// Every accepted rating, in the order of acceptance.
    pub ratings: Seq<Rating>,
    /// Per-account counter of accepted ratings; a missing entry reads as 0.
    pub counts: Map<AccountId, u32>,
    pub config: Config,
    pub now: u64,
}

impl LedgerState {
    /// A ledger with empty stores.
    pub open spec fn initial(config: Config, now: u64) -> LedgerState {
        LedgerState { profiles: Map::empty(), ratings: Seq::empty(), counts: Map::empty(), config, now }
    }

    /// The counter of `a`, with 0 for an account never rated.
    pub open spec fn count_of(self, a: AccountId) -> u32 {
        if self.counts.contains_key(a) {
            self.counts[a]
        } else {
            0
        }
    }

    /// The stored profile of `a` is consistent with the ratings of `a`.
    pub open spec fn profile_consistent(self, a: AccountId) -> bool {
        let p = self.profiles[a];
        &&& p.owner == a
        &&& p.review_count == count_for(self.ratings, a)
        &&& p.total_score == score_sum_for(self.ratings, a)
        &&& category_sums_for(self.ratings, a) == (
            p.category_scores.communication as nat,
            p.category_scores.reliability as nat,
            p.category_scores.quality as nat,
            p.category_scores.professionalism as nat,
        )
        &&& self.count_of(a) == p.review_count
        &&& p.review_count <= self.config.max_reviews_per_user
        &&& p.total_score <= 5 * p.review_count
        &&& categories_within(p.category_scores, 255 * p.review_count)
    }

    /// The invariant of the ledger: each profile agrees with its ratings and
    /// its counter, each rating is valid and rates a profile, and no ordered
    /// pair of accounts has two ratings.
    pub open spec fn wf(self) -> bool {
        &&& self.config.valid()
        &&& forall|a: AccountId| #[trigger] self.profiles.contains_key(a) ==> self.profile_consistent(a)
        &&& forall|a: AccountId| !#[trigger] self.profiles.contains_key(a) ==> self.count_of(a) == 0
        &&& forall|i: int| 0 <= i < self.ratings.len() ==> {
            let r = #[trigger] self.ratings[i];
            &&& r.from != r.to
            &&& valid_score(r.score)
            &&& self.profiles.contains_key(r.to)
        }
        &&& forall|i: int, j: int|
            0 <= i < j < self.ratings.len() ==> !(#[trigger] self.ratings[i].to == #[trigger] self.ratings[j].to
                && self.ratings[i].from == self.ratings[j].from)
    }

    /// Creating a profile for `who`: the next state and the outcome.
    pub open spec fn create_profile(self, who: AccountId) -> (LedgerState, Result<Event, Error>) {
        if self.profiles.contains_key(who) {
            (self, Err(Error::ProfileAlreadyExists))
        } else {
            (
                LedgerState { profiles: self.profiles.insert(who, ReputationProfile::fresh(who)), ..self },
                Ok(Event::ProfileCreated { who }),
            )
        }
    }

    /// The first precondition of a rating that fails, if any, in the order
    /// in which they are checked.
    pub open spec fn rating_refusal(self, caller: AccountId, target: AccountId, score: u8) -> Option<Error> {
        if caller == target {
            Some(Error::CannotRateSelf)
        } else if !valid_score(score) {
            Some(Error::InvalidScore)
        } else if !self.profiles.contains_key(target) {
            Some(Error::ProfileNotFound)
        } else if has_rating(self.ratings, target, caller) {
            Some(Error::AlreadyRated)
        } else if !self.profiles[target].active {
            Some(Error::ProfileNotActive)
        } else if self.count_of(target) >= self.config.max_reviews_per_user {
            Some(Error::TooManyReviews)
        } else {
            None
        }
    }

    /// Submitting a rating of `target` by `caller`: the next state and the
    /// outcome.
    pub open spec fn submit_rating(
        self,
        caller: AccountId,
        target: AccountId,
        score: u8,
        communication: u8,
        reliability: u8,
        quality: u8,
        professionalism: u8,
        review_hash: [u8; 32],
    ) -> (LedgerState, Result<Event, Error>) {
        match self.rating_refusal(caller, target, score) {
            Some(e) => (self, Err(e)),
            None => {
                let c = categories_of(communication, reliability, quality, professionalism);
                let rating = Rating {
                    from: caller,
                    to: target,
                    score,
                    category_ratings: c,
                    timestamp: self.now,
                    review_hash,
                };
                (
                    LedgerState {
                        profiles: self.profiles.insert(target, with_rating(self.profiles[target], score, c)),
                        ratings: self.ratings.push(rating),
                        counts: self.counts.insert(target, (self.count_of(target) + 1) as u32),
                        ..self
                    },
                    Ok(Event::RatingSubmitted { from: caller, to: target, score }),
                )
            },
        }
    }

    /// A stake by `who` leaves the stake of `who` inside a `u128`.
    pub open spec fn stake_fits(self, who: AccountId, amount: u128) -> bool {
        self.profiles.contains_key(who) ==> self.profiles[who].staked_amount + amount <= u128::MAX
    }

    /// Staking `amount` on the profile of `who`: the next state and the
    /// outcome.
    pub open spec fn stake_reputation(self, who: AccountId, amount: u128) -> (LedgerState, Result<Event, Error>) {
        if amount < self.config.min_stake_amount {
            (self, Err(Error::InsufficientStake))
        } else if !self.profiles.contains_key(who) {
            (self, Err(Error::ProfileNotFound))
        } else {
            let p = self.profiles[who];
            (
                LedgerState {
                    profiles: self.profiles.insert(
                        who,
                        ReputationProfile { staked_amount: (p.staked_amount + amount) as u128, ..p },
                    ),
                    ..self
                },
                Ok(Event::ReputationStaked { who, amount }),
            )
        }
    }

    /// Deactivating the profile of `who`: the next state and the outcome.
    pub open spec fn deactivate_profile(self, who: AccountId) -> (LedgerState, Result<Event, Error>) {
        if !self.profiles.contains_key(who) {
            (self, Err(Error::ProfileNotFound))
        } else {
            (
                LedgerState {
                    profiles: self.profiles.insert(who, ReputationProfile { active: false, ..self.profiles[who] }),
                    ..self
                },
                Ok(Event::ProfileDeactivated { who }),
            )
        }
    }

    /// Performing `call`: the next state and the outcome.
    pub open spec fn step(self, call: Call) -> (LedgerState, Result<Event, Error>) {
        match call {
            Call::CreateProfile { who } => self.create_profile(who),
            Call::SubmitRating {
                caller,
                target,
                score,
                communication,
                reliability,
                quality,
                professionalism,
                review_hash,
            } => self.submit_rating(
                caller,
                target,
                score,
                communication,
                reliability,
                quality,
                professionalism,
                review_hash,
            ),
            Call::StakeReputation { who, amount } => self.stake_reputation(who, amount),
            Call::DeactivateProfile { who } => self.deactivate_profile(who),
        }
    }

    /// `call` keeps every stake inside a `u128`.
    pub open spec fn admits(self, call: Call) -> bool {
        match call {
            Call::StakeReputation { who, amount } => self.stake_fits(who, amount),
            _ => true,
        }
    }

    /// The floor of the mean score of `who`, 0 while unrated; `None`
    /// without a profile.
    pub open spec fn average_score(self, who: AccountId) -> Option<u32> {
        if !self.profiles.contains_key(who) {
            None
        } else {
            let p = self.profiles[who];
            if p.review_count == 0 {
                Some(0u32)
            } else {
                Some((p.total_score / p.review_count) as u32)
            }
        }
    }

    /// The floor of each category sum of `who` divided by the review count,
    /// the count taken as 1 while unrated; `None` without a profile.
    pub open spec fn category_average(self, who: AccountId) -> Option<CategoryScores> {
        if !self.profiles.contains_key(who) {
            None
        } else {
            let p = self.profiles[who];
            let d: u32 = if p.review_count == 0 { 1 } else { p.review_count };
            Some(CategoryScores {
                communication: (p.category_scores.communication / d) as u32,
                reliability: (p.category_scores.reliability / d) as u32,
                quality: (p.category_scores.quality / d) as u32,
                professionalism: (p.category_scores.professionalism / d) as u32,
            })
        }
    }
}

/// Appending a rating adds one to its target's count, its score to its
/// target's score sum and its sub-scores to its target's category sums, and
/// leaves every other account's as they were.
pub proof fn lemma_push_rating(log: Seq<Rating>, r: Rating, t: AccountId)
    ensures
        count_for(log.push(r), t) == count_for(log, t) + if r.to == t { 1nat } else { 0nat },
        score_sum_for(log.push(r), t) == score_sum_for(log, t) + if r.to == t {
            r.score as nat
        } else {
            0nat
        },
        category_sums_for(log.push(r), t) == if r.to == t {
            (
                category_sums_for(log, t).0 + r.category_ratings.communication as nat,
                category_sums_for(log, t).1 + r.category_ratings.reliability as nat,
                category_sums_for(log, t).2 + r.category_ratings.quality as nat,
                category_sums_for(log, t).3 + r.category_ratings.professionalism as nat,
            )
        } else {
            category_sums_for(log, t)
        },
{
    assert(log.push(r).drop_last() =~= log);
}

/// Creating a profile keeps the invariant.
pub proof fn lemma_create_profile_keeps_wf(s: LedgerState, who: AccountId)
    requires
        s.wf(),
    ensures
        s.create_profile(who).0.wf(),
{
    let s2 = s.create_profile(who).0;
    if !s.profiles.contains_key(who) {
        assert forall|a: AccountId| #[trigger] s2.profiles.contains_key(a) implies s2.profile_consistent(a) by {
            if a == who {
                assert(s.count_of(a) == 0);
                lemma_no_ratings_without_profile(s, a);
            } else {
                assert(s.profile_consistent(a));
            }
        }
    }
}

/// A log none of whose ratings targets `a` has no count and no score sum
/// for `a`.
pub proof fn lemma_untargeted(log: Seq<Rating>, a: AccountId)
    requires
        forall|i: int| 0 <= i < log.len() ==> (#[trigger] log[i]).to != a,
    ensures
        count_for(log, a) == 0,
        score_sum_for(log, a) == 0,
        category_sums_for(log, a) == (0nat, 0nat, 0nat, 0nat),
    decreases log.len(),
{
    if log.len() > 0 {
        lemma_untargeted(log.drop_last(), a);
    }
}

/// In a well-formed state an account without a profile has no ratings.
pub proof fn lemma_no_ratings_without_profile(s: LedgerState, a: AccountId)
    requires
        s.wf(),
        !s.profiles.contains_key(a),
    ensures
        count_for(s.ratings, a) == 0,
        score_sum_for(s.ratings, a) == 0,
        category_sums_for(s.ratings, a) == (0nat, 0nat, 0nat, 0nat),
{
    assert forall|i: int| 0 <= i < s.ratings.len() implies (#[trigger] s.ratings[i]).to != a by {
        assert(s.profiles.contains_key(s.ratings[i].to));
    }
    lemma_untargeted(s.ratings, a);
}

/// Submitting a rating keeps the invariant.
pub proof fn lemma_submit_rating_keeps_wf(
    s: LedgerState,
    caller: AccountId,
    target: AccountId,
    score: u8,
    communication: u8,
    reliability: u8,
    quality: u8,
    professionalism: u8,
    review_hash: [u8; 32],
)
    requires
        s.wf(),
    ensures
        s.submit_rating(caller, target, score, communication, reliability, quality, professionalism, review_hash).0.wf(),
{
    if s.rating_refusal(caller, target, score).is_none() {
        let s2 = s.submit_rating(caller, target, score, communication, reliability, quality, professionalism, review_hash).0;
        let r = s2.ratings.last();
        assert(s2.ratings =~= s.ratings.push(r));
        assert(s.profile_consistent(target));
        let p = s.profiles[target];
        assert(p.review_count < s.config.max_reviews_per_user);
        assert forall|a: AccountId| #[trigger] s2.profiles.contains_key(a) implies s2.profile_consistent(a) by {
            lemma_push_rating(s.ratings, r, a);
            assert(s.profile_consistent(a));
            if a == target {
                assert(255 * (p.review_count + 1) <= 255 * MAX_REVIEWS_PER_USER_LIMIT) by (nonlinear_arith)
                    requires p.review_count + 1 <= MAX_REVIEWS_PER_USER_LIMIT;
            }
        }
        assert forall|a: AccountId| !#[trigger] s2.profiles.contains_key(a) implies s2.count_of(a) == 0 by {
            assert(!s.profiles.contains_key(a));
        }
        assert forall|i: int| 0 <= i < s2.ratings.len() implies {
            let r = #[trigger] s2.ratings[i];
            &&& r.from != r.to
            &&& valid_score(r.score)
            &&& s2.profiles.contains_key(r.to)
        } by {
            if i < s.ratings.len() {
                assert(s2.ratings[i] == s.ratings[i]);
            }
        }
        assert forall|i: int, j: int| 0 <= i < j < s2.ratings.len() implies !(#[trigger] s2.ratings[i].to
            == #[trigger] s2.ratings[j].to && s2.ratings[i].from == s2.ratings[j].from) by {
            assert(s2.ratings[i] == s.ratings[i]);
            if j < s.ratings.len() {
                assert(s2.ratings[j] == s.ratings[j]);
            } else if s2.ratings[i].to == s2.ratings[j].to && s2.ratings[i].from == s2.ratings[j].from {
                assert(has_rating(s.ratings, target, caller));
            }
        }
    }
}

/// Staking keeps the invariant.
pub proof fn lemma_stake_reputation_keeps_wf(s: LedgerState, who: AccountId, amount: u128)
    requires
        s.wf(),
    ensures
        s.stake_reputation(who, amount).0.wf(),
{
    let s2 = s.stake_reputation(who, amount).0;
    assert forall|a: AccountId| #[trigger] s2.profiles.contains_key(a) implies s2.profile_consistent(a) by {
        assert(s.profile_consistent(a));
    }
}

/// Deactivating a profile keeps the invariant.
pub proof fn lemma_deactivate_profile_keeps_wf(s: LedgerState, who: AccountId)
    requires
        s.wf(),
    ensures
        s.deactivate_profile(who).0.wf(),
{
    let s2 = s.deactivate_profile(who).0;
    assert forall|a: AccountId| #[trigger] s2.profiles.contains_key(a) implies s2.profile_consistent(a) by {
        assert(s.profile_consistent(a));
    }
}

} // verus!
