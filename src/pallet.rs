//! The executable ledger: three stores, the four operations and the
//! aggregate queries, each proved to follow the model of `LedgerState`.
use std::collections::HashMap;
use vstd::prelude::*;

use crate::model::{
    has_rating, lemma_create_profile_keeps_wf, lemma_deactivate_profile_keeps_wf,
    lemma_stake_reputation_keeps_wf, lemma_submit_rating_keeps_wf, LedgerState,
};
use crate::types::{AccountId, CategoryScores, Config, Error, Event, Rating, ReputationProfile};

verus! {

broadcast use vstd::std_specs::hash::group_hash_axioms;

/// The reputation ledger: profiles by account, ratings keyed by the
/// (target, rater) pair, and a rating counter per account.
pub struct Pallet {
    config: Config,
    now: u64,
    user_reputation: HashMap<AccountId, ReputationProfile>,
    rating_log: Vec<Rating>,
    rating_count: HashMap<AccountId, u32>,
}

impl View for Pallet {
    type V = LedgerState;

    closed spec fn view(&self) -> LedgerState {
        LedgerState {
            profiles: self.user_reputation@,
            ratings: self.rating_log@,
            counts: self.rating_count@,
            config: self.config,
            now: self.now,
        }
    }
}

impl Pallet {
    /// An empty ledger deployed with `config`, its clock at 0.
    pub fn new(config: Config) -> (r: Pallet)
        requires
            config.valid(),
        ensures
            r@ == LedgerState::initial(config, 0),
            r@.wf(),
    {
        let r = Pallet {
            config,
            now: 0,
            user_reputation: HashMap::new(),
            rating_log: Vec::new(),
            rating_count: HashMap::new(),
        };
        assert(r@.ratings =~= Seq::<Rating>::empty());
        r
    }

    /// The host clock's reading, which stamps new ratings.
    pub fn set_timestamp(&mut self, now: u64)
        requires
            old(self)@.wf(),
        ensures
            final(self)@ == (LedgerState { now, ..old(self)@ }),
            final(self)@.wf(),
    {
        self.now = now;
    }

    /// The configuration the ledger was deployed with.
    pub fn config(&self) -> (r: Config)
        ensures
            r == self@.config,
    {
        self.config
    }

    fn get_timestamp(&self) -> (r: u64)
        ensures
            r == self@.now,
    {
        self.now
    }

    /// The profile of `who`, if one was created.
    pub fn user_reputation(&self, who: AccountId) -> (r: Option<ReputationProfile>)
        ensures
            r == (if self@.profiles.contains_key(who) {
                Some(self@.profiles[who])
            } else {
                None
            }),
    {
        match self.user_reputation.get(&who) {
            Some(p) => Some(*p),
            None => None,
        }
    }

    /// The rating of `target` by `rater`, if one was accepted.
    pub fn ratings(&self, target: AccountId, rater: AccountId) -> (r: Option<Rating>)
        ensures
            r is None <==> !has_rating(self@.ratings, target, rater),
            r matches Some(x) ==> x.to == target && x.from == rater && self@.ratings.contains(x),
    {
        let mut i: usize = 0;
        while i < self.rating_log.len()
            invariant
                0 <= i <= self.rating_log@.len(),
                forall|j: int|
                    0 <= j < i ==> !(#[trigger] self.rating_log@[j].to == target
                        && self.rating_log@[j].from == rater),
            decreases self.rating_log@.len() - i,
        {
            let x = self.rating_log[i];
            if x.to == target && x.from == rater {
                assert(self@.ratings[i as int] == x);
                return Some(x);
            }
            i = i + 1;
        }
        None
    }

    /// The number of ratings `who` has received.
    pub fn rating_count(&self, who: AccountId) -> (r: u32)
        ensures
            r == self@.count_of(who),
    {
        match self.rating_count.get(&who) {
            Some(c) => *c,
            None => 0,
        }
    }

    /// Creates a fresh, active profile for `who`; refused if `who` has one.
    pub fn create_profile(&mut self, who: AccountId) -> (r: Result<Event, Error>)
        requires
            old(self)@.wf(),
        ensures
            (final(self)@, r) == old(self)@.create_profile(who),
            final(self)@.wf(),
    {
        proof {
            lemma_create_profile_keeps_wf(self@, who);
        }
        if self.user_reputation.contains_key(&who) {
            return Err(Error::ProfileAlreadyExists);
        }
        let profile = ReputationProfile {
            total_score: 0,
            review_count: 0,
            category_scores: CategoryScores { communication: 0, reliability: 0, quality: 0, professionalism: 0 },
            active: true,
            staked_amount: 0,
            owner: who,
        };
        self.user_reputation.insert(who, profile);
        Ok(Event::ProfileCreated { who })
    }

    /// Records a rating of `target` by `caller`, with a score in 1..=5,
    /// four sub-scores and the digest of the detailed review; refused on the
    /// first precondition that fails.
    pub fn submit_rating(
        &mut self,
        caller: AccountId,
        target: AccountId,
        score: u8,
        communication: u8,
        reliability: u8,
        quality: u8,
        professionalism: u8,
        review_hash: [u8; 32],
    ) -> (r: Result<Event, Error>)
        requires
            old(self)@.wf(),
        ensures
            (final(self)@, r) == old(self)@.submit_rating(
                caller,
                target,
                score,
                communication,
                reliability,
                quality,
                professionalism,
                review_hash,
            ),
            final(self)@.wf(),
    {
        let ghost s0 = self@;
        proof {
            lemma_submit_rating_keeps_wf(
                s0,
                caller,
                target,
                score,
                communication,
                reliability,
                quality,
                professionalism,
                review_hash,
            );
        }
        if caller == target {
            return Err(Error::CannotRateSelf);
        }
        if !(score >= 1 && score <= 5) {
            return Err(Error::InvalidScore);
        }
        let profile = match self.user_reputation.get(&target) {
            Some(p) => *p,
            None => {
                return Err(Error::ProfileNotFound);
            },
        };
        if self.ratings(target, caller).is_some() {
            return Err(Error::AlreadyRated);
        }
        if !profile.active {
            return Err(Error::ProfileNotActive);
        }
        let current_count = self.rating_count(target);
        if current_count >= self.config.max_reviews_per_user {
            return Err(Error::TooManyReviews);
        }
        assert(s0.profile_consistent(target));
        let category_ratings = CategoryScores {
            communication: communication as u32,
            reliability: reliability as u32,
            quality: quality as u32,
            professionalism: professionalism as u32,
        };
        let updated = ReputationProfile {
            total_score: profile.total_score + score as u32,
            review_count: profile.review_count + 1,
            category_scores: CategoryScores {
                communication: profile.category_scores.communication + category_ratings.communication,
                reliability: profile.category_scores.reliability + category_ratings.reliability,
                quality: profile.category_scores.quality + category_ratings.quality,
                professionalism: profile.category_scores.professionalism
                    + category_ratings.professionalism,
            },
            ..profile
        };
        let rating = Rating {
            from: caller,
            to: target,
            score,
            category_ratings,
            timestamp: self.get_timestamp(),
            review_hash,
        };
        self.rating_log.push(rating);
        self.user_reputation.insert(target, updated);
        self.rating_count.insert(target, current_count + 1);
        Ok(Event::RatingSubmitted { from: caller, to: target, score })
    }

    /// Adds `amount`, at least the configured minimum, to the stake of
    /// `who`.
    pub fn stake_reputation(&mut self, who: AccountId, amount: u128) -> (r: Result<Event, Error>)
        requires
            old(self)@.wf(),
            old(self)@.stake_fits(who, amount),
        ensures
            (final(self)@, r) == old(self)@.stake_reputation(who, amount),
            final(self)@.wf(),
    {
        proof {
            lemma_stake_reputation_keeps_wf(self@, who, amount);
        }
        if amount < self.config.min_stake_amount {
            return Err(Error::InsufficientStake);
        }
        let profile = match self.user_reputation.get(&who) {
            Some(p) => *p,
            None => {
                return Err(Error::ProfileNotFound);
            },
        };
        let updated = ReputationProfile { staked_amount: profile.staked_amount + amount, ..profile };
        self.user_reputation.insert(who, updated);
        Ok(Event::ReputationStaked { who, amount })
    }

    /// Marks the profile of `who` inactive; repeating it succeeds again.
    pub fn deactivate_profile(&mut self, who: AccountId) -> (r: Result<Event, Error>)
        requires
            old(self)@.wf(),
        ensures
            (final(self)@, r) == old(self)@.deactivate_profile(who),
            final(self)@.wf(),
    {
        proof {
            lemma_deactivate_profile_keeps_wf(self@, who);
        }
        let profile = match self.user_reputation.get(&who) {
            Some(p) => *p,
            None => {
                return Err(Error::ProfileNotFound);
            },
        };
        self.user_reputation.insert(who, ReputationProfile { active: false, ..profile });
        Ok(Event::ProfileDeactivated { who })
    }

    /// The floor of the mean score of `who`: 0 while unrated, `None`
    /// without a profile.
    pub fn get_average_score(&self, who: AccountId) -> (r: Option<u32>)
        ensures
            r == self@.average_score(who),
    {
        match self.user_reputation.get(&who) {
            Some(profile) => {
                if profile.review_count == 0 {
                    Some(0)
                } else {
                    Some(profile.total_score / profile.review_count)
                }
            },
            None => None,
        }
    }

    /// Each category sum of `who` divided (floor) by the review count, or
    /// by 1 while unrated; `None` without a profile.
    pub fn get_category_average(&self, who: AccountId) -> (r: Option<CategoryScores>)
        ensures
            r == self@.category_average(who),
    {
        match self.user_reputation.get(&who) {
            Some(profile) => {
                let count: u32 = if profile.review_count == 0 { 1 } else { profile.review_count };
                Some(CategoryScores {
                    communication: profile.category_scores.communication / count,
                    reliability: profile.category_scores.reliability / count,
                    quality: profile.category_scores.quality / count,
                    professionalism: profile.category_scores.professionalism / count,
                })
            },
            None => None,
        }
    }
}

} // verus!
