//! Properties of the ledger that relate several operations or hold of every
//! reachable state, proved over the model of `LedgerState`.
use vstd::prelude::*;

use crate::model::{
    category_sums_for, count_for, has_rating, lemma_create_profile_keeps_wf, lemma_deactivate_profile_keeps_wf,
    lemma_stake_reputation_keeps_wf, lemma_submit_rating_keeps_wf, score_sum_for, valid_score,
    Call, LedgerState,
};
use crate::types::{AccountId, Config, Error, Event, ReputationProfile};

verus! {

/// The state after `call`, whether it succeeded or was refused.
pub open spec fn apply(s: LedgerState, call: Call) -> LedgerState {
    s.step(call).0
}

/// The state after `calls`, in order, starting from `s`.
pub open spec fn run(s: LedgerState, calls: Seq<Call>) -> LedgerState
    decreases calls.len(),
{
    if calls.len() == 0 {
        s
    } else {
        apply(run(s, calls.drop_last()), calls.last())
    }
}

/// Every call keeps the ledger's invariant.
pub proof fn law_call_keeps_wf(s: LedgerState, call: Call)
    requires
        s.wf(),
    ensures
        apply(s, call).wf(),
{
    match call {
        Call::CreateProfile { who } => lemma_create_profile_keeps_wf(s, who),
        Call::SubmitRating {
            caller,
            target,
            score,
            communication,
            reliability,
            quality,
            professionalism,
            review_hash,
        } => lemma_submit_rating_keeps_wf(
            s,
            caller,
            target,
            score,
            communication,
            reliability,
            quality,
            professionalism,
            review_hash,
        ),
        Call::StakeReputation { who, amount } => lemma_stake_reputation_keeps_wf(s, who, amount),
        Call::DeactivateProfile { who } => lemma_deactivate_profile_keeps_wf(s, who),
    }
}

/// After any sequence of calls on a new ledger, the review count of every
/// profile is the number of ratings of that account, its total score is the
/// sum of their scores, its category accumulators are the sums of their
/// sub-scores, and the rating counter agrees with the review count.
pub proof fn law_profiles_match_ratings(config: Config, calls: Seq<Call>, t: AccountId)
    requires
        config.valid(),
    ensures
        run(LedgerState::initial(config, 0), calls).wf(),
        run(LedgerState::initial(config, 0), calls).profiles.contains_key(t) ==> {
            let s = run(LedgerState::initial(config, 0), calls);
            &&& s.profiles[t].review_count == count_for(s.ratings, t)
            &&& s.profiles[t].total_score == score_sum_for(s.ratings, t)
            &&& category_sums_for(s.ratings, t) == (
                s.profiles[t].category_scores.communication as nat,
                s.profiles[t].category_scores.reliability as nat,
                s.profiles[t].category_scores.quality as nat,
                s.profiles[t].category_scores.professionalism as nat,
            )
            &&& s.count_of(t) == s.profiles[t].review_count
        },
    decreases calls.len(),
{
    if calls.len() == 0 {
        assert(LedgerState::initial(config, 0).wf());
    } else {
        law_profiles_match_ratings(config, calls.drop_last(), t);
        law_call_keeps_wf(run(LedgerState::initial(config, 0), calls.drop_last()), calls.last());
    }
    let s = run(LedgerState::initial(config, 0), calls);
    if s.profiles.contains_key(t) {
        assert(s.profile_consistent(t));
    }
}

/// Once `a` has created a profile, creating it again is refused with
/// `ProfileAlreadyExists` and changes nothing.
pub proof fn law_create_profile_once(s: LedgerState, a: AccountId)
    requires
        s.create_profile(a).1 is Ok,
    ensures
        s.create_profile(a).0.profiles[a] == ReputationProfile::fresh(a),
        s.create_profile(a).0.create_profile(a) == (s.create_profile(a).0, Err::<Event, Error>(
            Error::ProfileAlreadyExists,
        )),
{
}

/// Rating oneself is refused with `CannotRateSelf`, whatever the score, and
/// changes nothing.
pub proof fn law_no_self_rating(
    s: LedgerState,
    a: AccountId,
    score: u8,
    communication: u8,
    reliability: u8,
    quality: u8,
    professionalism: u8,
    review_hash: [u8; 32],
)
    ensures
        s.submit_rating(a, a, score, communication, reliability, quality, professionalism, review_hash)
            == (s, Err::<Event, Error>(Error::CannotRateSelf)),
{
}

/// A rating of another account with a score outside 1..=5 is refused with
/// `InvalidScore` and changes nothing; with a score inside it is accepted
/// when the target has an active profile below the review cap, not yet rated
/// by the caller.
pub proof fn law_score_range(
    s: LedgerState,
    caller: AccountId,
    target: AccountId,
    score: u8,
    communication: u8,
    reliability: u8,
    quality: u8,
    professionalism: u8,
    review_hash: [u8; 32],
)
    requires
        caller != target,
    ensures
        !valid_score(score) ==> s.submit_rating(
            caller,
            target,
            score,
            communication,
            reliability,
            quality,
            professionalism,
            review_hash,
        ) == (s, Err::<Event, Error>(Error::InvalidScore)),
        valid_score(score) && s.profiles.contains_key(target) && !has_rating(s.ratings, target, caller)
            && s.profiles[target].active && s.count_of(target) < s.config.max_reviews_per_user
            ==> s.submit_rating(
            caller,
            target,
            score,
            communication,
            reliability,
            quality,
            professionalism,
            review_hash,
        ).1 == Ok::<Event, Error>(Event::RatingSubmitted { from: caller, to: target, score }),
{
}

/// After `rater` has rated `target`, a second rating of `target` by `rater`
/// with a valid score is refused with `AlreadyRated` and changes nothing,
/// whatever either score was.
pub proof fn law_rate_once(
    s: LedgerState,
    rater: AccountId,
    target: AccountId,
    score: u8,
    communication: u8,
    reliability: u8,
    quality: u8,
    professionalism: u8,
    review_hash: [u8; 32],
    score2: u8,
    communication2: u8,
    reliability2: u8,
    quality2: u8,
    professionalism2: u8,
    review_hash2: [u8; 32],
)
    requires
        s.submit_rating(rater, target, score, communication, reliability, quality, professionalism, review_hash).1 is Ok,
        valid_score(score2),
    ensures
        ({
            let s1 = s.submit_rating(
                rater,
                target,
                score,
                communication,
                reliability,
                quality,
                professionalism,
                review_hash,
            ).0;
            s1.submit_rating(
                rater,
                target,
                score2,
                communication2,
                reliability2,
                quality2,
                professionalism2,
                review_hash2,
            ) == (s1, Err::<Event, Error>(Error::AlreadyRated))
        }),
{
    let s1 = s.submit_rating(rater, target, score, communication, reliability, quality, professionalism, review_hash).0;
    let i = s.ratings.len() as int;
    assert(s1.ratings[i].to == target && s1.ratings[i].from == rater);
    assert(has_rating(s1.ratings, target, rater));
}

/// Once `target` has received the configured maximum of ratings, a rating
/// of its active profile by a new rater with a valid score is refused with
/// `TooManyReviews` and changes nothing.
pub proof fn law_review_cap(
    s: LedgerState,
    caller: AccountId,
    target: AccountId,
    score: u8,
    communication: u8,
    reliability: u8,
    quality: u8,
    professionalism: u8,
    review_hash: [u8; 32],
)
    requires
        s.wf(),
        s.profiles.contains_key(target),
        count_for(s.ratings, target) == s.config.max_reviews_per_user,
        s.profiles[target].active,
        caller != target,
        valid_score(score),
        !has_rating(s.ratings, target, caller),
    ensures
        s.submit_rating(caller, target, score, communication, reliability, quality, professionalism, review_hash)
            == (s, Err::<Event, Error>(Error::TooManyReviews)),
{
    assert(s.profile_consistent(target));
}

/// After `a` is deactivated, a rating of `a` by another account that has not
/// rated it, with a valid score, is refused with `ProfileNotActive` and
/// changes nothing.
pub proof fn law_deactivated_refuses_ratings(
    s: LedgerState,
    a: AccountId,
    b: AccountId,
    score: u8,
    communication: u8,
    reliability: u8,
    quality: u8,
    professionalism: u8,
    review_hash: [u8; 32],
)
    requires
        s.deactivate_profile(a).1 is Ok,
        b != a,
        valid_score(score),
        !has_rating(s.ratings, a, b),
    ensures
        ({
            let s1 = s.deactivate_profile(a).0;
            s1.submit_rating(b, a, score, communication, reliability, quality, professionalism, review_hash)
                == (s1, Err::<Event, Error>(Error::ProfileNotActive))
        }),
{
}

/// The average score of an unrated profile is 0.
pub proof fn law_unrated_average_is_zero(s: LedgerState, a: AccountId)
    requires
        s.profiles.contains_key(a),
        s.profiles[a].review_count == 0,
    ensures
        s.average_score(a) == Some(0u32),
{
}

/// No call turns an inactive profile active again.
pub proof fn law_deactivation_is_permanent(s: LedgerState, call: Call, a: AccountId)
    requires
        s.profiles.contains_key(a),
        !s.profiles[a].active,
    ensures
        apply(s, call).profiles.contains_key(a),
        !apply(s, call).profiles[a].active,
{
}

/// No call that keeps stakes inside a `u128` lowers a stake, and no call
/// removes a profile.
pub proof fn law_stake_never_decreases(s: LedgerState, call: Call, a: AccountId)
    requires
        s.profiles.contains_key(a),
        s.admits(call),
    ensures
        apply(s, call).profiles.contains_key(a),
        apply(s, call).profiles[a].staked_amount >= s.profiles[a].staked_amount,
{
}

/// No call changes or removes a stored rating: the ratings before a call
/// are a prefix of those after it, and at most one is added.
pub proof fn law_ratings_are_permanent(s: LedgerState, call: Call)
    ensures
        s.ratings.len() <= apply(s, call).ratings.len() <= s.ratings.len() + 1,
        apply(s, call).ratings.take(s.ratings.len() as int) == s.ratings,
{
    assert(apply(s, call).ratings.take(s.ratings.len() as int) =~= s.ratings);
}

} // verus!
