use reputation_ledger::{Call, CategoryScores, Config, Error, Event, ExecutorDispatch, Pallet};

const A: u64 = 1;
const B: u64 = 2;
const C: u64 = 3;
const HASH: [u8; 32] = [7u8; 32];

fn ledger(min_stake_amount: u128, max_reviews_per_user: u32) -> Pallet {
    Pallet::new(Config { min_stake_amount, max_reviews_per_user })
}

#[test]
fn create_profile_starts_fresh() {
    let mut p = ledger(1000, 10);
    assert_eq!(p.create_profile(A), Ok(Event::ProfileCreated { who: A }));
    let profile = p.user_reputation(A).unwrap();
    assert_eq!(profile.total_score, 0);
    assert_eq!(profile.review_count, 0);
    assert_eq!(
        profile.category_scores,
        CategoryScores { communication: 0, reliability: 0, quality: 0, professionalism: 0 }
    );
    assert!(profile.active);
    assert_eq!(profile.staked_amount, 0);
    assert_eq!(profile.owner, A);
    assert_eq!(p.user_reputation(B), None);
}

#[test]
fn second_create_profile_fails_and_keeps_profile() {
    let mut p = ledger(1000, 10);
    p.create_profile(A).unwrap();
    p.create_profile(C).unwrap();
    p.submit_rating(B, A, 3, 1, 1, 1, 1, HASH).unwrap();
    let before = p.user_reputation(A).unwrap();
    assert_eq!(p.create_profile(A), Err(Error::ProfileAlreadyExists));
    assert_eq!(p.user_reputation(A), Some(before));
}

#[test]
fn counts_and_sums_follow_ratings() {
    let mut p = ledger(1000, 10);
    p.create_profile(A).unwrap();
    let scores: [u8; 4] = [5, 1, 3, 4];
    for (k, s) in scores.iter().enumerate() {
        let rater = 10 + k as u64;
        p.submit_rating(rater, A, *s, 1, 2, 3, 4, HASH).unwrap();
    }
    // refused attempts change nothing
    assert_eq!(p.submit_rating(10, A, 2, 1, 1, 1, 1, HASH), Err(Error::AlreadyRated));
    assert_eq!(p.submit_rating(20, A, 9, 1, 1, 1, 1, HASH), Err(Error::InvalidScore));
    let profile = p.user_reputation(A).unwrap();
    assert_eq!(profile.review_count, 4);
    assert_eq!(profile.total_score, 13);
    assert_eq!(p.rating_count(A), 4);
    let mut found: u32 = 0;
    let mut sum: u32 = 0;
    for rater in 10..14u64 {
        let r = p.ratings(A, rater).unwrap();
        assert_eq!(r.from, rater);
        assert_eq!(r.to, A);
        found += 1;
        sum += r.score as u32;
    }
    assert_eq!(found, profile.review_count);
    assert_eq!(sum, profile.total_score);
    assert_eq!(
        profile.category_scores,
        CategoryScores { communication: 4, reliability: 8, quality: 12, professionalism: 16 }
    );
}

#[test]
fn self_rating_fails_for_every_score() {
    let mut p = ledger(1000, 10);
    p.create_profile(A).unwrap();
    for score in 0..=255u8 {
        assert_eq!(p.submit_rating(A, A, score, 1, 1, 1, 1, HASH), Err(Error::CannotRateSelf));
    }
    assert_eq!(p.user_reputation(A).unwrap().review_count, 0);
    assert_eq!(p.ratings(A, A), None);
    assert_eq!(p.rating_count(A), 0);
}

#[test]
fn self_rating_is_checked_before_profile() {
    let mut p = ledger(1000, 10);
    assert_eq!(p.submit_rating(C, C, 3, 1, 1, 1, 1, HASH), Err(Error::CannotRateSelf));
}

#[test]
fn scores_outside_one_to_five_are_invalid() {
    let mut p = ledger(1000, 10);
    p.create_profile(A).unwrap();
    assert_eq!(p.submit_rating(B, A, 0, 1, 1, 1, 1, HASH), Err(Error::InvalidScore));
    assert_eq!(p.submit_rating(B, A, 6, 1, 1, 1, 1, HASH), Err(Error::InvalidScore));
    assert_eq!(p.submit_rating(B, A, 255, 1, 1, 1, 1, HASH), Err(Error::InvalidScore));
    assert_eq!(p.user_reputation(A).unwrap().review_count, 0);
}

#[test]
fn scores_one_to_five_are_accepted() {
    let mut p = ledger(1000, 10);
    p.create_profile(A).unwrap();
    for score in 1..=5u8 {
        let rater = 100 + score as u64;
        assert_eq!(
            p.submit_rating(rater, A, score, 0, 0, 0, 0, HASH),
            Ok(Event::RatingSubmitted { from: rater, to: A, score })
        );
    }
    let profile = p.user_reputation(A).unwrap();
    assert_eq!(profile.review_count, 5);
    assert_eq!(profile.total_score, 15);
}

#[test]
fn invalid_score_is_checked_before_profile() {
    let mut p = ledger(1000, 10);
    assert_eq!(p.submit_rating(B, C, 0, 1, 1, 1, 1, HASH), Err(Error::InvalidScore));
}

#[test]
fn rating_without_profile_is_not_found() {
    let mut p = ledger(1000, 10);
    assert_eq!(p.submit_rating(B, A, 3, 1, 1, 1, 1, HASH), Err(Error::ProfileNotFound));
}

#[test]
fn second_rating_by_same_rater_fails() {
    let mut p = ledger(1000, 10);
    p.create_profile(A).unwrap();
    p.submit_rating(B, A, 1, 1, 1, 1, 1, HASH).unwrap();
    for score in 1..=5u8 {
        assert_eq!(p.submit_rating(B, A, score, 5, 5, 5, 5, [1u8; 32]), Err(Error::AlreadyRated));
    }
    let stored = p.ratings(A, B).unwrap();
    assert_eq!(stored.score, 1);
    assert_eq!(stored.review_hash, HASH);
    assert_eq!(p.user_reputation(A).unwrap().total_score, 1);
}

#[test]
fn review_cap_refuses_new_rater() {
    let mut p = ledger(1000, 3);
    p.create_profile(A).unwrap();
    for rater in 10..13u64 {
        p.submit_rating(rater, A, 4, 1, 1, 1, 1, HASH).unwrap();
    }
    assert_eq!(p.rating_count(A), 3);
    assert_eq!(p.submit_rating(99, A, 4, 1, 1, 1, 1, HASH), Err(Error::TooManyReviews));
    assert_eq!(p.ratings(A, 99), None);
    assert_eq!(p.user_reputation(A).unwrap().review_count, 3);
}

#[test]
fn review_cap_of_zero_refuses_everything() {
    let mut p = ledger(1000, 0);
    p.create_profile(A).unwrap();
    assert_eq!(p.submit_rating(B, A, 4, 1, 1, 1, 1, HASH), Err(Error::TooManyReviews));
}

#[test]
fn deactivated_profile_refuses_ratings() {
    let mut p = ledger(1000, 10);
    p.create_profile(A).unwrap();
    assert_eq!(p.deactivate_profile(A), Ok(Event::ProfileDeactivated { who: A }));
    assert!(!p.user_reputation(A).unwrap().active);
    assert_eq!(p.submit_rating(B, A, 3, 1, 1, 1, 1, HASH), Err(Error::ProfileNotActive));
    assert_eq!(p.user_reputation(A).unwrap().review_count, 0);
}

#[test]
fn deactivation_repeats_and_stays() {
    let mut p = ledger(1000, 10);
    p.create_profile(A).unwrap();
    assert_eq!(p.deactivate_profile(A), Ok(Event::ProfileDeactivated { who: A }));
    assert_eq!(p.deactivate_profile(A), Ok(Event::ProfileDeactivated { who: A }));
    assert_eq!(p.stake_reputation(A, 5000), Ok(Event::ReputationStaked { who: A, amount: 5000 }));
    assert_eq!(p.create_profile(A), Err(Error::ProfileAlreadyExists));
    assert!(!p.user_reputation(A).unwrap().active);
}

#[test]
fn deactivate_without_profile_is_not_found() {
    let mut p = ledger(1000, 10);
    assert_eq!(p.deactivate_profile(A), Err(Error::ProfileNotFound));
}

#[test]
fn unrated_average_is_zero() {
    let mut p = ledger(1000, 10);
    p.create_profile(A).unwrap();
    assert_eq!(p.get_average_score(A), Some(0));
    assert_eq!(
        p.get_category_average(A),
        Some(CategoryScores { communication: 0, reliability: 0, quality: 0, professionalism: 0 })
    );
    assert_eq!(p.get_average_score(B), None);
    assert_eq!(p.get_category_average(B), None);
}

#[test]
fn averages_use_floor_division() {
    let mut p = ledger(1000, 10);
    p.create_profile(A).unwrap();
    p.submit_rating(B, A, 5, 5, 1, 0, 255, HASH).unwrap();
    p.submit_rating(C, A, 2, 2, 2, 1, 255, HASH).unwrap();
    p.submit_rating(4, A, 2, 0, 4, 0, 1, HASH).unwrap();
    assert_eq!(p.get_average_score(A), Some(3));
    assert_eq!(
        p.get_category_average(A),
        Some(CategoryScores { communication: 2, reliability: 2, quality: 0, professionalism: 170 })
    );
}

#[test]
fn single_rating_scenario() {
    let mut p = ledger(1000, 10);
    p.create_profile(A).unwrap();
    assert_eq!(
        p.submit_rating(B, A, 4, 3, 4, 5, 2, HASH),
        Ok(Event::RatingSubmitted { from: B, to: A, score: 4 })
    );
    let profile = p.user_reputation(A).unwrap();
    assert_eq!(profile.total_score, 4);
    assert_eq!(profile.review_count, 1);
    assert_eq!(
        profile.category_scores,
        CategoryScores { communication: 3, reliability: 4, quality: 5, professionalism: 2 }
    );
    assert_eq!(p.get_average_score(A), Some(4));
}

#[test]
fn stake_below_minimum_is_refused() {
    let mut p = ledger(1000, 10);
    p.create_profile(A).unwrap();
    assert_eq!(p.stake_reputation(A, 999), Err(Error::InsufficientStake));
    assert_eq!(p.user_reputation(A).unwrap().staked_amount, 0);
}

#[test]
fn stakes_accumulate() {
    let mut p = ledger(1000, 10);
    p.create_profile(A).unwrap();
    assert_eq!(p.stake_reputation(A, 1000), Ok(Event::ReputationStaked { who: A, amount: 1000 }));
    assert_eq!(p.stake_reputation(A, 2500), Ok(Event::ReputationStaked { who: A, amount: 2500 }));
    assert_eq!(p.user_reputation(A).unwrap().staked_amount, 3500);
}

#[test]
fn stake_minimum_is_checked_before_profile() {
    let mut p = ledger(1000, 10);
    assert_eq!(p.stake_reputation(A, 999), Err(Error::InsufficientStake));
    assert_eq!(p.stake_reputation(A, 1000), Err(Error::ProfileNotFound));
}

#[test]
fn ratings_carry_the_clock_reading() {
    let mut p = ledger(1000, 10);
    p.create_profile(A).unwrap();
    p.submit_rating(B, A, 3, 1, 1, 1, 1, HASH).unwrap();
    p.set_timestamp(1_700_000_000);
    p.submit_rating(C, A, 3, 1, 1, 1, 1, HASH).unwrap();
    assert_eq!(p.ratings(A, B).unwrap().timestamp, 0);
    assert_eq!(p.ratings(A, C).unwrap().timestamp, 1_700_000_000);
    assert_eq!(p.ratings(B, A), None);
}

#[test]
fn category_sums_reach_largest_sub_scores() {
    let mut p = ledger(0, 5);
    p.create_profile(A).unwrap();
    for rater in 10..15u64 {
        p.submit_rating(rater, A, 5, 255, 255, 255, 255, HASH).unwrap();
    }
    let profile = p.user_reputation(A).unwrap();
    assert_eq!(profile.category_scores.communication, 1275);
    assert_eq!(profile.total_score, 25);
    assert_eq!(p.config(), Config { min_stake_amount: 0, max_reviews_per_user: 5 });
}

#[test]
fn dispatch_routes_each_call() {
    let mut p = ledger(1000, 10);
    assert_eq!(
        ExecutorDispatch::dispatch(&mut p, Call::CreateProfile { who: A }),
        Ok(Event::ProfileCreated { who: A })
    );
    let rate = Call::SubmitRating {
        caller: B,
        target: A,
        score: 4,
        communication: 3,
        reliability: 4,
        quality: 5,
        professionalism: 2,
        review_hash: HASH,
    };
    assert_eq!(ExecutorDispatch::dispatch(&mut p, rate), Ok(Event::RatingSubmitted { from: B, to: A, score: 4 }));
    assert_eq!(ExecutorDispatch::dispatch(&mut p, rate), Err(Error::AlreadyRated));
    assert_eq!(
        ExecutorDispatch::dispatch(&mut p, Call::StakeReputation { who: A, amount: 999 }),
        Err(Error::InsufficientStake)
    );
    assert_eq!(
        ExecutorDispatch::dispatch(&mut p, Call::StakeReputation { who: A, amount: 1200 }),
        Ok(Event::ReputationStaked { who: A, amount: 1200 })
    );
    assert_eq!(
        ExecutorDispatch::dispatch(&mut p, Call::DeactivateProfile { who: B }),
        Err(Error::ProfileNotFound)
    );
    assert_eq!(
        ExecutorDispatch::dispatch(&mut p, Call::DeactivateProfile { who: A }),
        Ok(Event::ProfileDeactivated { who: A })
    );
    let profile = p.user_reputation(A).unwrap();
    assert_eq!(profile.total_score, 4);
    assert_eq!(profile.staked_amount, 1200);
    assert!(!profile.active);
}
