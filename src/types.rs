//! Value types of the ledger: profiles, ratings, events and errors.
use vstd::prelude::*;

verus! {

/// An account identifier, as handed over by the host after it has
/// authenticated the caller.
pub type AccountId = u64;

/// The largest number of reviews per account that a ledger may be configured
/// with: at this cap a category accumulator (255 per rating at most) still
/// fits in a `u32`.
pub const MAX_REVIEWS_PER_USER_LIMIT: u32 = 16843009;

/// The two constants a ledger is deployed with.
#[derive(Clone, Copy, Debug, PartialEq, Eq, Structural)]
pub struct Config {
    /// Smallest amount accepted by a single stake.
    pub min_stake_amount: u128,
    /// Largest number of ratings an account can receive.
    pub max_reviews_per_user: u32,
}

impl Config {
    /// Whether the configured cap keeps every accumulator inside a `u32`.
    pub open spec fn valid(self) -> bool {
        self.max_reviews_per_user <= MAX_REVIEWS_PER_USER_LIMIT
    }
}

/// Four running sums (or, in a single rating, four sub-scores).
#[derive(Clone, Copy, Debug, PartialEq, Eq, Structural)]
pub struct CategoryScores {
    pub communication: u32,
    pub reliability: u32,
    pub quality: u32,
    pub professionalism: u32,
}

impl CategoryScores {
    /// All four categories at zero.
    pub open spec fn zero() -> CategoryScores {
        CategoryScores { communication: 0, reliability: 0, quality: 0, professionalism: 0 }
    }
}

/// The aggregate reputation record of one account.
#[derive(Clone, Copy, Debug, PartialEq, Eq, Structural)]
pub struct ReputationProfile {
    /// Sum of the scores of all accepted ratings of this account.
    pub total_score: u32,
    /// Number of accepted ratings of this account.
    pub review_count: u32,
    /// Running sums of the category sub-scores.
    pub category_scores: CategoryScores,
    /// Cleared for good by a deactivation.
    pub active: bool,
    /// Sum of all stakes; never decreases.
    pub staked_amount: u128,
    /// The account this profile belongs to.
    pub owner: AccountId,
}

impl ReputationProfile {
    /// The profile a newly created account starts with.
    pub open spec fn fresh(owner: AccountId) -> ReputationProfile {
        ReputationProfile {
            total_score: 0,
            review_count: 0,
            category_scores: CategoryScores::zero(),
            active: true,
            staked_amount: 0,
            owner,
        }
    }
}

/// One accepted rating of `to` by `from`; never changed once stored.
#[derive(Clone, Copy, Debug, PartialEq, Eq)]
pub struct Rating {
    pub from: AccountId,
    pub to: AccountId,
    /// Between 1 and 5 inclusive.
    pub score: u8,
    pub category_ratings: CategoryScores,
    /// Logical time of the submission, as the host's clock gave it.
    pub timestamp: u64,
    /// Opaque digest of the detailed review kept off the ledger.
    pub review_hash: [u8; 32],
}

/// What a successful operation reports.
#[derive(Clone, Copy, Debug, PartialEq, Eq, Structural)]
pub enum Event {
    ProfileCreated { who: AccountId },
    RatingSubmitted { from: AccountId, to: AccountId, score: u8 },
    ReputationStaked { who: AccountId, amount: u128 },
    ReputationUnstaked { who: AccountId, amount: u128 },
    ProfileDeactivated { who: AccountId },
}

/// Why an operation was refused; a refused operation changes nothing.
#[derive(Clone, Copy, Debug, PartialEq, Eq, Structural)]
pub enum Error {
    ProfileAlreadyExists,
    ProfileNotFound,
    CannotRateSelf,
    AlreadyRated,
    InvalidScore,
    InsufficientStake,
    ProfileNotActive,
    TooManyReviews,
}

} // verus!
