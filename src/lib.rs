//! A deterministic reputation ledger: per-account reputation profiles and
//! peer-submitted ratings, with the validation rules that gate every change
//! and the aggregate-score queries.
//!
//! The ledger's behaviour is stated as a state machine over [`LedgerState`]
//! (module `model`); the executable [`Pallet`] and [`ExecutorDispatch`] are
//! proved to follow it step by step, and module `laws` proves the properties
//! that hold across calls and of every reachable state.
pub mod dispatch;
pub mod laws;
pub mod model;
pub mod pallet;
pub mod types;

pub use dispatch::ExecutorDispatch;
pub use model::{Call, LedgerState};
pub use pallet::Pallet;
pub use types::{AccountId, CategoryScores, Config, Error, Event, Rating, ReputationProfile};
