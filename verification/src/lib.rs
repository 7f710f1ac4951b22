pub mod registry;
pub mod sums;
pub mod voting;
pub mod voting_with_constraints;
mod storage;

pub use ink_env::AccountId;
