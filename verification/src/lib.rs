//! A hackathon-management ledger: organisers create events, categories and
//! awards; participants join and submit projects; organisers judge winners and
//! release each prize to the winning submission's designated recipient.
//!
//! The ledger keeps its five record collections mutually consistent, drives
//! each award through `Open -> Judged -> Paid`, and assembles nested read-only
//! views from the normalised records.

pub mod assembler;
pub mod audit;
pub mod award;
pub mod category;
pub mod contract;
pub mod error;
pub mod hackathon;
pub mod laws;
pub mod lifecycle;
pub mod maintain;
pub mod member;
pub mod prize;
pub mod submission;
pub mod text;

pub use award::{Award, AwardId, AwardJson, AwardState};
pub use category::{Category, CategoryId, CategoryJson};
pub use contract::{HackathonContract, Payout};
pub use error::LedgerError;
pub use hackathon::{
    Hackathon, HackathonId, HackathonJson, HackathonPayload, HackathonWithTotalPrize,
};
pub use member::{AccountId, Member, MemberJson, MemberJsonDetail};
pub use submission::{Submission, SubmissionId, SubmissionJson, Timestamp};
