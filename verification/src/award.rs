use vstd::prelude::*;
use crate::submission::{SubmissionId, SubmissionJson, SubmissionJsonView};

verus! {

pub type AwardId = u64;

/// A prize of a category. `price` is in smallest-denomination units.
pub struct Award {
    pub id: AwardId,
    pub name: String,
    pub price: u128,
    pub winner: Option<SubmissionId>,
    pub is_awarded: bool,
}

/// Where an award stands in its lifecycle.
#[derive(Clone, Copy, Debug, PartialEq, Eq, Structural)]
pub enum AwardState {
    /// No winner has been judged.
    Open,
    /// A winner has been judged and the prize has not been paid.
    Judged,
    /// The prize has been paid to the winner's recipient.
    Paid,
}

impl Award {
    /// A fresh award: no winner, not paid.
    pub fn new(id: AwardId, name: String, price: u128) -> (award: Self)
        ensures
            award == (Award { id, name, price, winner: None, is_awarded: false }),
    {
        Award { id, name, price, winner: None, is_awarded: false }
    }

    /// An award is never paid without a winner.
    pub open spec fn wf(&self) -> bool {
        self.is_awarded ==> self.winner.is_some()
    }

    /// The lifecycle state that the two fields encode.
    pub open spec fn spec_state(&self) -> AwardState {
        if self.winner.is_none() {
            AwardState::Open
        } else if self.is_awarded {
            AwardState::Paid
        } else {
            AwardState::Judged
        }
    }

    /// The award's lifecycle state.
    pub fn state(&self) -> (state: AwardState)
        ensures
            state == self.spec_state(),
    {
        if self.winner.is_none() {
            AwardState::Open
        } else if self.is_awarded {
            AwardState::Paid
        } else {
            AwardState::Judged
        }
    }
}

/// An award with its winning submission resolved.
pub struct AwardJson {
    pub id: AwardId,
    pub name: String,
    pub price: u128,
    pub winner: Option<SubmissionJson>,
    pub is_awarded: bool,
}

/// What an `AwardJson` holds.
pub ghost struct AwardJsonView {
    pub id: AwardId,
    pub name: String,
    pub price: u128,
    pub winner: Option<SubmissionJsonView>,
    pub is_awarded: bool,
}

impl View for AwardJson {
    type V = AwardJsonView;

    open spec fn view(&self) -> AwardJsonView {
        AwardJsonView {
            id: self.id,
            name: self.name,
            price: self.price,
            winner: match self.winner {
                Some(s) => Some(s@),
                None => None,
            },
            is_awarded: self.is_awarded,
        }
    }
}

/// The views of a list of resolved awards.
pub open spec fn award_json_views(items: Seq<AwardJson>) -> Seq<AwardJsonView> {
    Seq::new(items.len(), |i: int| items[i]@)
}

} // verus!
