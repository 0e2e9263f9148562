use vstd::prelude::*;
use crate::category::{category_json_views, CategoryId, CategoryJson, CategoryJsonView};
use crate::member::{AccountId, MemberJson};
use crate::submission::{
    submission_json_views, SubmissionId, SubmissionJson, SubmissionJsonView, Timestamp,
};
use crate::text::{copy_ids, copy_texts};

verus! {

pub type HackathonId = u64;

/// An event: its owner, its description, and the identifiers of what belongs to it.
pub struct Hackathon {
    pub owner: AccountId,
    pub id: HackathonId,
    pub name: String,
    pub description: String,
    pub image: String,
    pub start: Timestamp,
    pub end: Timestamp,
    pub tags: Vec<String>,
    pub participants_list: Vec<AccountId>,
    pub submissions_list: Vec<SubmissionId>,
    pub categories_list: Vec<CategoryId>,
}

/// What a `Hackathon` holds, with its lists as sequences.
pub ghost struct HackathonView {
    pub owner: AccountId,
    pub id: HackathonId,
    pub name: String,
    pub description: String,
    pub image: String,
    pub start: Timestamp,
    pub end: Timestamp,
    pub tags: Seq<String>,
    pub participants_list: Seq<AccountId>,
    pub submissions_list: Seq<SubmissionId>,
    pub categories_list: Seq<CategoryId>,
}

impl View for Hackathon {
    type V = HackathonView;

    open spec fn view(&self) -> HackathonView {
        HackathonView {
            owner: self.owner,
            id: self.id,
            name: self.name,
            description: self.description,
            image: self.image,
            start: self.start,
            end: self.end,
            tags: self.tags@,
            participants_list: self.participants_list@,
            submissions_list: self.submissions_list@,
            categories_list: self.categories_list@,
        }
    }
}

/// What the creator of a hackathon supplies.
pub struct HackathonPayload {
    pub name: String,
    pub description: String,
    pub tags: Vec<String>,
    pub image: String,
    pub start: Timestamp,
    pub end: Timestamp,
}

impl Hackathon {
    /// A fresh hackathon of `owner` with no participant, submission or category.
    pub fn new(id: HackathonId, owner: AccountId, payload: HackathonPayload) -> (hackathon: Self)
        ensures
            hackathon@ == (HackathonView {
                owner,
                id,
                name: payload.name,
                description: payload.description,
                image: payload.image,
                start: payload.start,
                end: payload.end,
                tags: payload.tags@,
                participants_list: Seq::empty(),
                submissions_list: Seq::empty(),
                categories_list: Seq::empty(),
            }),
    {
        Hackathon {
            id,
            owner,
            name: payload.name,
            description: payload.description,
            start: payload.start,
            end: payload.end,
            image: payload.image,
            tags: payload.tags,
            participants_list: Vec::new(),
            submissions_list: Vec::new(),
            categories_list: Vec::new(),
        }
    }

    /// A copy of the record.
    pub fn copy(&self) -> (hackathon: Self)
        ensures
            hackathon@ == self@,
    {
        Hackathon {
            owner: self.owner.clone(),
            id: self.id,
            name: self.name.clone(),
            description: self.description.clone(),
            image: self.image.clone(),
            start: self.start,
            end: self.end,
            tags: copy_texts(&self.tags),
            participants_list: copy_texts(&self.participants_list),
            submissions_list: copy_ids(&self.submissions_list),
            categories_list: copy_ids(&self.categories_list),
        }
    }
}

/// The nested detail of a hackathon: its participants, submissions and categories.
pub struct HackathonJson {
    pub participants: Vec<MemberJson>,
    pub submissions: Vec<SubmissionJson>,
    pub categories: Vec<CategoryJson>,
}

/// What a `HackathonJson` holds, with its lists as sequences.
pub ghost struct HackathonJsonView {
    pub participants: Seq<MemberJson>,
    pub submissions: Seq<SubmissionJsonView>,
    pub categories: Seq<CategoryJsonView>,
}

impl View for HackathonJson {
    type V = HackathonJsonView;

    open spec fn view(&self) -> HackathonJsonView {
        HackathonJsonView {
            participants: self.participants@,
            submissions: submission_json_views(self.submissions@),
            categories: category_json_views(self.categories@),
        }
    }
}

/// A hackathon together with the sum of the prizes reachable through its categories.
pub struct HackathonWithTotalPrize {
    pub hackathon: Hackathon,
    pub total_prize: u128,
}

/// What a `HackathonWithTotalPrize` holds.
pub ghost struct HackathonWithTotalPrizeView {
    pub hackathon: HackathonView,
    pub total_prize: u128,
}

impl View for HackathonWithTotalPrize {
    type V = HackathonWithTotalPrizeView;

    open spec fn view(&self) -> HackathonWithTotalPrizeView {
        HackathonWithTotalPrizeView { hackathon: self.hackathon@, total_prize: self.total_prize }
    }
}

/// The views of a list of hackathons with their total prizes.
pub open spec fn with_total_views(items: Seq<HackathonWithTotalPrize>) -> Seq<
    HackathonWithTotalPrizeView,
> {
    Seq::new(items.len(), |i: int| items[i]@)
}

} // verus!
